use asgr::config::Config;
use asgr::context::AppContext;
use asgr::domain::config::{ConfigManager, UsesConfigManager};
use asgr::domain::event::Event;
use asgr::domain::order::Order;
use asgr::infra::config::ConfigManagerImpl;
use asgr::infra::event::{
    EventPublisherMqtt, EventReceiverMqtt, Payload, ReceiverAction, ReconnectStep,
    EVENTS_QOS, KEEP_ALIVE_SECS, RECONNECT_ATTEMPTS, RECONNECT_WAIT_MILLIS,
};
use asgr::infra::shell::OrderExecutorShell;

fn config(name: &str) -> Config {
    Config {
        name: name.to_string(),
        port: "8080".to_string(),
        beebotte_rest_url: "https://api.beebotte.com/v1".to_string(),
        beebotte_mqtt_url: "tcp://mqtt.beebotte.com:1883".to_string(),
        beebotte_channel_token: "token_abc".to_string(),
        beebotte_orders_channel: "asgr/orders".to_string(),
        beebotte_events_channel: "asgr/events".to_string(),
    }
}

fn order(id: &str, command: &str) -> Order {
    Order {
        id: id.to_string(),
        name: "n".to_string(),
        target: None,
        command: command.to_string(),
    }
}

fn event(duration: Option<u64>) -> Event {
    Event {
        id: "ev".to_string(),
        order_name: "n".to_string(),
        duration,
        arg: None,
        created_at: "2021-01-01T00:00:00+00:00".to_string(),
    }
}

#[test]
fn publisher_session_is_clean() {
    let p = EventPublisherMqtt::new(config("pi"));
    let s = p.session();
    assert_eq!(s.server_uri, "tcp://mqtt.beebotte.com:1883");
    assert_eq!(s.client_id, None);
    assert_eq!(s.user_name, "token_abc");
    assert_eq!(s.keep_alive_secs, 20);
    assert_eq!(KEEP_ALIVE_SECS, 20);
    assert!(s.clean_session);
}

#[test]
fn publisher_message_wraps_event_text() {
    let p = EventPublisherMqtt::new(config("pi"));
    let event_json = "{\"id\":\"e1\",\"order_name\":\"light\",\"duration\":null}";
    let m = p.message(event_json);
    assert_eq!(m.topic, "asgr/events");
    assert_eq!(m.qos, 1);
    assert_eq!(EVENTS_QOS, 1);
    let mut map = serde_json::Map::new();
    map.insert("data".to_string(), serde_json::Value::String(event_json.to_string()));
    map.insert("write".to_string(), serde_json::Value::Bool(false));
    let expected = serde_json::to_string(&serde_json::Value::Object(map)).unwrap();
    assert_eq!(m.payload, expected);
    assert_eq!(
        m.payload,
        "{\"data\":\"{\\\"id\\\":\\\"e1\\\",\\\"order_name\\\":\\\"light\\\",\\\"duration\\\":null}\",\"write\":false}"
    );
}

#[test]
fn publisher_message_escapes_unicode_as_is() {
    let p = EventPublisherMqtt::new(config("pi"));
    let m = p.message("é\u{7f}\u{1f}");
    assert_eq!(m.payload, "{\"data\":\"é\u{7f}\\u001f\",\"write\":false}");
}

#[test]
fn receiver_session_keeps_state() {
    let r = EventReceiverMqtt::new(config("pi"));
    let s = r.session();
    assert_eq!(s.server_uri, "tcp://mqtt.beebotte.com:1883");
    assert_eq!(s.client_id, Some("pi".to_string()));
    assert_eq!(s.user_name, "token_abc");
    assert_eq!(s.keep_alive_secs, 20);
    assert!(!s.clean_session);
    let sub = r.subscription();
    assert_eq!(sub.topic, "asgr/events");
    assert_eq!(sub.qos, 1);
}

#[test]
fn receiver_subscribes_only_without_kept_session() {
    assert!(EventReceiverMqtt::needs_subscription(Some(false)));
    assert!(!EventReceiverMqtt::needs_subscription(Some(true)));
    assert!(!EventReceiverMqtt::needs_subscription(None));
}

#[test]
fn receiver_dispatches_payload_data() {
    let p = Payload { data: "{\"order_name\":\"x\"}".to_string(), ispublic: false, ts: 3 };
    assert_eq!(
        EventReceiverMqtt::on_delivery(Some(Some(p)), true),
        ReceiverAction::Dispatch("{\"order_name\":\"x\"}".to_string())
    );
    let p = Payload { data: "d".to_string(), ispublic: true, ts: 4 };
    assert_eq!(
        EventReceiverMqtt::on_delivery(Some(Some(p)), false),
        ReceiverAction::Dispatch("d".to_string())
    );
}

#[test]
fn receiver_ignores_invalid_payload() {
    assert_eq!(EventReceiverMqtt::on_delivery(Some(None), true), ReceiverAction::Ignore);
    assert_eq!(EventReceiverMqtt::on_delivery(Some(None), false), ReceiverAction::Ignore);
}

#[test]
fn receiver_on_lost_connection() {
    assert_eq!(EventReceiverMqtt::on_delivery(None, true), ReceiverAction::Stop);
    assert_eq!(EventReceiverMqtt::on_delivery(None, false), ReceiverAction::Reconnect);
}

#[test]
fn reconnect_tries_twelve_times_five_seconds_apart() {
    assert_eq!(RECONNECT_ATTEMPTS, 12);
    assert_eq!(RECONNECT_WAIT_MILLIS, 5000);
    let mut tries: u32 = 0;
    let mut step = EventReceiverMqtt::reconnect_step(0);
    while let ReconnectStep::RetryAfter { wait_millis, attempts_made } = step {
        assert_eq!(wait_millis, 5000);
        tries += 1;
        assert_eq!(attempts_made, tries);
        assert!(tries <= 100);
        step = EventReceiverMqtt::reconnect_step(attempts_made);
    }
    assert_eq!(tries, 12);
    assert_eq!(EventReceiverMqtt::reconnect_step(12), ReconnectStep::GiveUp);
    assert_eq!(EventReceiverMqtt::reconnect_step(u32::MAX), ReconnectStep::GiveUp);
}

#[test]
fn published_payload_reads_back_as_the_event() {
    let p = EventPublisherMqtt::new(config("pi"));
    let texts = [
        "{\"id\":\"e1\",\"order_name\":\"light\",\"duration\":5}",
        "quote \" backslash \\ tab \t nl \n bell \u{7} é \u{3000}",
        "",
    ];
    for event_json in texts.iter() {
        let m = p.message(event_json);
        let v: serde_json::Value = serde_json::from_str(&m.payload).unwrap();
        let obj = v.as_object().unwrap();
        assert_eq!(obj.len(), 2);
        assert_eq!(obj.get("write"), Some(&serde_json::Value::Bool(false)));
        assert_eq!(obj.get("data").and_then(|d| d.as_str()), Some(*event_json));
    }
}

#[test]
fn plan_splits_commands_and_skips_blank_ones() {
    let shell = OrderExecutorShell::new();
    let orders = vec![
        order("1", "  echo   hello\tworld "),
        order("2", ""),
        order("3", " \n\t "),
        order("4", "reboot"),
    ];
    let jobs = shell.plan(orders, &event(Some(7)));
    assert_eq!(jobs.len(), 2);
    assert_eq!(jobs[0].command, "  echo   hello\tworld ");
    assert_eq!(jobs[0].program, "echo");
    assert_eq!(jobs[0].args, vec!["hello".to_string(), "world".to_string()]);
    assert_eq!(jobs[0].delay_secs, 7);
    assert_eq!(jobs[1].program, "reboot");
    assert!(jobs[1].args.is_empty());
    assert_eq!(jobs[1].delay_secs, 7);
}

#[test]
fn plan_appends_event_argument() {
    let shell = OrderExecutorShell::new();
    let mut ev = event(Some(2));
    ev.arg = Some("--level 3".to_string());
    let jobs = shell.plan(vec![order("1", "dim lamp"), order("2", "")], &ev);
    assert_eq!(jobs.len(), 2);
    assert_eq!(jobs[0].command, "dim lamp --level 3");
    assert_eq!(jobs[0].program, "dim");
    assert_eq!(jobs[0].args, vec!["lamp".to_string(), "--level".to_string(), "3".to_string()]);
    assert_eq!(jobs[1].command, " --level 3");
    assert_eq!(jobs[1].program, "--level");
    assert_eq!(jobs[1].args, vec!["3".to_string()]);
    ev.arg = Some("  ".to_string());
    let jobs = shell.plan(vec![order("3", " ")], &ev);
    assert!(jobs.is_empty());
}

#[test]
fn plan_without_duration_waits_nothing() {
    let shell = OrderExecutorShell::new();
    let jobs = shell.plan(vec![order("1", "ls -l")], &event(None));
    assert_eq!(jobs.len(), 1);
    assert_eq!(jobs[0].delay_secs, 0);
    assert_eq!(jobs[0].args, vec!["-l".to_string()]);
}

#[test]
fn config_manager_gives_its_config() {
    let m = ConfigManagerImpl::new(config("pi"));
    let c = m.get_config();
    assert_eq!(c.name, "pi");
    assert_eq!(c.beebotte_orders_channel, "asgr/orders");
    let again = m.get_config();
    assert_eq!(again.beebotte_events_channel, c.beebotte_events_channel);
}

#[test]
fn context_parts_share_the_config() {
    let ctx = AppContext::new(config("host1"));
    assert_eq!(ctx.uses_config_manager().get_config().name, "host1");
    assert_eq!(ctx.order_repository().read_request().url, "https://api.beebotte.com/v1/data/read/asgr/orders");
    assert_eq!(ctx.event_publisher().message("x").topic, "asgr/events");
    let jobs = ctx.order_executor().plan(vec![order("1", "a b")], &event(Some(1)));
    assert_eq!(jobs[0].program, "a");
}
