use asgr::application::event_service::matching_orders;
use asgr::application::order_service::RegisterNewOrderCommand;
use asgr::config::Config;
use asgr::domain::event::Event;
use asgr::domain::order::Order;
use asgr::infra::order::{Method, OrderChannelError, OrderRepositoryBeebotte, Payload};
use asgr::infra::rest::PostOrderParam;

fn config(name: &str) -> Config {
    Config {
        name: name.to_string(),
        port: "8080".to_string(),
        beebotte_rest_url: "https://api.beebotte.com/v1".to_string(),
        beebotte_mqtt_url: "tcp://mqtt.beebotte.com:1883".to_string(),
        beebotte_channel_token: "token_abc".to_string(),
        beebotte_orders_channel: "asgr/orders".to_string(),
        beebotte_events_channel: "asgr/events".to_string(),
    }
}

fn order(id: &str, name: &str, target: Option<&str>, command: &str) -> Order {
    Order {
        id: id.to_string(),
        name: name.to_string(),
        target: target.map(|t| t.to_string()),
        command: command.to_string(),
    }
}

fn event(order_name: &str, duration: Option<u64>) -> Event {
    Event {
        id: "ev1".to_string(),
        order_name: order_name.to_string(),
        duration,
        arg: None,
        created_at: "2021-01-01T00:00:00+00:00".to_string(),
    }
}

fn ids(orders: &[Order]) -> Vec<String> {
    orders.iter().map(|o| o.id.clone()).collect()
}

fn payload(id: &str, ts: u64) -> Payload {
    Payload { id: id.to_string(), data: format!("[{}]", id), ts }
}

#[test]
fn matching_keeps_named_orders_for_this_host() {
    let orders = vec![
        order("1", "light", None, "echo on"),
        order("2", "light", Some("pi"), "echo pi"),
        order("3", "light", Some("other"), "echo other"),
        order("4", "fan", None, "echo fan"),
        order("5", "light", Some("pi"), "echo again"),
    ];
    let r = matching_orders(orders, &event("light", None), &config("pi"));
    assert_eq!(ids(&r), vec!["1", "2", "5"]);
}

#[test]
fn matching_nothing_for_unknown_name() {
    let orders = vec![order("1", "light", None, "echo on")];
    let r = matching_orders(orders, &event("door", Some(3)), &config("pi"));
    assert!(r.is_empty());
}

#[test]
fn matching_empty_target_string_is_a_target() {
    let orders = vec![order("1", "light", Some(""), "echo on")];
    assert!(matching_orders(orders.clone(), &event("light", None), &config("pi")).is_empty());
    assert_eq!(ids(&matching_orders(orders, &event("light", None), &config(""))), vec!["1"]);
}

#[test]
fn oldest_payload_takes_smallest_timestamp() {
    let p = vec![payload("a", 30), payload("b", 10), payload("c", 20)];
    let r = OrderRepositoryBeebotte::oldest_payload(p).ok().unwrap();
    assert_eq!(r.id, "b");
    assert_eq!(r.data, "[b]");
    assert_eq!(r.ts, 10);
}

#[test]
fn oldest_payload_tie_takes_first() {
    let p = vec![payload("a", 30), payload("b", 10), payload("c", 10), payload("d", 40)];
    let r = OrderRepositoryBeebotte::oldest_payload(p).ok().unwrap();
    assert_eq!(r.id, "b");
}

#[test]
fn oldest_payload_matches_sort_reverse_pop() {
    let cases: Vec<Vec<u64>> = vec![vec![5], vec![3, 3, 3], vec![9, 1, 4, 1, 5, 9, 2, 6], vec![2, 1]];
    for ts in cases {
        let mut p: Vec<Payload> = ts.iter().enumerate().map(|(i, t)| payload(&i.to_string(), *t)).collect();
        let expected = {
            let mut q: Vec<(u64, String)> = p.iter().map(|x| (x.ts, x.id.clone())).collect();
            q.sort_by_key(|x| x.0);
            q.reverse();
            q.pop().unwrap().1
        };
        let r = OrderRepositoryBeebotte::oldest_payload(std::mem::take(&mut p)).ok().unwrap();
        assert_eq!(r.id, expected);
    }
}

#[test]
fn oldest_payload_of_empty_channel_is_refused() {
    let r = OrderRepositoryBeebotte::oldest_payload(Vec::new());
    match r {
        Err(e) => {
            assert_eq!(e, OrderChannelError::NoData);
            assert_eq!(e.message(), "No data in orders channel");
        }
        Ok(_) => panic!("an empty channel has no oldest record"),
    }
}

#[test]
fn with_order_appends() {
    let orders = vec![order("1", "a", None, "x"), order("2", "b", None, "y")];
    let r = OrderRepositoryBeebotte::with_order(orders, order("3", "c", None, "z"));
    assert_eq!(ids(&r), vec!["1", "2", "3"]);
}

#[test]
fn without_order_removes_every_order_of_the_id() {
    let orders = vec![
        order("1", "a", None, "x"),
        order("2", "b", None, "y"),
        order("1", "c", None, "z"),
        order("3", "d", None, "w"),
    ];
    let r = OrderRepositoryBeebotte::without_order(orders, &"1".to_string());
    assert_eq!(ids(&r), vec!["2", "3"]);
    let r = OrderRepositoryBeebotte::without_order(r, &"9".to_string());
    assert_eq!(ids(&r), vec!["2", "3"]);
}

#[test]
fn remove_undoes_add_of_fresh_id() {
    let orders = vec![order("1", "a", None, "x"), order("2", "b", None, "y")];
    let added = OrderRepositoryBeebotte::with_order(orders.clone(), order("7", "n", None, "c"));
    let removed = OrderRepositoryBeebotte::without_order(added, &"7".to_string());
    assert_eq!(ids(&removed), ids(&orders));
}

#[test]
fn remove_is_idempotent() {
    let orders = vec![order("1", "a", None, "x"), order("2", "b", None, "y"), order("1", "a", None, "x")];
    let once = OrderRepositoryBeebotte::without_order(orders, &"1".to_string());
    let twice = OrderRepositoryBeebotte::without_order(once.clone(), &"1".to_string());
    assert_eq!(ids(&once), ids(&twice));
}

#[test]
fn read_request_targets_the_orders_channel() {
    let repo = OrderRepositoryBeebotte::new(config("pi"));
    let r = repo.read_request();
    assert_eq!(r.method, Method::Get);
    assert_eq!(r.url, "https://api.beebotte.com/v1/data/read/asgr/orders");
    assert_eq!(r.headers, vec![("X-Auth-Token".to_string(), "token_abc".to_string())]);
    assert!(r.body.is_none());
}

#[test]
fn update_request_body_is_the_json_object() {
    let repo = OrderRepositoryBeebotte::new(config("pi"));
    let data = "[{\"id\":\"1\",\"name\":\"a\",\"target\":null,\"command\":\"echo \\\"x\\\"\"}]";
    let r = repo.update_request("5f1d", data);
    assert_eq!(r.method, Method::Post);
    assert_eq!(r.url, "https://api.beebotte.com/v1/data/update/asgr/orders");
    assert_eq!(
        r.headers,
        vec![
            ("X-Auth-Token".to_string(), "token_abc".to_string()),
            ("Content-Type".to_string(), "application/json".to_string()),
        ]
    );
    let body = r.body.unwrap();
    let mut map = serde_json::Map::new();
    map.insert("_id".to_string(), serde_json::Value::String("5f1d".to_string()));
    map.insert("data".to_string(), serde_json::Value::String(data.to_string()));
    let expected = serde_json::to_string(&serde_json::Value::Object(map)).unwrap();
    assert_eq!(body, expected);
    assert_eq!(
        body,
        "{\"_id\":\"5f1d\",\"data\":\"[{\\\"id\\\":\\\"1\\\",\\\"name\\\":\\\"a\\\",\\\"target\\\":null,\\\"command\\\":\\\"echo \\\\\\\"x\\\\\\\"\\\"}]\"}"
    );
}

#[test]
fn update_body_escapes_control_characters() {
    let repo = OrderRepositoryBeebotte::new(config("pi"));
    let r = repo.update_request("a\nb", "\u{1}\t\\");
    assert_eq!(r.body.unwrap(), "{\"_id\":\"a\\nb\",\"data\":\"\\u0001\\t\\\\\"}");
}

#[test]
fn new_order_has_v4_simple_id() {
    let o = Order::new("light".to_string(), Some("pi".to_string()), "echo on".to_string());
    assert_eq!(o.id.len(), 32);
    assert!(o.id.chars().all(|c| c.is_ascii_digit() || ('a'..='f').contains(&c)));
    assert_eq!(o.id.as_bytes()[12], b'4');
    assert!(matches!(o.id.as_bytes()[16], b'8' | b'9' | b'a' | b'b'));
    assert_eq!(o.name, "light");
    assert_eq!(o.target, Some("pi".to_string()));
    assert_eq!(o.command, "echo on");
    let p = Order::new("light".to_string(), None, "echo on".to_string());
    assert_ne!(o.id, p.id);
}

#[test]
fn register_command_becomes_order() {
    let cmd = RegisterNewOrderCommand {
        name: "fan".to_string(),
        target: None,
        command: "echo fan".to_string(),
    };
    let o = cmd.into_order();
    assert_eq!(o.id.len(), 32);
    assert_eq!(o.name, "fan");
    assert_eq!(o.target, None);
    assert_eq!(o.command, "echo fan");
}

#[test]
fn post_param_becomes_command() {
    let p = PostOrderParam {
        name: "door".to_string(),
        target: Some("gate".to_string()),
        command: "open".to_string(),
    };
    let c = p.into_command();
    assert_eq!(c.name, "door");
    assert_eq!(c.target, Some("gate".to_string()));
    assert_eq!(c.command, "open");
}

#[test]
fn registered_order_runs_for_its_event_and_removed_one_does_not() {
    let orders = vec![order("1", "light", None, "echo a"), order("2", "fan", None, "echo b")];
    let new = order("9", "light", Some("pi"), "echo c");
    let added = OrderRepositoryBeebotte::with_order(orders, new);
    let run = matching_orders(added.clone(), &event("light", None), &config("pi"));
    assert_eq!(ids(&run), vec!["1", "9"]);
    let elsewhere = matching_orders(added.clone(), &event("light", None), &config("other"));
    assert_eq!(ids(&elsewhere), vec!["1"]);
    let removed = OrderRepositoryBeebotte::without_order(added, &"9".to_string());
    let run = matching_orders(removed, &event("light", None), &config("pi"));
    assert_eq!(ids(&run), vec!["1"]);
}

#[test]
fn update_body_keeps_plain_text_as_is() {
    let repo = OrderRepositoryBeebotte::new(config("pi"));
    let r = repo.update_request("abc", "plain text, no escapes");
    assert_eq!(r.body.unwrap(), "{\"_id\":\"abc\",\"data\":\"plain text, no escapes\"}");
}

#[test]
fn update_body_reads_back_as_id_and_data() {
    let repo = OrderRepositoryBeebotte::new(config("pi"));
    let data = "[{\"id\":\"1\",\"command\":\"echo \\\"a\\\"\\n\"}]\u{1}";
    let body = repo.update_request("id\"x", data).body.unwrap();
    let v: serde_json::Value = serde_json::from_str(&body).unwrap();
    let obj = v.as_object().unwrap();
    assert_eq!(obj.len(), 2);
    assert_eq!(obj.get("_id").and_then(|d| d.as_str()), Some("id\"x"));
    assert_eq!(obj.get("data").and_then(|d| d.as_str()), Some(data));
}

#[test]
fn orders_and_events_compare_by_fields() {
    let a = order("1", "light", None, "echo");
    assert_eq!(a.clone(), a);
    assert_ne!(a, order("2", "light", None, "echo"));
    let e = event("light", Some(1));
    assert_eq!(e.clone(), e);
    assert_ne!(e, event("light", None));
}
