use vstd::prelude::*;
use crate::config::Config;
use crate::json::{json_string, law_json_string_reads_back, read_string, to_json_string};

verus! {

/// A message of the events channel, as Beebotte delivers it over MQTT:
/// `data` holds the JSON text of an event.
#[derive(Debug, Clone)]
pub struct Payload {
    pub data: String,
    pub ispublic: bool,
    pub ts: u64,
}

/// How to open an MQTT session with the broker.
pub struct MqttSession {
    pub server_uri: String,
    /// Client identifier; `None` lets the client library pick one.
    pub client_id: Option<String>,
    pub user_name: String,
    pub keep_alive_secs: u64,
    pub clean_session: bool,
}

/// A message to publish.
pub struct OutgoingMessage {
    pub topic: String,
    pub payload: String,
    pub qos: i32,
}

/// A topic to subscribe to.
pub struct Subscription {
    pub topic: String,
    pub qos: i32,
}

/// What the receiver does with one delivery of its message stream.
#[derive(Debug, PartialEq, Eq)]
pub enum ReceiverAction {
    /// Handle this event text, apart from the receiving loop.
    Dispatch(String),
    /// The message is not a payload: skip it.
    Ignore,
    /// The connection was lost: try to reconnect, and stop if that fails.
    Reconnect,
    /// Leave the receiving loop.
    Stop,
}

/// Next step of an attempt to reconnect.
#[derive(Debug, PartialEq, Eq, Structural)]
pub enum ReconnectStep {
    /// Wait `wait_millis` milliseconds, then try once more; `attempts_made`
    /// counts the attempts once this one is made.
    RetryAfter { wait_millis: u64, attempts_made: u32 },
    /// Stop trying.
    GiveUp,
}

/// Keep-alive interval of both sessions, in seconds.
pub const KEEP_ALIVE_SECS: u64 = 20;

/// Quality of service of published messages and of the events subscription.
pub const EVENTS_QOS: i32 = 1;

/// Number of reconnection attempts before the receiver gives up.
pub const RECONNECT_ATTEMPTS: u32 = 12;

/// Wait before each reconnection attempt, in milliseconds.
pub const RECONNECT_WAIT_MILLIS: u64 = 5000;

/// The JSON text published for an event whose JSON text is `event_json`:
/// `{"data":<event_json>,"write":false}`, the event text written as a JSON
/// string.
pub open spec fn publish_body_spec(event_json: Seq<char>) -> Seq<char> {
    "{\"data\":"@ + json_string(event_json) + ",\"write\":false}"@
}

/// What the receiver does with a delivery: `Some(Some(p))` is a message that
/// is a payload, `Some(None)` a message that is not, `None` the loss of the
/// connection, which ends the loop when the client still reports itself
/// connected.
pub open spec fn receiver_action_spec(delivery: Option<Option<Payload>>, connected: bool) -> ReceiverAction {
    match delivery {
        Some(Some(p)) => ReceiverAction::Dispatch(p.data),
        Some(None) => ReceiverAction::Ignore,
        None => if connected {
            ReceiverAction::Stop
        } else {
            ReceiverAction::Reconnect
        },
    }
}

/// Reads back a published payload: the event text, when `t` is
/// `{"data":<JSON string>,"write":false}`.
pub open spec fn read_publish_body(t: Seq<char>) -> Option<Seq<char>> {
    let head = "{\"data\":"@;
    if t.len() >= head.len() && t.take(head.len() as int) == head {
        match read_string(t.skip(head.len() as int)) {
            Some((event_json, rest)) => if rest == ",\"write\":false}"@ {
                Some(event_json)
            } else {
                None
            },
            None => None,
        }
    } else {
        None
    }
}

/// A published payload reads back as the event text it was made from: it is
/// an object of the two keys `data` and `write`, `write` is false, and `data`
/// is a JSON string that stands for the event text.
pub proof fn law_published_payload_reads_back(event_json: Seq<char>)
    ensures
        read_publish_body(publish_body_spec(event_json)) == Some(event_json),
{
    let head = "{\"data\":"@;
    let tail = ",\"write\":false}"@;
    let t = publish_body_spec(event_json);
    assert(t.take(head.len() as int) =~= head);
    assert(t.skip(head.len() as int) =~= json_string(event_json) + tail);
    law_json_string_reads_back(event_json, tail);
}

/// What `reconnect_step` does after `attempts_made` failed attempts.
pub open spec fn reconnect_step_spec(attempts_made: u32) -> ReconnectStep {
    if attempts_made < RECONNECT_ATTEMPTS {
        ReconnectStep::RetryAfter {
            wait_millis: RECONNECT_WAIT_MILLIS,
            attempts_made: (attempts_made + 1) as u32,
        }
    } else {
        ReconnectStep::GiveUp
    }
}

/// Number of attempts still made when reconnecting goes on from
/// `attempts_made` by the counts that `reconnect_step` returns.
pub open spec fn attempts_left(attempts_made: u32) -> nat
    decreases RECONNECT_ATTEMPTS - attempts_made,
{
    match reconnect_step_spec(attempts_made) {
        ReconnectStep::RetryAfter { attempts_made: next, .. } => 1 + attempts_left(next),
        ReconnectStep::GiveUp => 0,
    }
}

/// Reconnecting from no attempt, by the counts that `reconnect_step`
/// returns, makes exactly twelve attempts, each after a wait of five seconds,
/// and then gives up.
pub proof fn law_reconnect_makes_twelve_attempts()
    ensures
        attempts_left(0) == RECONNECT_ATTEMPTS,
        forall|k: u32| #[trigger] reconnect_step_spec(k) matches ReconnectStep::RetryAfter { wait_millis, .. }
            ==> wait_millis == RECONNECT_WAIT_MILLIS,
{
    lemma_attempts_left(0);
}

proof fn lemma_attempts_left(k: u32)
    requires
        k <= RECONNECT_ATTEMPTS,
    ensures
        attempts_left(k) == RECONNECT_ATTEMPTS - k,
    decreases RECONNECT_ATTEMPTS - k,
{
    if k < RECONNECT_ATTEMPTS {
        lemma_attempts_left((k + 1) as u32);
    }
}

/// Publishes events on the events channel.
pub struct EventPublisherMqtt {
    config: Config,
}

impl EventPublisherMqtt {
    pub closed spec fn spec_config(&self) -> Config {
        self.config
    }

    pub fn new(config: Config) -> (r: Self)
        ensures
            r.spec_config() == config,
    {
        EventPublisherMqtt { config }
    }

    /// A clean session with the broker of the configuration, logged in with
    /// the channel token and no fixed client identifier.
    pub fn session(&self) -> (r: MqttSession)
        ensures
            r.server_uri@ == self.spec_config().beebotte_mqtt_url@,
            r.client_id is None,
            r.user_name@ == self.spec_config().beebotte_channel_token@,
            r.keep_alive_secs == KEEP_ALIVE_SECS,
            r.clean_session,
    {
        MqttSession {
            server_uri: self.config.beebotte_mqtt_url.clone(),
            client_id: None,
            user_name: self.config.beebotte_channel_token.clone(),
            keep_alive_secs: KEEP_ALIVE_SECS,
            clean_session: true,
        }
    }

    /// The message that publishes the event of JSON text `event_json` on the
    /// events channel.
    pub fn message(&self, event_json: &str) -> (r: OutgoingMessage)
        ensures
            r.topic@ == self.spec_config().beebotte_events_channel@,
            r.payload@ == publish_body_spec(event_json@),
            r.qos == EVENTS_QOS,
    {
        let mut payload = String::from_str("{\"data\":");
        payload.append(to_json_string(event_json).as_str());
        payload.append(",\"write\":false}");
        OutgoingMessage {
            topic: self.config.beebotte_events_channel.clone(),
            payload,
            qos: EVENTS_QOS,
        }
    }
}

/// Receives events from the events channel.
pub struct EventReceiverMqtt {
    config: Config,
}

impl EventReceiverMqtt {
    pub closed spec fn spec_config(&self) -> Config {
        self.config
    }

    pub fn new(config: Config) -> (r: Self)
        ensures
            r.spec_config() == config,
    {
        EventReceiverMqtt { config }
    }

    /// A lasting session with the broker of the configuration, under the host
    /// name as client identifier, logged in with the channel token.
    pub fn session(&self) -> (r: MqttSession)
        ensures
            r.server_uri@ == self.spec_config().beebotte_mqtt_url@,
            r.client_id matches Some(id) && id@ == self.spec_config().name@,
            r.user_name@ == self.spec_config().beebotte_channel_token@,
            r.keep_alive_secs == KEEP_ALIVE_SECS,
            !r.clean_session,
    {
        MqttSession {
            server_uri: self.config.beebotte_mqtt_url.clone(),
            client_id: Some(self.config.name.clone()),
            user_name: self.config.beebotte_channel_token.clone(),
            keep_alive_secs: KEEP_ALIVE_SECS,
            clean_session: false,
        }
    }

    /// The subscription to the events channel.
    pub fn subscription(&self) -> (r: Subscription)
        ensures
            r.topic@ == self.spec_config().beebotte_events_channel@,
            r.qos == EVENTS_QOS,
    {
        Subscription { topic: self.config.beebotte_events_channel.clone(), qos: EVENTS_QOS }
    }

    /// Whether to subscribe after connecting, given what the broker answered
    /// about an earlier session (`None`: no answer): only when the broker
    /// answered that it kept no session.
    pub fn needs_subscription(session_present: Option<bool>) -> (r: bool)
        ensures
            r <==> session_present == Some(false),
    {
        match session_present {
            Some(present) => !present,
            None => false,
        }
    }

    /// What to do with one delivery of the message stream.
    pub fn on_delivery(delivery: Option<Option<Payload>>, connected: bool) -> (r: ReceiverAction)
        ensures
            r == receiver_action_spec(delivery, connected),
    {
        match delivery {
            Some(Some(p)) => ReceiverAction::Dispatch(p.data),
            Some(None) => ReceiverAction::Ignore,
            None => if connected {
                ReceiverAction::Stop
            } else {
                ReceiverAction::Reconnect
            },
        }
    }

    /// The next step of reconnecting after `attempts_made` failed attempts:
    /// wait and try again, with the count of attempts made once it is tried,
    /// twelve times at most, then give up.
    pub fn reconnect_step(attempts_made: u32) -> (r: ReconnectStep)
        ensures
            r == reconnect_step_spec(attempts_made),
    {
        if attempts_made < RECONNECT_ATTEMPTS {
            ReconnectStep::RetryAfter {
                wait_millis: RECONNECT_WAIT_MILLIS,
                attempts_made: attempts_made + 1,
            }
        } else {
            ReconnectStep::GiveUp
        }
    }
}

/// The receiver dispatches the data of every message that is a payload,
/// whatever the payload's other fields and the connection's state; it skips
/// the messages that are not payloads; on a lost connection it stops when the
/// client still reports itself connected and reconnects otherwise.
pub proof fn law_every_payload_is_dispatched(p: Payload, connected: bool)
    ensures
        receiver_action_spec(Some(Some(p)), connected) == ReceiverAction::Dispatch(p.data),
        receiver_action_spec(Some(None), connected) == ReceiverAction::Ignore,
        receiver_action_spec(None, true) == ReceiverAction::Stop,
        receiver_action_spec(None, false) == ReceiverAction::Reconnect,
{
}

} // verus!
