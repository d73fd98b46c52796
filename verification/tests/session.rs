use std::collections::VecDeque;

use mqtt_session::error::SessionError;
use mqtt_session::message::{DeliveryEvent, Message};
use mqtt_session::options::{ConnectionOptions, Settings, TlsMaterial, DEFAULT_KEEP_ALIVE_SECS};
use mqtt_session::qos::QoS;
use mqtt_session::registry::{Subscription, SubscriptionRegistry};
use mqtt_session::retry::{ReconnectPolicy, RetryDecision};
use mqtt_session::session::{Command, Event, Outcome, Phase, Session, SessionState};

fn text(s: &str) -> String {
    s.to_string()
}

fn entry(s: &str, qos: QoS) -> Subscription {
    Subscription { topic: text(s), qos }
}

fn msg(topic: &str, body: &str) -> Message {
    Message::new(text(topic), body.as_bytes().to_vec(), QoS::AtLeastOnce)
}

fn options() -> ConnectionOptions {
    ConnectionOptions {
        server_uri: text("ssl://broker.example:8883"),
        client_id: text("rust_subscribe"),
        keep_alive_secs: 20,
        clean_session: false,
        last_will: Some(Message::new(
            text("test"),
            b"Consumer lost connection".to_vec(),
            QoS::AtMostOnce,
        )),
        tls: TlsMaterial {
            trust_store: text("ca.pem"),
            key_store: text("cert.pem"),
            private_key: text("key.pem"),
        },
    }
}

fn two_topics() -> SubscriptionRegistry {
    let mut r = SubscriptionRegistry::new();
    r.add(text("rust/mqtt"), QoS::AtMostOnce);
    r.add(text("rust/test"), QoS::AtLeastOnce);
    r
}

fn session(max_attempts: u32) -> Session {
    Session::new(options(), two_topics(), ReconnectPolicy::new(max_attempts, 5000))
}

/// A transport whose calls end as scripted and which writes down every call.
struct FakeClient {
    connect_ok: bool,
    subscribe: VecDeque<bool>,
    reconnect: VecDeque<bool>,
    reconnect_default: bool,
    failing_unsubscribes: Vec<String>,
    disconnect_ok: bool,
    stream: VecDeque<Option<Message>>,
    calls: Vec<String>,
    sink: Vec<Message>,
}

impl FakeClient {
    fn new(stream: Vec<Option<Message>>) -> FakeClient {
        FakeClient {
            connect_ok: true,
            subscribe: VecDeque::new(),
            reconnect: VecDeque::new(),
            reconnect_default: true,
            failing_unsubscribes: Vec::new(),
            disconnect_ok: true,
            stream: stream.into(),
            calls: Vec::new(),
            sink: Vec::new(),
        }
    }

    fn count(&self, prefix: &str) -> usize {
        self.calls.iter().filter(|c| c.starts_with(prefix)).count()
    }

    fn perform(&mut self, command: Command) -> Result<Event, Outcome> {
        Ok(match command {
            Command::Connect => {
                self.calls.push(text("connect"));
                Event::ConnectResult(self.connect_ok)
            }
            Command::SubscribeMany(entries) => {
                let topics: Vec<String> =
                    entries.iter().map(|e| format!("{}@{}", e.topic, e.qos.level())).collect();
                self.calls.push(format!("subscribe {}", topics.join(",")));
                Event::SubscribeResult(self.subscribe.pop_front().unwrap_or(true))
            }
            Command::Receive => match self.stream.pop_front() {
                Some(item) => Event::Delivery(DeliveryEvent::from_option(item)),
                None => Event::StreamClosed,
            },
            Command::Deliver(m) => {
                self.sink.push(m);
                Event::Handled
            }
            Command::Sleep(ms) => {
                self.calls.push(format!("sleep {}", ms));
                Event::DelayElapsed
            }
            Command::Reconnect => {
                self.calls.push(text("reconnect"));
                Event::ReconnectResult(self.reconnect.pop_front().unwrap_or(self.reconnect_default))
            }
            Command::Unsubscribe(t) => {
                self.calls.push(format!("unsubscribe {}", t));
                Event::UnsubscribeResult(!self.failing_unsubscribes.contains(&t))
            }
            Command::Disconnect => {
                self.calls.push(text("disconnect"));
                Event::DisconnectResult(self.disconnect_ok)
            }
            Command::Finish(outcome) => return Err(outcome),
        })
    }
}

/// Runs the session against the fake transport until it is over.
fn drive(session: &mut Session, client: &mut FakeClient) -> Outcome {
    let mut event = Event::Start;
    loop {
        let command = match session.step(event) {
            Some(c) => c,
            None => panic!("the session did not take the event"),
        };
        event = match client.perform(command) {
            Ok(e) => e,
            Err(outcome) => return outcome,
        };
    }
}

/// Brings a fresh session to the point where it waits for a delivery.
fn consuming(max_attempts: u32) -> Session {
    let mut s = session(max_attempts);
    assert_eq!(s.step(Event::Start), Some(Command::Connect));
    assert!(matches!(s.step(Event::ConnectResult(true)), Some(Command::SubscribeMany(_))));
    assert_eq!(s.step(Event::SubscribeResult(true)), Some(Command::Receive));
    s
}

#[test]
fn new_session_is_disconnected() {
    let s = session(12);
    assert_eq!(s.state(), SessionState::Disconnected);
    assert_eq!(s.phase(), Phase::Idle);
    assert_eq!(s.outcome(), None);
    assert_eq!(s.attempts(), 0);
    assert_eq!(*s.options(), options());
    assert_eq!(s.policy(), ReconnectPolicy::new(12, 5000));
    assert_eq!(s.registry().len(), 2);
}

#[test]
fn start_connects_then_subscribes_then_receives() {
    let mut s = session(12);
    assert_eq!(s.step(Event::Start), Some(Command::Connect));
    assert_eq!(s.state(), SessionState::Connecting);
    assert_eq!(
        s.step(Event::ConnectResult(true)),
        Some(Command::SubscribeMany(vec![
            entry("rust/mqtt", QoS::AtMostOnce),
            entry("rust/test", QoS::AtLeastOnce),
        ]))
    );
    assert_eq!(s.state(), SessionState::Connected);
    assert_eq!(s.step(Event::SubscribeResult(true)), Some(Command::Receive));
    assert_eq!(s.state(), SessionState::Connected);
    assert_eq!(s.phase(), Phase::Receiving);
}

#[test]
fn connect_failure_terminates_without_retry() {
    let mut s = session(12);
    let mut c = FakeClient::new(vec![]);
    c.connect_ok = false;
    assert_eq!(drive(&mut s, &mut c), Outcome::Failed(SessionError::Connect));
    assert_eq!(c.calls, vec![text("connect")]);
    assert_eq!(s.state(), SessionState::Terminated);
    assert_eq!(s.outcome(), Some(Outcome::Failed(SessionError::Connect)));
}

#[test]
fn initial_subscribe_failure_is_fatal() {
    let mut s = session(12);
    let mut c = FakeClient::new(vec![Some(msg("rust/mqtt", "never seen"))]);
    c.subscribe.push_back(false);
    assert_eq!(drive(&mut s, &mut c), Outcome::Failed(SessionError::Subscribe));
    assert_eq!(c.calls, vec![text("connect"), text("subscribe rust/mqtt@0,rust/test@1")]);
    assert!(c.sink.is_empty());
    assert_eq!(s.state(), SessionState::Terminated);
}

#[test]
fn messages_reach_the_sink_in_stream_order() {
    let mut s = session(12);
    let stream = vec![
        Some(msg("rust/mqtt", "one")),
        Some(msg("rust/test", "two")),
        None,
        Some(msg("rust/mqtt", "three")),
        None,
        None,
        Some(msg("rust/test", "four")),
    ];
    let mut c = FakeClient::new(stream);
    assert_eq!(drive(&mut s, &mut c), Outcome::Completed);
    assert_eq!(
        c.sink,
        vec![
            msg("rust/mqtt", "one"),
            msg("rust/test", "two"),
            msg("rust/mqtt", "three"),
            msg("rust/test", "four"),
        ]
    );
    assert_eq!(c.count("reconnect"), 3);
}

#[test]
fn next_item_is_not_pulled_before_the_message_is_handled() {
    let mut s = consuming(12);
    let m = msg("rust/mqtt", "one");
    assert_eq!(
        s.step(Event::Delivery(DeliveryEvent::Message(m.clone()))),
        Some(Command::Deliver(m.clone()))
    );
    assert_eq!(s.phase(), Phase::Handling);
    assert_eq!(s.state(), SessionState::Connected);
    assert_eq!(s.step(Event::Delivery(DeliveryEvent::Message(m.clone()))), None);
    assert_eq!(s.step(Event::Delivery(DeliveryEvent::ConnectionLost)), None);
    assert_eq!(s.step(Event::Shutdown), None);
    assert_eq!(s.phase(), Phase::Handling);
    assert_eq!(s.step(Event::Handled), Some(Command::Receive));
    assert_eq!(s.phase(), Phase::Receiving);
}

#[test]
fn recovers_after_three_failed_reconnects_and_resubscribes() {
    let mut s = session(12);
    let stream = vec![Some(msg("rust/mqtt", "before")), None, Some(msg("rust/mqtt", "after"))];
    let mut c = FakeClient::new(stream);
    c.reconnect = vec![false, false, false, true].into();
    assert_eq!(drive(&mut s, &mut c), Outcome::Completed);
    let subscribe = text("subscribe rust/mqtt@0,rust/test@1");
    assert_eq!(
        c.calls,
        vec![
            text("connect"),
            subscribe.clone(),
            text("sleep 5000"),
            text("reconnect"),
            text("sleep 5000"),
            text("reconnect"),
            text("sleep 5000"),
            text("reconnect"),
            text("sleep 5000"),
            text("reconnect"),
            subscribe,
            text("unsubscribe rust/mqtt"),
            text("unsubscribe rust/test"),
            text("disconnect"),
        ]
    );
    assert_eq!(c.sink, vec![msg("rust/mqtt", "before"), msg("rust/mqtt", "after")]);
}

#[test]
fn subscription_added_while_recovering_is_restored() {
    let mut s = consuming(12);
    assert_eq!(s.step(Event::Delivery(DeliveryEvent::ConnectionLost)), Some(Command::Sleep(5000)));
    assert_eq!(s.state(), SessionState::Recovering);
    assert_eq!(s.step(Event::DelayElapsed), Some(Command::Reconnect));
    assert_eq!(s.step(Event::ReconnectResult(false)), Some(Command::Sleep(5000)));
    assert_eq!(s.subscribe(text("rust/late"), QoS::ExactlyOnce), None);
    assert_eq!(s.subscribe(text("rust/mqtt"), QoS::ExactlyOnce), None);
    assert_eq!(s.step(Event::DelayElapsed), Some(Command::Reconnect));
    assert_eq!(s.attempts(), 2);
    assert_eq!(
        s.step(Event::ReconnectResult(true)),
        Some(Command::SubscribeMany(vec![
            entry("rust/mqtt", QoS::ExactlyOnce),
            entry("rust/test", QoS::AtLeastOnce),
            entry("rust/late", QoS::ExactlyOnce),
        ]))
    );
    assert_eq!(s.state(), SessionState::Recovering);
    assert_eq!(s.step(Event::SubscribeResult(true)), Some(Command::Receive));
    assert_eq!(s.state(), SessionState::Connected);
}

#[test]
fn gives_up_after_exactly_the_allowed_attempts() {
    let mut s = session(12);
    let mut c = FakeClient::new(vec![None, Some(msg("rust/mqtt", "never seen"))]);
    c.reconnect_default = false;
    assert_eq!(drive(&mut s, &mut c), Outcome::Failed(SessionError::RecoveryExhausted));
    assert_eq!(c.count("reconnect"), 12);
    assert_eq!(c.count("sleep 5000"), 12);
    let recovery: Vec<String> = c.calls[2..].to_vec();
    let mut expected: Vec<String> = Vec::new();
    for _ in 0..12 {
        expected.push(text("sleep 5000"));
        expected.push(text("reconnect"));
    }
    assert_eq!(recovery, expected);
    assert!(c.sink.is_empty());
    assert_eq!(s.state(), SessionState::Terminated);
    assert_eq!(s.attempts(), 12);
    assert_eq!(s.step(Event::DelayElapsed), None);
    assert_eq!(s.step(Event::ReconnectResult(false)), None);
    assert_eq!(s.step(Event::Start), None);
    assert_eq!(s.state(), SessionState::Terminated);
}

#[test]
fn a_policy_without_attempts_gives_up_at_once() {
    let mut s = consuming(0);
    assert_eq!(
        s.step(Event::Delivery(DeliveryEvent::ConnectionLost)),
        Some(Command::Finish(Outcome::Failed(SessionError::RecoveryExhausted)))
    );
    assert_eq!(s.state(), SessionState::Terminated);
}

#[test]
fn attempts_are_counted_anew_for_each_loss() {
    let mut s = session(2);
    let mut c = FakeClient::new(vec![None, None, None]);
    c.reconnect = vec![false, true, false, true, false, true].into();
    assert_eq!(drive(&mut s, &mut c), Outcome::Completed);
    assert_eq!(c.count("reconnect"), 6);
}

#[test]
fn failed_resubscription_ends_the_session_as_unrecovered() {
    let mut s = session(12);
    let mut c = FakeClient::new(vec![None, Some(msg("rust/mqtt", "never seen"))]);
    c.subscribe = vec![true, false].into();
    assert_eq!(drive(&mut s, &mut c), Outcome::Failed(SessionError::RecoveryExhausted));
    assert_eq!(c.count("reconnect"), 1);
    assert_eq!(c.count("subscribe"), 2);
    assert!(c.sink.is_empty());
}

#[test]
fn failed_operation_starts_recovery_only_when_disconnected() {
    let mut s = consuming(12);
    assert_eq!(s.step(Event::OperationFailed(true)), Some(Command::Receive));
    assert_eq!(s.state(), SessionState::Connected);
    assert_eq!(s.step(Event::OperationFailed(false)), Some(Command::Sleep(5000)));
    assert_eq!(s.state(), SessionState::Recovering);
    assert_eq!(s.step(Event::OperationFailed(false)), None);
}

#[test]
fn shutdown_unsubscribes_every_entry_then_disconnects_once() {
    let mut s = session(12);
    let mut c = FakeClient::new(vec![Some(msg("rust/mqtt", "one"))]);
    c.failing_unsubscribes = vec![text("rust/mqtt")];
    assert_eq!(drive(&mut s, &mut c), Outcome::Completed);
    assert_eq!(
        c.calls[2..].to_vec(),
        vec![text("unsubscribe rust/mqtt"), text("unsubscribe rust/test"), text("disconnect")]
    );
    assert_eq!(c.count("disconnect"), 1);
    assert_eq!(s.state(), SessionState::Terminated);
    assert_eq!(s.outcome(), Some(Outcome::Completed));
}

#[test]
fn shutdown_request_walks_through_shutting_down() {
    let mut s = consuming(12);
    assert_eq!(s.step(Event::Shutdown), Some(Command::Unsubscribe(text("rust/mqtt"))));
    assert_eq!(s.state(), SessionState::ShuttingDown);
    assert_eq!(s.step(Event::Shutdown), None);
    assert_eq!(s.step(Event::UnsubscribeResult(false)), Some(Command::Unsubscribe(text("rust/test"))));
    assert_eq!(s.step(Event::UnsubscribeResult(false)), Some(Command::Disconnect));
    assert_eq!(s.state(), SessionState::ShuttingDown);
    assert_eq!(s.step(Event::UnsubscribeResult(true)), None);
    assert_eq!(s.step(Event::DisconnectResult(true)), Some(Command::Finish(Outcome::Completed)));
    assert_eq!(s.state(), SessionState::Terminated);
}

#[test]
fn shutdown_with_an_empty_registry_only_disconnects() {
    let mut s = Session::new(options(), SubscriptionRegistry::new(), ReconnectPolicy::default());
    let mut c = FakeClient::new(vec![]);
    assert_eq!(drive(&mut s, &mut c), Outcome::Completed);
    assert_eq!(c.calls, vec![text("connect"), text("subscribe "), text("disconnect")]);
}

#[test]
fn failed_disconnect_is_only_a_warning() {
    let mut s = session(12);
    let mut c = FakeClient::new(vec![]);
    c.disconnect_ok = false;
    let outcome = drive(&mut s, &mut c);
    assert_eq!(outcome, Outcome::CompletedWithWarning);
    assert!(outcome.is_graceful());
    assert_eq!(outcome.error(), Some(SessionError::Shutdown));
    assert_eq!(c.count("disconnect"), 1);
}

#[test]
fn shutdown_while_recovering_ends_without_touching_the_transport() {
    let mut s = consuming(12);
    assert_eq!(s.step(Event::Delivery(DeliveryEvent::ConnectionLost)), Some(Command::Sleep(5000)));
    assert_eq!(s.step(Event::Shutdown), Some(Command::Finish(Outcome::Completed)));
    assert_eq!(s.state(), SessionState::Terminated);
}

#[test]
fn shutdown_before_start_is_a_no_op() {
    let mut s = session(12);
    assert_eq!(s.step(Event::Shutdown), None);
    assert_eq!(s.state(), SessionState::Disconnected);
    assert_eq!(s.outcome(), None);
    assert_eq!(s.step(Event::Start), Some(Command::Connect));
}

#[test]
fn shutdown_after_the_end_is_a_no_op() {
    let mut s = session(12);
    let mut c = FakeClient::new(vec![]);
    assert_eq!(drive(&mut s, &mut c), Outcome::Completed);
    let calls = c.calls.len();
    assert_eq!(s.step(Event::Shutdown), None);
    assert_eq!(s.step(Event::Shutdown), None);
    assert_eq!(s.state(), SessionState::Terminated);
    assert_eq!(s.outcome(), Some(Outcome::Completed));
    assert_eq!(c.calls.len(), calls);
}

#[test]
fn subscribe_many_with_mismatched_lists_is_refused() {
    let mut s = consuming(12);
    let topics = vec![text("a"), text("b")];
    let levels = vec![QoS::AtMostOnce];
    assert_eq!(s.subscribe_many(&topics, &levels), Err(SessionError::Config));
    assert_eq!(s.registry().len(), 2);
    assert!(!s.registry().contains(&text("a")));
    assert_eq!(s.phase(), Phase::Receiving);
}

#[test]
fn subscribe_many_goes_out_at_once_while_connected() {
    let mut s = consuming(12);
    let topics = vec![text("a"), text("rust/test")];
    let levels = vec![QoS::AtMostOnce, QoS::ExactlyOnce];
    assert_eq!(
        s.subscribe_many(&topics, &levels),
        Ok(Some(Command::SubscribeMany(vec![
            entry("a", QoS::AtMostOnce),
            entry("rust/test", QoS::ExactlyOnce),
        ])))
    );
    assert_eq!(
        s.registry().snapshot(),
        vec![
            entry("rust/mqtt", QoS::AtMostOnce),
            entry("rust/test", QoS::ExactlyOnce),
            entry("a", QoS::AtMostOnce),
        ]
    );
    assert_eq!(s.subscribe_many(&Vec::new(), &Vec::new()), Ok(None));
}

#[test]
fn subscribe_before_connecting_waits_for_the_first_batch() {
    let mut s = session(12);
    assert_eq!(s.subscribe(text("early"), QoS::AtLeastOnce), None);
    assert_eq!(s.subscribe_many(&vec![text("too")], &vec![QoS::AtMostOnce]), Ok(None));
    assert_eq!(s.step(Event::Start), Some(Command::Connect));
    assert_eq!(
        s.step(Event::ConnectResult(true)),
        Some(Command::SubscribeMany(vec![
            entry("rust/mqtt", QoS::AtMostOnce),
            entry("rust/test", QoS::AtLeastOnce),
            entry("early", QoS::AtLeastOnce),
            entry("too", QoS::AtMostOnce),
        ]))
    );
}

#[test]
fn subscribe_while_connected_answers_with_the_request() {
    let mut s = consuming(12);
    assert_eq!(
        s.subscribe(text("new"), QoS::ExactlyOnce),
        Some(Command::SubscribeMany(vec![entry("new", QoS::ExactlyOnce)]))
    );
    assert_eq!(s.registry().qos_of(&text("new")), Some(QoS::ExactlyOnce));
}

#[test]
fn unsubscribe_answers_only_for_a_registered_topic_while_connected() {
    let mut s = consuming(12);
    assert_eq!(s.unsubscribe(&text("unknown")), None);
    assert_eq!(s.unsubscribe(&text("rust/mqtt")), Some(Command::Unsubscribe(text("rust/mqtt"))));
    assert_eq!(s.registry().snapshot(), vec![entry("rust/test", QoS::AtLeastOnce)]);
    assert_eq!(s.step(Event::Delivery(DeliveryEvent::ConnectionLost)), Some(Command::Sleep(5000)));
    assert_eq!(s.unsubscribe(&text("rust/test")), None);
    assert!(s.registry().is_empty());
}

#[test]
fn events_out_of_place_change_nothing() {
    let mut s = session(12);
    assert_eq!(s.step(Event::ConnectResult(true)), None);
    assert_eq!(s.step(Event::Handled), None);
    assert_eq!(s.step(Event::StreamClosed), None);
    assert_eq!(s.state(), SessionState::Disconnected);
    assert_eq!(s.step(Event::Start), Some(Command::Connect));
    assert_eq!(s.step(Event::Start), None);
    assert_eq!(s.step(Event::SubscribeResult(true)), None);
    assert_eq!(s.state(), SessionState::Connecting);
}

#[test]
fn every_phase_belongs_to_its_state() {
    assert_eq!(Phase::Idle.state(), SessionState::Disconnected);
    assert_eq!(Phase::Connecting.state(), SessionState::Connecting);
    assert_eq!(Phase::Subscribing.state(), SessionState::Connected);
    assert_eq!(Phase::Receiving.state(), SessionState::Connected);
    assert_eq!(Phase::Handling.state(), SessionState::Connected);
    assert_eq!(Phase::Delaying.state(), SessionState::Recovering);
    assert_eq!(Phase::Reconnecting.state(), SessionState::Recovering);
    assert_eq!(Phase::Resubscribing.state(), SessionState::Recovering);
    assert_eq!(Phase::Unsubscribing.state(), SessionState::ShuttingDown);
    assert_eq!(Phase::Disconnecting.state(), SessionState::ShuttingDown);
    assert_eq!(Phase::Done.state(), SessionState::Terminated);
}

#[test]
fn outcome_errors() {
    assert_eq!(Outcome::Completed.error(), None);
    assert!(Outcome::Completed.is_graceful());
    let failed = Outcome::Failed(SessionError::Connect);
    assert_eq!(failed.error(), Some(SessionError::Connect));
    assert!(!failed.is_graceful());
}

#[test]
fn default_policy_is_twelve_attempts_five_seconds_apart() {
    let p = ReconnectPolicy::default();
    assert_eq!(p.max_attempts, 12);
    assert_eq!(p.delay_ms, 5000);
    assert_eq!(p.decide(0), RetryDecision::Attempt(5000));
    assert_eq!(p.decide(11), RetryDecision::Attempt(5000));
    assert_eq!(p.decide(12), RetryDecision::GiveUp);
    assert_eq!(p.decide(u32::MAX), RetryDecision::GiveUp);
}

#[test]
fn delivery_event_from_option() {
    let m = msg("rust/mqtt", "x");
    assert_eq!(DeliveryEvent::from_option(Some(m.clone())), DeliveryEvent::Message(m.clone()));
    assert_eq!(DeliveryEvent::from_option(None), DeliveryEvent::ConnectionLost);
    assert_eq!(DeliveryEvent::Message(m.clone()).into_message(), Some(m));
    assert_eq!(DeliveryEvent::ConnectionLost.into_message(), None);
}

fn settings() -> Settings {
    Settings {
        server_uri: None,
        client_id: None,
        trust_store: Some(text("ca.pem")),
        key_store: Some(text("cert.pem")),
        private_key: Some(text("key.pem")),
        keep_alive_secs: None,
        clean_session: true,
        last_will: None,
    }
}

#[test]
fn settings_take_defaults_for_what_is_missing() {
    let o = ConnectionOptions::from_settings(settings(), "ssl://default:8883", "rust_publish");
    assert_eq!(
        o,
        Ok(ConnectionOptions {
            server_uri: text("ssl://default:8883"),
            client_id: text("rust_publish"),
            keep_alive_secs: 20,
            clean_session: true,
            last_will: None,
            tls: TlsMaterial {
                trust_store: text("ca.pem"),
                key_store: text("cert.pem"),
                private_key: text("key.pem"),
            },
        })
    );
    assert_eq!(DEFAULT_KEEP_ALIVE_SECS, 20);
}

#[test]
fn settings_keep_what_is_given() {
    let mut given = settings();
    given.server_uri = Some(text("ssl://mine:8883"));
    given.client_id = Some(text("me"));
    given.keep_alive_secs = Some(45);
    given.clean_session = false;
    given.last_will = Some(msg("test", "gone"));
    let o = ConnectionOptions::from_settings(given, "ssl://default:8883", "rust_publish");
    let o = match o {
        Ok(o) => o,
        Err(e) => panic!("unexpected error {:?}", e),
    };
    assert_eq!(o.server_uri, "ssl://mine:8883");
    assert_eq!(o.client_id, "me");
    assert_eq!(o.keep_alive_secs, 45);
    assert!(!o.clean_session);
    assert_eq!(o.last_will, Some(msg("test", "gone")));
}

#[test]
fn missing_transport_material_is_a_configuration_error() {
    let mut a = settings();
    a.trust_store = None;
    assert_eq!(ConnectionOptions::from_settings(a, "u", "c"), Err(SessionError::Config));
    let mut b = settings();
    b.key_store = None;
    assert_eq!(ConnectionOptions::from_settings(b, "u", "c"), Err(SessionError::Config));
    let mut c = settings();
    c.private_key = None;
    assert_eq!(ConnectionOptions::from_settings(c, "u", "c"), Err(SessionError::Config));
}
