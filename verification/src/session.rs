//! The session lifecycle: connect, consume, recover, shut down.
//!
//! The session is a state machine. A driver performs the command the session
//! hands out and reports what came of it as the next event; the session
//! answers with the next command. The session alone decides what happens
//! next, and the driver alone touches the transport.

use crate::error::SessionError;
use crate::message::{DeliveryEvent, DeliveryEventView, Message, MessageView};
use crate::options::{ConnectionOptions, ConnectionOptionsView};
use crate::qos::QoS;
use crate::registry::{
    distinct_topics, has_topic, paired, subscriptions_from, texts, topics_of, views,
    with_entries, with_entry, without_topic, Subscription, SubscriptionRegistry,
    SubscriptionView,
};
use crate::retry::{ReconnectPolicy, RetryDecision};
use vstd::prelude::*;

verus! {

/// The state of a session as the outside sees it.
#[derive(Clone, Copy, Debug, PartialEq, Eq, Structural)]
pub enum SessionState {
    Disconnected,
    Connecting,
    Connected,
    Recovering,
    ShuttingDown,
    Terminated,
}

/// What the session is waiting for. Each phase belongs to one
/// [`SessionState`].
#[derive(Clone, Copy, Debug, PartialEq, Eq, Structural)]
pub enum Phase {
    /// Not started yet.
    Idle,
    /// The first connection attempt is under way.
    Connecting,
    /// The first subscription request is under way.
    Subscribing,
    /// Waiting for the next item of the delivery stream.
    Receiving,
    /// The application is handling a delivered message.
    Handling,
    /// Pausing before a reconnect attempt.
    Delaying,
    /// A reconnect attempt is under way.
    Reconnecting,
    /// The subscriptions are being restored after a reconnect.
    Resubscribing,
    /// An unsubscribe request of the shutdown is under way.
    Unsubscribing,
    /// The disconnect request of the shutdown is under way.
    Disconnecting,
    /// The session is over.
    Done,
}

impl Phase {
    /// The state this phase belongs to.
    pub open spec fn spec_state(self) -> SessionState {
        match self {
            Phase::Idle => SessionState::Disconnected,
            Phase::Connecting => SessionState::Connecting,
            Phase::Subscribing | Phase::Receiving | Phase::Handling => SessionState::Connected,
            Phase::Delaying | Phase::Reconnecting | Phase::Resubscribing => SessionState::Recovering,
            Phase::Unsubscribing | Phase::Disconnecting => SessionState::ShuttingDown,
            Phase::Done => SessionState::Terminated,
        }
    }

    /// The state this phase belongs to.
    pub fn state(self) -> (s: SessionState)
        ensures
            s == self.spec_state(),
    {
        match self {
            Phase::Idle => SessionState::Disconnected,
            Phase::Connecting => SessionState::Connecting,
            Phase::Subscribing | Phase::Receiving | Phase::Handling => SessionState::Connected,
            Phase::Delaying | Phase::Reconnecting | Phase::Resubscribing => SessionState::Recovering,
            Phase::Unsubscribing | Phase::Disconnecting => SessionState::ShuttingDown,
            Phase::Done => SessionState::Terminated,
        }
    }
}

/// How a session ended.
#[derive(Clone, Copy, Debug, PartialEq, Eq, Structural)]
pub enum Outcome {
    /// The session shut down as requested.
    Completed,
    /// The session shut down as requested, but the disconnect request
    /// failed. This is a warning: the session is over all the same.
    CompletedWithWarning,
    /// The session ended on a fatal error.
    Failed(SessionError),
}

impl Outcome {
    /// The error to report for this outcome, if any. A failed disconnect is
    /// reported as a shutdown error.
    pub open spec fn spec_error(self) -> Option<SessionError> {
        match self {
            Outcome::Completed => None,
            Outcome::CompletedWithWarning => Some(SessionError::Shutdown),
            Outcome::Failed(e) => Some(e),
        }
    }

    /// The error to report for this outcome, if any.
    pub fn error(self) -> (e: Option<SessionError>)
        ensures
            e == self.spec_error(),
    {
        match self {
            Outcome::Completed => None,
            Outcome::CompletedWithWarning => Some(SessionError::Shutdown),
            Outcome::Failed(e) => Some(e),
        }
    }

    /// Whether the session ended by a requested shutdown and not on a fatal
    /// error.
    pub fn is_graceful(self) -> (b: bool)
        ensures
            b == !(self is Failed),
    {
        match self {
            Outcome::Failed(_) => false,
            _ => true,
        }
    }
}

/// What the driver reports to the session.
#[derive(Debug, PartialEq, Eq)]
pub enum Event {
    /// The session is asked to begin.
    Start,
    /// The connection attempt succeeded or failed.
    ConnectResult(bool),
    /// The subscription request succeeded or failed.
    SubscribeResult(bool),
    /// The delivery stream yielded an item.
    Delivery(DeliveryEvent),
    /// The delivery stream has ended.
    StreamClosed,
    /// The application has finished handling the delivered message.
    Handled,
    /// A publish or subscribe call made beside the consume loop failed. The
    /// flag says whether the transport still reports a connection.
    OperationFailed(bool),
    /// The pause before a reconnect attempt is over.
    DelayElapsed,
    /// The reconnect attempt succeeded or failed.
    ReconnectResult(bool),
    /// The unsubscribe request succeeded or failed.
    UnsubscribeResult(bool),
    /// The disconnect request succeeded or failed.
    DisconnectResult(bool),
    /// The session is asked to shut down. The request is taken between two
    /// pieces of work: while the session waits for a delivery, or while it
    /// pauses before a reconnect attempt.
    Shutdown,
}

/// The mathematical value of an [`Event`].
pub enum EventView {
    Start,
    ConnectResult(bool),
    SubscribeResult(bool),
    Delivery(DeliveryEventView),
    StreamClosed,
    Handled,
    OperationFailed(bool),
    DelayElapsed,
    ReconnectResult(bool),
    UnsubscribeResult(bool),
    DisconnectResult(bool),
    Shutdown,
}

impl View for Event {
    type V = EventView;

    open spec fn view(&self) -> EventView {
        match self {
            Event::Start => EventView::Start,
            Event::ConnectResult(ok) => EventView::ConnectResult(*ok),
            Event::SubscribeResult(ok) => EventView::SubscribeResult(*ok),
            Event::Delivery(d) => EventView::Delivery(d@),
            Event::StreamClosed => EventView::StreamClosed,
            Event::Handled => EventView::Handled,
            Event::OperationFailed(c) => EventView::OperationFailed(*c),
            Event::DelayElapsed => EventView::DelayElapsed,
            Event::ReconnectResult(ok) => EventView::ReconnectResult(*ok),
            Event::UnsubscribeResult(ok) => EventView::UnsubscribeResult(*ok),
            Event::DisconnectResult(ok) => EventView::DisconnectResult(*ok),
            Event::Shutdown => EventView::Shutdown,
        }
    }
}

/// What the session asks the driver to do next.
#[derive(Debug, PartialEq, Eq)]
pub enum Command {
    /// Connect with the session's options; report `ConnectResult`.
    Connect,
    /// Subscribe to these entries in one request; report `SubscribeResult`.
    SubscribeMany(Vec<Subscription>),
    /// Pull the next item of the delivery stream; report `Delivery` or
    /// `StreamClosed`.
    Receive,
    /// Hand this message to the application; report `Handled` when it is
    /// done with it.
    Deliver(Message),
    /// Pause for this many milliseconds; report `DelayElapsed`.
    Sleep(u64),
    /// Attempt to reconnect; report `ReconnectResult`.
    Reconnect,
    /// Unsubscribe from this topic; report `UnsubscribeResult`.
    Unsubscribe(String),
    /// Disconnect; report `DisconnectResult`.
    Disconnect,
    /// The session is over, with this outcome.
    Finish(Outcome),
}

/// The mathematical value of a [`Command`].
pub enum CommandView {
    Connect,
    SubscribeMany(Seq<SubscriptionView>),
    Receive,
    Deliver(MessageView),
    Sleep(u64),
    Reconnect,
    Unsubscribe(Seq<char>),
    Disconnect,
    Finish(Outcome),
}

impl View for Command {
    type V = CommandView;

    open spec fn view(&self) -> CommandView {
        match self {
            Command::Connect => CommandView::Connect,
            Command::SubscribeMany(v) => CommandView::SubscribeMany(views(v@)),
            Command::Receive => CommandView::Receive,
            Command::Deliver(m) => CommandView::Deliver(m@),
            Command::Sleep(ms) => CommandView::Sleep(*ms),
            Command::Reconnect => CommandView::Reconnect,
            Command::Unsubscribe(t) => CommandView::Unsubscribe(t@),
            Command::Disconnect => CommandView::Disconnect,
            Command::Finish(o) => CommandView::Finish(*o),
        }
    }
}

/// The value of an optional command.
pub open spec fn reply_view(r: Option<Command>) -> Option<CommandView> {
    match r {
        Some(c) => Some(c@),
        None => None,
    }
}

/// The mathematical value of a [`Session`].
pub struct SessionModel {
    pub phase: Phase,
    pub options: ConnectionOptionsView,
    /// The subscriptions that should be active, in registration order.
    pub registry: Seq<SubscriptionView>,
    pub policy: ReconnectPolicy,
    /// The reconnect attempts begun in the current recovery.
    pub attempts: nat,
    /// The topics that the shutdown unsubscribes from, in order.
    pub closing: Seq<Seq<char>>,
    /// The number of unsubscribe requests of the shutdown that were answered.
    pub cursor: nat,
    /// How the session ended, once it has.
    pub outcome: Option<Outcome>,
}

impl SessionModel {
    /// The invariant of a session.
    pub open spec fn wf(self) -> bool {
        &&& distinct_topics(self.registry)
        &&& self.attempts <= self.policy.max_attempts
        &&& self.phase == Phase::Delaying ==> self.attempts < self.policy.max_attempts
        &&& self.phase == Phase::Reconnecting ==> self.attempts >= 1
        &&& self.phase == Phase::Unsubscribing ==> self.cursor < self.closing.len()
        &&& self.phase == Phase::Done <==> self.outcome is Some
    }

    /// The state the session is in.
    pub open spec fn state(self) -> SessionState {
        self.phase.spec_state()
    }

    /// A session that has not started.
    pub open spec fn initial(
        options: ConnectionOptionsView,
        registry: Seq<SubscriptionView>,
        policy: ReconnectPolicy,
    ) -> SessionModel {
        SessionModel {
            phase: Phase::Idle,
            options,
            registry,
            policy,
            attempts: 0,
            closing: Seq::empty(),
            cursor: 0,
            outcome: None,
        }
    }

    /// The session ends with the given outcome.
    pub open spec fn finish(self, outcome: Outcome) -> (SessionModel, Option<CommandView>) {
        (
            SessionModel { phase: Phase::Done, outcome: Some(outcome), ..self },
            Some(CommandView::Finish(outcome)),
        )
    }

    /// The next move of a recovery after `self.attempts` failed attempts:
    /// pause for another attempt while the budget lasts, else give up for
    /// good.
    pub open spec fn recover(self) -> (SessionModel, Option<CommandView>) {
        match self.policy.spec_decide(self.attempts) {
            RetryDecision::Attempt(ms) => (
                SessionModel { phase: Phase::Delaying, ..self },
                Some(CommandView::Sleep(ms)),
            ),
            RetryDecision::GiveUp => self.finish(Outcome::Failed(SessionError::RecoveryExhausted)),
        }
    }

    /// The first move of a shutdown while connected: unsubscribe from the
    /// first registered topic, or disconnect at once where none is
    /// registered.
    pub open spec fn begin_shutdown(self) -> (SessionModel, Option<CommandView>) {
        let closing = topics_of(self.registry);
        if closing.len() > 0 {
            (
                SessionModel { phase: Phase::Unsubscribing, closing, cursor: 0, ..self },
                Some(CommandView::Unsubscribe(closing[0])),
            )
        } else {
            (
                SessionModel { phase: Phase::Disconnecting, closing, cursor: 0, ..self },
                Some(CommandView::Disconnect),
            )
        }
    }

    /// The session after a request to subscribe to the given entries, and
    /// the command for the driver: the request goes out at once while the
    /// session is connected, and otherwise waits for the next batch.
    pub open spec fn subscribe_many(self, topics: Seq<Seq<char>>, levels: Seq<QoS>) -> (
        SessionModel,
        Option<CommandView>,
    ) {
        (
            SessionModel { registry: with_entries(self.registry, topics, levels), ..self },
            if self.state() == SessionState::Connected && topics.len() > 0 {
                Some(CommandView::SubscribeMany(paired(topics, levels)))
            } else {
                None
            },
        )
    }

    /// The session after a request to drop the given topic, and the command
    /// for the driver: an unsubscribe request where the session is connected
    /// and the topic was registered.
    pub open spec fn unsubscribe(self, topic: Seq<char>) -> (SessionModel, Option<CommandView>) {
        (
            SessionModel { registry: without_topic(self.registry, topic), ..self },
            if self.state() == SessionState::Connected && has_topic(self.registry, topic) {
                Some(CommandView::Unsubscribe(topic))
            } else {
                None
            },
        )
    }

    /// The session after an event, and the command it answers with. `None`
    /// means that the event does not apply in the current phase: the session
    /// is then unchanged.
    pub open spec fn step(self, event: EventView) -> (SessionModel, Option<CommandView>) {
        match (self.phase, event) {
            (Phase::Idle, EventView::Start) => (
                SessionModel { phase: Phase::Connecting, ..self },
                Some(CommandView::Connect),
            ),
            (Phase::Connecting, EventView::ConnectResult(ok)) => if ok {
                (
                    SessionModel { phase: Phase::Subscribing, ..self },
                    Some(CommandView::SubscribeMany(self.registry)),
                )
            } else {
                self.finish(Outcome::Failed(SessionError::Connect))
            },
            (Phase::Subscribing, EventView::SubscribeResult(ok)) => if ok {
                (SessionModel { phase: Phase::Receiving, ..self }, Some(CommandView::Receive))
            } else {
                self.finish(Outcome::Failed(SessionError::Subscribe))
            },
            (Phase::Receiving, EventView::Delivery(DeliveryEventView::Message(m))) => (
                SessionModel { phase: Phase::Handling, ..self },
                Some(CommandView::Deliver(m)),
            ),
            (Phase::Receiving, EventView::Delivery(DeliveryEventView::ConnectionLost)) => (
                SessionModel { attempts: 0, ..self }
            ).recover(),
            (Phase::Receiving, EventView::OperationFailed(connected)) => if connected {
                (self, Some(CommandView::Receive))
            } else {
                (SessionModel { attempts: 0, ..self }).recover()
            },
            (Phase::Receiving, EventView::StreamClosed) => self.begin_shutdown(),
            (Phase::Receiving, EventView::Shutdown) => self.begin_shutdown(),
            (Phase::Handling, EventView::Handled) => (
                SessionModel { phase: Phase::Receiving, ..self },
                Some(CommandView::Receive),
            ),
            (Phase::Delaying, EventView::DelayElapsed) => (
                SessionModel { phase: Phase::Reconnecting, attempts: self.attempts + 1, ..self },
                Some(CommandView::Reconnect),
            ),
            (Phase::Delaying, EventView::Shutdown) => self.finish(Outcome::Completed),
            (Phase::Reconnecting, EventView::ReconnectResult(ok)) => if ok {
                (
                    SessionModel { phase: Phase::Resubscribing, ..self },
                    Some(CommandView::SubscribeMany(self.registry)),
                )
            } else {
                self.recover()
            },
            (Phase::Resubscribing, EventView::SubscribeResult(ok)) => if ok {
                (SessionModel { phase: Phase::Receiving, ..self }, Some(CommandView::Receive))
            } else {
                self.finish(Outcome::Failed(SessionError::RecoveryExhausted))
            },
            (Phase::Unsubscribing, EventView::UnsubscribeResult(_)) => {
                let cursor = self.cursor + 1;
                if cursor < self.closing.len() {
                    (
                        SessionModel { cursor, ..self },
                        Some(CommandView::Unsubscribe(self.closing[cursor as int])),
                    )
                } else {
                    (
                        SessionModel { phase: Phase::Disconnecting, cursor, ..self },
                        Some(CommandView::Disconnect),
                    )
                }
            },
            (Phase::Disconnecting, EventView::DisconnectResult(ok)) => self.finish(
                if ok {
                    Outcome::Completed
                } else {
                    Outcome::CompletedWithWarning
                },
            ),
            _ => (self, None),
        }
    }
}

/// A client session: its options, its subscriptions, its retry policy and
/// where it stands in its lifecycle.
pub struct Session {
    phase: Phase,
    options: ConnectionOptions,
    registry: SubscriptionRegistry,
    policy: ReconnectPolicy,
    attempts: u32,
    closing: Vec<String>,
    cursor: usize,
    outcome: Option<Outcome>,
}

impl View for Session {
    type V = SessionModel;

    closed spec fn view(&self) -> SessionModel {
        SessionModel {
            phase: self.phase,
            options: self.options@,
            registry: self.registry@,
            policy: self.policy,
            attempts: self.attempts as nat,
            closing: texts(self.closing@),
            cursor: self.cursor as nat,
            outcome: self.outcome,
        }
    }
}

impl Session {
    /// The invariant of a session.
    pub open spec fn wf(&self) -> bool {
        self@.wf()
    }

    /// A session that has not started, with the given options,
    /// subscriptions and retry policy.
    pub fn new(
        options: ConnectionOptions,
        registry: SubscriptionRegistry,
        policy: ReconnectPolicy,
    ) -> (s: Session)
        requires
            registry.wf(),
        ensures
            s.wf(),
            s@ == SessionModel::initial(options@, registry@, policy),
    {
        let s = Session {
            phase: Phase::Idle,
            options,
            registry,
            policy,
            attempts: 0,
            closing: Vec::new(),
            cursor: 0,
            outcome: None,
        };
        assert(texts(s.closing@) =~= Seq::empty());
        s
    }

    /// The state the session is in.
    pub fn state(&self) -> (s: SessionState)
        ensures
            s == self@.state(),
    {
        self.phase.state()
    }

    /// What the session is waiting for.
    pub fn phase(&self) -> (p: Phase)
        ensures
            p == self@.phase,
    {
        self.phase
    }

    /// The options the session connects with.
    pub fn options(&self) -> (o: &ConnectionOptions)
        ensures
            o@ == self@.options,
    {
        &self.options
    }

    /// The subscriptions that should be active.
    pub fn registry(&self) -> (r: &SubscriptionRegistry)
        ensures
            r@ == self@.registry,
    {
        &self.registry
    }

    /// The retry policy of the session.
    pub fn policy(&self) -> (p: ReconnectPolicy)
        ensures
            p == self@.policy,
    {
        self.policy
    }

    /// The reconnect attempts begun in the current recovery.
    pub fn attempts(&self) -> (n: u32)
        ensures
            n == self@.attempts,
    {
        self.attempts
    }

    /// How the session ended, once it has.
    pub fn outcome(&self) -> (o: Option<Outcome>)
        ensures
            o == self@.outcome,
    {
        self.outcome
    }

    fn finish(&mut self, outcome: Outcome) -> (r: Option<Command>)
        ensures
            final(self)@ == old(self)@.finish(outcome).0,
            reply_view(r) == old(self)@.finish(outcome).1,
    {
        self.phase = Phase::Done;
        self.outcome = Some(outcome);
        Some(Command::Finish(outcome))
    }

    fn recover(&mut self) -> (r: Option<Command>)
        ensures
            final(self)@ == old(self)@.recover().0,
            reply_view(r) == old(self)@.recover().1,
    {
        match self.policy.decide(self.attempts) {
            RetryDecision::Attempt(ms) => {
                self.phase = Phase::Delaying;
                Some(Command::Sleep(ms))
            },
            RetryDecision::GiveUp => self.finish(Outcome::Failed(SessionError::RecoveryExhausted)),
        }
    }

    fn begin_shutdown(&mut self) -> (r: Option<Command>)
        ensures
            final(self)@ == old(self)@.begin_shutdown().0,
            reply_view(r) == old(self)@.begin_shutdown().1,
    {
        self.closing = self.registry.topics();
        self.cursor = 0;
        if self.closing.len() > 0 {
            self.phase = Phase::Unsubscribing;
            Some(Command::Unsubscribe(self.closing[0].clone()))
        } else {
            self.phase = Phase::Disconnecting;
            Some(Command::Disconnect)
        }
    }

    /// Registers `topic` with `qos`. While the session is connected the
    /// answer is the subscribe request to send now; otherwise the entry goes
    /// out with the next batch.
    pub fn subscribe(&mut self, topic: String, qos: QoS) -> (r: Option<Command>)
        requires
            old(self).wf(),
        ensures
            final(self).wf(),
            final(self)@ == old(self)@.subscribe_many(seq![topic@], seq![qos]).0,
            reply_view(r) == old(self)@.subscribe_many(seq![topic@], seq![qos]).1,
    {
        let ghost e = SubscriptionView { topic: topic@, qos };
        proof {
            let ts = seq![topic@];
            let ls = seq![qos];
            assert(ts.drop_last() =~= Seq::<Seq<char>>::empty());
            assert(with_entries(self@.registry, ts.drop_last(), ls.drop_last()) == self@.registry);
            assert(with_entries(self@.registry, ts, ls) == with_entry(self@.registry, e));
        }
        let r = if self.phase.state() == SessionState::Connected {
            let mut v: Vec<Subscription> = Vec::new();
            v.push(Subscription { topic: topic.clone(), qos });
            assert(views(v@) =~= paired(seq![topic@], seq![qos]));
            Some(Command::SubscribeMany(v))
        } else {
            None
        };
        self.registry.add(topic, qos);
        r
    }

    /// Registers each topic of `topics` with the guarantee at the same place
    /// in `levels`. Lists of different lengths are a configuration error:
    /// nothing is registered and no request is issued. While the session is
    /// connected the answer is the subscribe request to send now.
    pub fn subscribe_many(&mut self, topics: &Vec<String>, levels: &Vec<QoS>) -> (r: Result<
        Option<Command>,
        SessionError,
    >)
        requires
            old(self).wf(),
        ensures
            final(self).wf(),
            topics.len() == levels.len() <==> r is Ok,
            r matches Err(e) ==> e == SessionError::Config && final(self)@ == old(self)@,
            r matches Ok(c) ==> {
                &&& final(self)@ == old(self)@.subscribe_many(texts(topics@), levels@).0
                &&& reply_view(c) == old(self)@.subscribe_many(texts(topics@), levels@).1
            },
    {
        let entries = match subscriptions_from(topics, levels) {
            Ok(entries) => entries,
            Err(e) => {
                return Err(e);
            },
        };
        match self.registry.add_many(topics, levels) {
            Ok(()) => {},
            Err(e) => {
                return Err(e);
            },
        }
        if self.phase.state() == SessionState::Connected && topics.len() > 0 {
            Ok(Some(Command::SubscribeMany(entries)))
        } else {
            Ok(None)
        }
    }

    /// Drops the subscription to `topic`. While the session is connected and
    /// the topic was registered, the answer is the unsubscribe request to
    /// send now.
    pub fn unsubscribe(&mut self, topic: &String) -> (r: Option<Command>)
        requires
            old(self).wf(),
        ensures
            final(self).wf(),
            final(self)@ == old(self)@.unsubscribe(topic@).0,
            reply_view(r) == old(self)@.unsubscribe(topic@).1,
    {
        let found = self.registry.remove(topic);
        if found && self.phase.state() == SessionState::Connected {
            Some(Command::Unsubscribe(topic.clone()))
        } else {
            None
        }
    }

    /// Takes in what the driver reports and answers with the next command.
    /// `None` means that the event does not apply in the current phase; the
    /// session is then unchanged.
    pub fn step(&mut self, event: Event) -> (r: Option<Command>)
        requires
            old(self).wf(),
        ensures
            final(self).wf(),
            final(self)@ == old(self)@.step(event@).0,
            reply_view(r) == old(self)@.step(event@).1,
    {
        proof {
            lemma_step_preserves(self@, event@);
        }
        match (self.phase, event) {
            (Phase::Idle, Event::Start) => {
                self.phase = Phase::Connecting;
                Some(Command::Connect)
            },
            (Phase::Connecting, Event::ConnectResult(ok)) => {
                if ok {
                    self.phase = Phase::Subscribing;
                    Some(Command::SubscribeMany(self.registry.snapshot()))
                } else {
                    self.finish(Outcome::Failed(SessionError::Connect))
                }
            },
            (Phase::Subscribing, Event::SubscribeResult(ok)) => {
                if ok {
                    self.phase = Phase::Receiving;
                    Some(Command::Receive)
                } else {
                    self.finish(Outcome::Failed(SessionError::Subscribe))
                }
            },
            (Phase::Receiving, Event::Delivery(DeliveryEvent::Message(m))) => {
                self.phase = Phase::Handling;
                Some(Command::Deliver(m))
            },
            (Phase::Receiving, Event::Delivery(DeliveryEvent::ConnectionLost)) => {
                self.attempts = 0;
                self.recover()
            },
            (Phase::Receiving, Event::OperationFailed(connected)) => {
                if connected {
                    Some(Command::Receive)
                } else {
                    self.attempts = 0;
                    self.recover()
                }
            },
            (Phase::Receiving, Event::StreamClosed) => self.begin_shutdown(),
            (Phase::Receiving, Event::Shutdown) => self.begin_shutdown(),
            (Phase::Handling, Event::Handled) => {
                self.phase = Phase::Receiving;
                Some(Command::Receive)
            },
            (Phase::Delaying, Event::DelayElapsed) => {
                self.phase = Phase::Reconnecting;
                self.attempts = self.attempts + 1;
                Some(Command::Reconnect)
            },
            (Phase::Delaying, Event::Shutdown) => self.finish(Outcome::Completed),
            (Phase::Reconnecting, Event::ReconnectResult(ok)) => {
                if ok {
                    self.phase = Phase::Resubscribing;
                    Some(Command::SubscribeMany(self.registry.snapshot()))
                } else {
                    self.recover()
                }
            },
            (Phase::Resubscribing, Event::SubscribeResult(ok)) => {
                if ok {
                    self.phase = Phase::Receiving;
                    Some(Command::Receive)
                } else {
                    self.finish(Outcome::Failed(SessionError::RecoveryExhausted))
                }
            },
            (Phase::Unsubscribing, Event::UnsubscribeResult(_)) => {
                let pending = self.closing.len();
                assert(self@.closing.len() == pending);
                self.cursor = self.cursor + 1;
                if self.cursor < pending {
                    Some(Command::Unsubscribe(self.closing[self.cursor].clone()))
                } else {
                    self.phase = Phase::Disconnecting;
                    Some(Command::Disconnect)
                }
            },
            (Phase::Disconnecting, Event::DisconnectResult(ok)) => {
                if ok {
                    self.finish(Outcome::Completed)
                } else {
                    self.finish(Outcome::CompletedWithWarning)
                }
            },
            _ => None,
        }
    }
}

/// A step keeps the invariant, the options, the policy and the registry.
pub proof fn lemma_step_preserves(m: SessionModel, event: EventView)
    requires
        m.wf(),
    ensures
        m.step(event).0.wf(),
        m.step(event).0.options == m.options,
        m.step(event).0.policy == m.policy,
        m.step(event).0.registry == m.registry,
        m.step(event).1 is None ==> m.step(event).0 == m,
{
}

} // verus!
