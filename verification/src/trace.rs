//! Whole runs of a session: what it does over a sequence of events.

use crate::error::SessionError;
use crate::message::{DeliveryEventView, MessageView};
use crate::qos::QoS;
use crate::registry::{lemma_with_entries_distinct, topics_of, with_entries};
use crate::session::{CommandView, EventView, Outcome, Phase, SessionModel, SessionState};
use vstd::prelude::*;

verus! {

impl SessionModel {
    /// The session after the given events, taken in order.
    pub open spec fn run(self, events: Seq<EventView>) -> SessionModel
        decreases events.len(),
    {
        if events.len() == 0 {
            self
        } else {
            self.run(events.drop_last()).step(events.last()).0
        }
    }

    /// The commands the session answers the given events with, in order.
    /// An event that does not apply adds none.
    pub open spec fn commands(self, events: Seq<EventView>) -> Seq<CommandView>
        decreases events.len(),
    {
        if events.len() == 0 {
            Seq::empty()
        } else {
            let before = self.commands(events.drop_last());
            match self.run(events.drop_last()).step(events.last()).1 {
                Some(c) => before.push(c),
                None => before,
            }
        }
    }

    /// Those of the given events that apply when they arrive, in order.
    pub open spec fn accepted(self, events: Seq<EventView>) -> Seq<EventView>
        decreases events.len(),
    {
        if events.len() == 0 {
            Seq::empty()
        } else {
            let before = self.accepted(events.drop_last());
            if self.run(events.drop_last()).step(events.last()).1 is Some {
                before.push(events.last())
            } else {
                before
            }
        }
    }
}

/// The messages that the given commands hand to the application, in order.
pub open spec fn delivered(commands: Seq<CommandView>) -> Seq<MessageView>
    decreases commands.len(),
{
    if commands.len() == 0 {
        Seq::empty()
    } else {
        let before = delivered(commands.drop_last());
        match commands.last() {
            CommandView::Deliver(m) => before.push(m),
            _ => before,
        }
    }
}

/// The messages that the delivery stream yielded among the given events, in
/// order. A notice of a lost connection is not a message.
pub open spec fn received(events: Seq<EventView>) -> Seq<MessageView>
    decreases events.len(),
{
    if events.len() == 0 {
        Seq::empty()
    } else {
        let before = received(events.drop_last());
        match events.last() {
            EventView::Delivery(DeliveryEventView::Message(m)) => before.push(m),
            _ => before,
        }
    }
}

/// Running one more event is one more step.
pub proof fn lemma_run_push(m: SessionModel, events: Seq<EventView>, e: EventView)
    ensures
        m.run(events.push(e)) == m.run(events).step(e).0,
        m.commands(events.push(e)) == match m.run(events).step(e).1 {
            Some(c) => m.commands(events).push(c),
            None => m.commands(events),
        },
{
    assert(events.push(e).drop_last() =~= events);
}

/// A run keeps the invariant, the options, the policy and the registry.
pub proof fn lemma_run_preserves(m: SessionModel, events: Seq<EventView>)
    requires
        m.wf(),
    ensures
        m.run(events).wf(),
        m.run(events).options == m.options,
        m.run(events).policy == m.policy,
        m.run(events).registry == m.registry,
    decreases events.len(),
{
    if events.len() > 0 {
        lemma_run_preserves(m, events.drop_last());
        crate::session::lemma_step_preserves(m.run(events.drop_last()), events.last());
    }
}

/// The application is handed exactly the messages that the delivery stream
/// yielded, in the order in which it yielded them: none is dropped, none is
/// repeated, none is reordered, and a lost connection never shows up as a
/// message. This holds of every sequence of events, from every state.
pub proof fn lemma_delivery_in_order(m: SessionModel, events: Seq<EventView>)
    ensures
        delivered(m.commands(events)) == received(m.accepted(events)),
    decreases events.len(),
{
    if events.len() > 0 {
        let front = events.drop_last();
        lemma_delivery_in_order(m, front);
        match m.run(front).step(events.last()).1 {
            Some(c) => {
                assert(m.commands(front).push(c).drop_last() =~= m.commands(front));
                assert(m.accepted(front).push(events.last()).drop_last() =~= m.accepted(front));
            },
            None => {},
        }
    }
}

/// Where every event applies when it arrives, the application is handed
/// exactly the messages among the events, in order.
pub proof fn lemma_delivery_in_order_all_applied(m: SessionModel, events: Seq<EventView>)
    requires
        m.accepted(events) == events,
    ensures
        delivered(m.commands(events)) == received(events),
{
    lemma_delivery_in_order(m, events);
}

/// A message is handed out only while the session is connected, and the
/// next item of the stream is asked for only once the application is done
/// with the message.
pub proof fn lemma_one_message_at_a_time(m: SessionModel, e: EventView)
    ensures
        m.step(e).1 matches Some(CommandView::Deliver(x)) ==> {
            &&& m.phase == Phase::Receiving
            &&& e == EventView::Delivery(DeliveryEventView::Message(x))
            &&& m.step(e).0.phase == Phase::Handling
        },
        m.phase == Phase::Handling ==> (m.step(e).1 is Some <==> e == EventView::Handled),
        m.phase == Phase::Handling && e == EventView::Handled ==> m.step(e).1 == Some(
            CommandView::Receive,
        ),
{
}

/// A subscribe request goes out only over a live connection. The session
/// issues one when a connect or a reconnect has just succeeded, and it then
/// asks for the whole registry. A request for more subscriptions is sent on
/// at once only while the session is connected.
pub proof fn lemma_subscribes_only_over_a_connection(
    m: SessionModel,
    e: EventView,
    topics: Seq<Seq<char>>,
    levels: Seq<QoS>,
)
    ensures
        m.step(e).1 matches Some(CommandView::SubscribeMany(entries)) ==> {
            &&& entries == m.registry
            &&& {
                ||| m.phase == Phase::Connecting && e == EventView::ConnectResult(true)
                    && m.step(e).0.state() == SessionState::Connected
                ||| m.phase == Phase::Reconnecting && e == EventView::ReconnectResult(true)
            }
        },
        m.subscribe_many(topics, levels).1 is Some ==> m.state() == SessionState::Connected,
{
}

/// A request to shut down a session that has not started or is already over
/// changes nothing and issues no command.
pub proof fn lemma_shutdown_is_idempotent(m: SessionModel)
    requires
        m.state() == SessionState::Disconnected || m.state() == SessionState::Terminated,
    ensures
        m.step(EventView::Shutdown) == (m, None::<CommandView>),
{
}

/// Once a session is over, no event changes it or draws a command from it.
pub proof fn lemma_terminated_is_final(m: SessionModel, events: Seq<EventView>)
    requires
        m.phase == Phase::Done,
    ensures
        m.run(events) == m,
        m.commands(events) == Seq::<CommandView>::empty(),
    decreases events.len(),
{
    if events.len() > 0 {
        lemma_terminated_is_final(m, events.drop_last());
    }
}

/// The events of `k` reconnect attempts that all fail: for each, the pause
/// ends and the attempt is reported as failed.
pub open spec fn failed_attempts(k: nat) -> Seq<EventView>
    decreases k,
{
    if k == 0 {
        Seq::empty()
    } else {
        failed_attempts((k - 1) as nat).push(EventView::DelayElapsed).push(
            EventView::ReconnectResult(false),
        )
    }
}

/// The commands of `k` reconnect attempts: each is a pause of `delay_ms`
/// milliseconds followed by the attempt.
pub open spec fn pauses_and_attempts(k: nat, delay_ms: u64) -> Seq<CommandView> {
    Seq::new(
        2 * k,
        |i: int|
            if i % 2 == 0 {
                CommandView::Sleep(delay_ms)
            } else {
                CommandView::Reconnect
            },
    )
}

/// The notice that the connection was lost.
pub open spec fn connection_lost() -> EventView {
    EventView::Delivery(DeliveryEventView::ConnectionLost)
}

/// After the connection is lost and `k` reconnect attempts have failed, the
/// session has paused before each attempt and has made exactly `k`
/// attempts. With budget left it is pausing before the next one; with the
/// budget spent it is over.
pub proof fn lemma_failed_attempts(m: SessionModel, k: nat)
    requires
        m.wf(),
        m.phase == Phase::Receiving,
        k <= m.policy.max_attempts,
    ensures
        ({
            let events = seq![connection_lost()] + failed_attempts(k);
            let gave_up = Outcome::Failed(SessionError::RecoveryExhausted);
            let before = pauses_and_attempts(k, m.policy.delay_ms);
            if k < m.policy.max_attempts {
                &&& m.run(events) == (SessionModel { phase: Phase::Delaying, attempts: k, ..m })
                &&& m.commands(events) == before.push(CommandView::Sleep(m.policy.delay_ms))
            } else {
                &&& m.run(events) == (SessionModel {
                    phase: Phase::Done,
                    attempts: k,
                    outcome: Some(gave_up),
                    ..m
                })
                &&& m.commands(events) == before.push(CommandView::Finish(gave_up))
            }
        }),
    decreases k,
{
    let d = m.policy.delay_ms;
    let lost = seq![connection_lost()];
    if k == 0 {
        assert(lost + failed_attempts(0) =~= Seq::<EventView>::empty().push(connection_lost()));
        lemma_run_push(m, Seq::empty(), connection_lost());
        assert(pauses_and_attempts(0, d) =~= Seq::<CommandView>::empty());
    } else {
        let j = (k - 1) as nat;
        lemma_failed_attempts(m, j);
        let front = lost + failed_attempts(j);
        let e1 = EventView::DelayElapsed;
        let e2 = EventView::ReconnectResult(false);
        assert(lost + failed_attempts(k) =~= front.push(e1).push(e2));
        lemma_run_push(m, front, e1);
        lemma_run_push(m, front.push(e1), e2);
        assert(pauses_and_attempts(j, d).push(CommandView::Sleep(d)).push(CommandView::Reconnect)
            =~= pauses_and_attempts(k, d));
    }
}

/// Where every reconnect attempt fails, the session makes exactly as many
/// attempts as the policy allows, each after the configured pause, and is
/// then terminated for good: whatever is reported afterwards, it makes no
/// further attempt and issues no further command.
pub proof fn lemma_gives_up_after_budget(m: SessionModel, later: Seq<EventView>)
    requires
        m.wf(),
        m.phase == Phase::Receiving,
    ensures
        ({
            let n = m.policy.max_attempts as nat;
            let events = seq![connection_lost()] + failed_attempts(n);
            let gave_up = Outcome::Failed(SessionError::RecoveryExhausted);
            &&& m.commands(events) == pauses_and_attempts(n, m.policy.delay_ms).push(
                CommandView::Finish(gave_up),
            )
            &&& m.run(events).state() == SessionState::Terminated
            &&& m.run(events).outcome == Some(gave_up)
            &&& m.run(events).run(later) == m.run(events)
            &&& m.run(events).commands(later) == Seq::<CommandView>::empty()
        }),
{
    let n = m.policy.max_attempts as nat;
    lemma_failed_attempts(m, n);
    lemma_terminated_is_final(m.run(seq![connection_lost()] + failed_attempts(n)), later);
}

/// Where `k` reconnect attempts fail and the next one succeeds, with `k`
/// below the budget, the session makes `k + 1` attempts, each after the
/// configured pause, asks for every registered subscription again, and
/// goes back to consuming once that request has succeeded.
pub proof fn lemma_recovers_after_failures(m: SessionModel, k: nat)
    requires
        m.wf(),
        m.phase == Phase::Receiving,
        k < m.policy.max_attempts,
    ensures
        ({
            let events = (seq![connection_lost()] + failed_attempts(k)).push(
                EventView::DelayElapsed,
            ).push(EventView::ReconnectResult(true)).push(EventView::SubscribeResult(true));
            &&& m.commands(events) == pauses_and_attempts(k + 1, m.policy.delay_ms).push(
                CommandView::SubscribeMany(m.registry),
            ).push(CommandView::Receive)
            &&& m.run(events) == (SessionModel { attempts: k + 1, ..m })
            &&& m.run(events).state() == SessionState::Connected
        }),
{
    let d = m.policy.delay_ms;
    lemma_failed_attempts(m, k);
    let front = seq![connection_lost()] + failed_attempts(k);
    let e1 = EventView::DelayElapsed;
    let e2 = EventView::ReconnectResult(true);
    let e3 = EventView::SubscribeResult(true);
    lemma_run_push(m, front, e1);
    lemma_run_push(m, front.push(e1), e2);
    lemma_run_push(m, front.push(e1).push(e2), e3);
    assert(pauses_and_attempts(k, d).push(CommandView::Sleep(d)).push(CommandView::Reconnect)
        =~= pauses_and_attempts(k + 1, d));
}

/// Subscriptions requested while the session recovers are not lost. They
/// draw no request while the connection is down, and the request that
/// follows the successful reconnect asks for the whole registry as it then
/// stands, the new entries included.
pub proof fn lemma_recovery_restores_registry(
    m: SessionModel,
    k: nat,
    topics: Seq<Seq<char>>,
    levels: Seq<QoS>,
)
    requires
        m.wf(),
        m.phase == Phase::Receiving,
        k < m.policy.max_attempts,
    ensures
        ({
            let lost = m.run(seq![connection_lost()] + failed_attempts(k));
            let grown = lost.subscribe_many(topics, levels).0;
            let registry = with_entries(m.registry, topics, levels);
            let rest = seq![EventView::DelayElapsed, EventView::ReconnectResult(true)];
            &&& lost.state() == SessionState::Recovering
            &&& lost.subscribe_many(topics, levels).1 is None
            &&& grown.wf()
            &&& grown.registry == registry
            &&& grown.commands(rest) == seq![
                CommandView::Reconnect,
                CommandView::SubscribeMany(registry),
            ]
            &&& grown.run(rest).step(EventView::SubscribeResult(true)).1 == Some(
                CommandView::Receive,
            )
            &&& grown.run(rest).step(EventView::SubscribeResult(true)).0.state()
                == SessionState::Connected
            &&& grown.run(rest).step(EventView::SubscribeResult(true)).0.registry == registry
        }),
{
    lemma_failed_attempts(m, k);
    lemma_with_entries_distinct(m.registry, topics, levels);
    let lost = m.run(seq![connection_lost()] + failed_attempts(k));
    let grown = lost.subscribe_many(topics, levels).0;
    let e1 = EventView::DelayElapsed;
    let e2 = EventView::ReconnectResult(true);
    assert(seq![e1, e2] =~= Seq::<EventView>::empty().push(e1).push(e2));
    lemma_run_push(grown, Seq::empty(), e1);
    lemma_run_push(grown, Seq::<EventView>::empty().push(e1), e2);
    assert(grown.commands(Seq::empty()) =~= Seq::<CommandView>::empty());
    assert(Seq::<CommandView>::empty().push(CommandView::Reconnect).push(
        CommandView::SubscribeMany(grown.registry),
    ) =~= seq![CommandView::Reconnect, CommandView::SubscribeMany(grown.registry)]);
}

/// The reports of unsubscribe requests that ended as given.
pub open spec fn unsubscribe_results(results: Seq<bool>) -> Seq<EventView> {
    results.map_values(|ok: bool| EventView::UnsubscribeResult(ok))
}

/// The unsubscribe requests for the given topics, in order.
pub open spec fn unsubscribes(topics: Seq<Seq<char>>) -> Seq<CommandView> {
    topics.map_values(|t: Seq<char>| CommandView::Unsubscribe(t))
}

/// Whether the event asks a consuming session to shut down: a request to
/// stop, or the end of the delivery stream.
pub open spec fn ends_consumption(e: EventView) -> bool {
    e == EventView::Shutdown || e == EventView::StreamClosed
}

/// The shutdown of a connected session after `j` unsubscribe requests were
/// answered, whatever the answers were.
pub proof fn lemma_shutdown_progress(m: SessionModel, trigger: EventView, results: Seq<bool>)
    requires
        m.wf(),
        m.phase == Phase::Receiving,
        ends_consumption(trigger),
        results.len() <= m.registry.len(),
    ensures
        ({
            let events = seq![trigger] + unsubscribe_results(results);
            let topics = topics_of(m.registry);
            let j = results.len();
            if j < topics.len() {
                &&& m.run(events) == (SessionModel {
                    phase: Phase::Unsubscribing,
                    closing: topics,
                    cursor: j,
                    ..m
                })
                &&& m.commands(events) == unsubscribes(topics.take(j as int + 1))
            } else {
                &&& m.run(events) == (SessionModel {
                    phase: Phase::Disconnecting,
                    closing: topics,
                    cursor: j,
                    ..m
                })
                &&& m.commands(events) == unsubscribes(topics).push(CommandView::Disconnect)
            }
        }),
    decreases results.len(),
{
    let topics = topics_of(m.registry);
    let j = results.len();
    if j == 0 {
        assert(seq![trigger] + unsubscribe_results(results) =~= Seq::<EventView>::empty().push(
            trigger,
        ));
        lemma_run_push(m, Seq::empty(), trigger);
        if topics.len() > 0 {
            assert(unsubscribes(topics.take(1)) =~= Seq::<CommandView>::empty().push(
                CommandView::Unsubscribe(topics[0]),
            ));
        } else {
            assert(unsubscribes(topics) =~= Seq::<CommandView>::empty());
        }
    } else {
        let earlier = results.drop_last();
        lemma_shutdown_progress(m, trigger, earlier);
        let front = seq![trigger] + unsubscribe_results(earlier);
        let e = EventView::UnsubscribeResult(results.last());
        assert(seq![trigger] + unsubscribe_results(results) =~= front.push(e));
        lemma_run_push(m, front, e);
        if j < topics.len() {
            assert(unsubscribes(topics.take(j as int)).push(CommandView::Unsubscribe(topics[j as int]))
                =~= unsubscribes(topics.take(j as int + 1)));
        } else {
            assert(topics.take(j as int) =~= topics);
        }
    }
}

/// A connected session that is asked to shut down sends one unsubscribe
/// request for every registered topic, in registration order and whether or
/// not earlier ones failed, then exactly one disconnect request, and is
/// then terminated. A failed disconnect leaves a warning and nothing more.
pub proof fn lemma_shutdown_unsubscribes_then_disconnects(
    m: SessionModel,
    trigger: EventView,
    results: Seq<bool>,
    disconnected: bool,
)
    requires
        m.wf(),
        m.phase == Phase::Receiving,
        ends_consumption(trigger),
        results.len() == m.registry.len(),
    ensures
        ({
            let events = (seq![trigger] + unsubscribe_results(results)).push(
                EventView::DisconnectResult(disconnected),
            );
            let outcome = if disconnected {
                Outcome::Completed
            } else {
                Outcome::CompletedWithWarning
            };
            &&& m.commands(events) == unsubscribes(topics_of(m.registry)).push(
                CommandView::Disconnect,
            ).push(CommandView::Finish(outcome))
            &&& m.run(events).state() == SessionState::Terminated
            &&& m.run(events).outcome == Some(outcome)
        }),
{
    lemma_shutdown_progress(m, trigger, results);
    lemma_run_push(
        m,
        seq![trigger] + unsubscribe_results(results),
        EventView::DisconnectResult(disconnected),
    );
}

} // verus!
