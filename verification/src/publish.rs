//! Publishing an ordered run of messages, one at a time.

use crate::error::SessionError;
use crate::message::{Message, MessageView};
use crate::qos::QoS;
use vstd::prelude::*;

verus! {

/// The mathematical value of a sequence of messages.
pub open spec fn message_views(v: Seq<Message>) -> Seq<MessageView> {
    v.map_values(|m: Message| m@)
}

/// The messages that carry the given payloads in order, on two topics in
/// turn: `even_topic` for the payloads at even places, counted from zero,
/// and `odd_topic` for the others.
pub open spec fn alternating(
    even_topic: Seq<char>,
    odd_topic: Seq<char>,
    payloads: Seq<Seq<u8>>,
    qos: QoS,
) -> Seq<MessageView> {
    Seq::new(
        payloads.len(),
        |i: int|
            MessageView {
                topic: if i % 2 == 0 {
                    even_topic
                } else {
                    odd_topic
                },
                payload: payloads[i],
                qos,
            },
    )
}

/// The byte sequences of a sequence of buffers.
pub open spec fn buffers(v: Seq<Vec<u8>>) -> Seq<Seq<u8>> {
    v.map_values(|b: Vec<u8>| b@)
}

/// Builds the messages that carry the given payloads in order, alternating
/// between two topics and starting with `even_topic`.
pub fn alternating_schedule(
    even_topic: &String,
    odd_topic: &String,
    payloads: &Vec<Vec<u8>>,
    qos: QoS,
) -> (v: Vec<Message>)
    ensures
        message_views(v@) == alternating(even_topic@, odd_topic@, buffers(payloads@), qos),
{
    let ghost want = alternating(even_topic@, odd_topic@, buffers(payloads@), qos);
    let mut v: Vec<Message> = Vec::new();
    let mut i: usize = 0;
    while i < payloads.len()
        invariant
            i <= payloads.len(),
            v@.len() == i,
            want == alternating(even_topic@, odd_topic@, buffers(payloads@), qos),
            forall|j: int| 0 <= j < i ==> (#[trigger] v@[j])@ == want[j],
        decreases payloads.len() - i,
    {
        let topic = if i % 2 == 0 {
            even_topic.clone()
        } else {
            odd_topic.clone()
        };
        v.push(Message { topic, payload: payloads[i].clone(), qos });
        i += 1;
    }
    assert(message_views(v@) =~= want);
    v
}

/// The mathematical value of a [`PublishSequencer`].
pub struct PublishModel {
    /// The scheduled messages, in order.
    pub queue: Seq<MessageView>,
    /// The number of messages whose publish call succeeded.
    pub confirmed: nat,
    /// Whether a publish call is under way.
    pub in_flight: bool,
    /// Whether a publish call has failed.
    pub failed: bool,
}

impl PublishModel {
    /// The invariant of a sequencer.
    pub open spec fn wf(self) -> bool {
        &&& self.confirmed <= self.queue.len()
        &&& self.in_flight ==> !self.failed
        &&& self.in_flight || self.failed ==> self.confirmed < self.queue.len()
    }

    /// A sequencer that has issued nothing yet.
    pub open spec fn initial(queue: Seq<MessageView>) -> PublishModel {
        PublishModel { queue, confirmed: 0, in_flight: false, failed: false }
    }

    /// Whether a message can be issued now: none is under way, none has
    /// failed, and one is left.
    pub open spec fn ready(self) -> bool {
        !self.in_flight && !self.failed && self.confirmed < self.queue.len()
    }

    /// The number of publish calls issued so far.
    pub open spec fn attempted(self) -> nat {
        if self.in_flight || self.failed {
            self.confirmed + 1
        } else {
            self.confirmed
        }
    }

    /// Whether every scheduled message was confirmed.
    pub open spec fn finished(self) -> bool {
        self.confirmed == self.queue.len()
    }

    /// The sequencer after it was asked for the next message, and the
    /// message it issued, if any.
    pub open spec fn next(self) -> (PublishModel, Option<MessageView>) {
        if self.ready() {
            (PublishModel { in_flight: true, ..self }, Some(self.queue[self.confirmed as int]))
        } else {
            (self, None)
        }
    }

    /// The sequencer after the result of the call under way was recorded.
    /// Without a call under way nothing changes.
    pub open spec fn record(self, ok: bool) -> PublishModel {
        if !self.in_flight {
            self
        } else if ok {
            PublishModel { confirmed: self.confirmed + 1, in_flight: false, ..self }
        } else {
            PublishModel { in_flight: false, failed: true, ..self }
        }
    }
}

/// The number of outcomes before the first failure: the length of the
/// longest run of successes that `outcomes` begins with.
pub open spec fn leading_successes(outcomes: Seq<bool>) -> nat
    decreases outcomes.len(),
{
    if outcomes.len() == 0 {
        0
    } else {
        let before = leading_successes(outcomes.drop_last());
        if before == outcomes.len() - 1 && outcomes.last() {
            before + 1
        } else {
            before
        }
    }
}

impl PublishModel {
    /// The sequencer after a run in which it is asked for a message and
    /// told the outcome of the call, once for each of `outcomes`.
    pub open spec fn drive(self, outcomes: Seq<bool>) -> PublishModel
        decreases outcomes.len(),
    {
        if outcomes.len() == 0 {
            self
        } else {
            self.drive(outcomes.drop_last()).next().0.record(outcomes.last())
        }
    }

    /// The messages issued over such a run, in order.
    pub open spec fn issued(self, outcomes: Seq<bool>) -> Seq<MessageView>
        decreases outcomes.len(),
    {
        if outcomes.len() == 0 {
            Seq::empty()
        } else {
            let before = self.issued(outcomes.drop_last());
            match self.drive(outcomes.drop_last()).next().1 {
                Some(m) => before.push(m),
                None => before,
            }
        }
    }
}

/// Every outcome before the first failure is a success, and the outcome at
/// that place, if there is one, is a failure.
pub proof fn lemma_leading_successes(outcomes: Seq<bool>)
    ensures
        leading_successes(outcomes) <= outcomes.len(),
        forall|i: int| 0 <= i < leading_successes(outcomes) ==> outcomes[i],
        leading_successes(outcomes) < outcomes.len() ==> !outcomes[leading_successes(
            outcomes,
        ) as int],
    decreases outcomes.len(),
{
    if outcomes.len() > 0 {
        let front = outcomes.drop_last();
        lemma_leading_successes(front);
        assert forall|i: int| 0 <= i < leading_successes(outcomes) implies outcomes[i] by {
            if i < front.len() {
                assert(front[i] == outcomes[i]);
            }
        }
        if leading_successes(front) < front.len() {
            assert(front[leading_successes(front) as int] == outcomes[leading_successes(
                front,
            ) as int]);
        }
    }
}

/// A run publishes the scheduled messages in order and stops at the first
/// failure. The messages before the failed one are confirmed, the failure is
/// recorded, and no message after it is ever issued. Without a failure the
/// run confirms one message per outcome until the schedule is used up.
pub proof fn lemma_halts_at_first_failure(queue: Seq<MessageView>, outcomes: Seq<bool>)
    ensures
        ({
            let start = PublishModel::initial(queue);
            let end = start.drive(outcomes);
            let good = leading_successes(outcomes);
            &&& end.wf()
            &&& end.queue == queue
            &&& !end.in_flight
            &&& end.failed <==> good < outcomes.len() && good < queue.len()
            &&& end.confirmed == if good < queue.len() {
                good
            } else {
                queue.len()
            }
            &&& start.issued(outcomes) == queue.take(end.attempted() as int)
        }),
    decreases outcomes.len(),
{
    let start = PublishModel::initial(queue);
    if outcomes.len() == 0 {
        assert(start.issued(outcomes) =~= queue.take(0));
    } else {
        let front = outcomes.drop_last();
        lemma_halts_at_first_failure(queue, front);
        lemma_leading_successes(front);
        let mid = start.drive(front);
        let end = start.drive(outcomes);
        if mid.ready() {
            assert(start.issued(front).push(queue[mid.confirmed as int]) =~= queue.take(
                end.attempted() as int,
            ));
        }
    }
}

/// How a publish run stands.
#[derive(Clone, Copy, Debug, PartialEq, Eq, Structural)]
pub struct PublishReport {
    /// The number of messages whose publish call succeeded.
    pub confirmed: usize,
    /// The number of publish calls issued.
    pub attempted: usize,
    /// The place in the schedule, counted from zero, of the message whose
    /// publish call failed, if one did.
    pub failed_at: Option<usize>,
}

/// Issues scheduled messages in order, one at a time, and stops for good at
/// the first failure.
pub struct PublishSequencer {
    queue: Vec<Message>,
    confirmed: usize,
    in_flight: bool,
    failed: bool,
}

impl View for PublishSequencer {
    type V = PublishModel;

    closed spec fn view(&self) -> PublishModel {
        PublishModel {
            queue: message_views(self.queue@),
            confirmed: self.confirmed as nat,
            in_flight: self.in_flight,
            failed: self.failed,
        }
    }
}

impl PublishSequencer {
    /// The invariant of a sequencer.
    pub open spec fn wf(&self) -> bool {
        self@.wf()
    }

    /// A sequencer for the given messages, in the given order.
    pub fn new(queue: Vec<Message>) -> (s: PublishSequencer)
        ensures
            s.wf(),
            s@ == PublishModel::initial(message_views(queue@)),
    {
        PublishSequencer { queue, confirmed: 0, in_flight: false, failed: false }
    }

    /// The next message to publish. There is none while a call is under
    /// way, after a call has failed, and when every message was confirmed:
    /// the sequencer is then unchanged.
    pub fn next(&mut self) -> (m: Option<Message>)
        requires
            old(self).wf(),
        ensures
            final(self).wf(),
            final(self)@ == old(self)@.next().0,
            match m {
                Some(x) => Some(x@),
                None => None,
            } == old(self)@.next().1,
    {
        if !self.in_flight && !self.failed && self.confirmed < self.queue.len() {
            self.in_flight = true;
            Some(self.queue[self.confirmed].clone())
        } else {
            None
        }
    }

    /// Records how the publish call under way ended. A failure is handed
    /// back as a publish error and halts the run. Without a call under way
    /// nothing changes.
    pub fn record(&mut self, ok: bool) -> (r: Result<(), SessionError>)
        requires
            old(self).wf(),
        ensures
            final(self).wf(),
            final(self)@ == old(self)@.record(ok),
            r is Err <==> old(self)@.in_flight && !ok,
            r matches Err(e) ==> e == SessionError::Publish,
    {
        if !self.in_flight {
            return Ok(());
        }
        let scheduled = self.queue.len();
        assert(self@.queue.len() == scheduled);
        self.in_flight = false;
        if ok {
            self.confirmed = self.confirmed + 1;
            Ok(())
        } else {
            self.failed = true;
            Err(SessionError::Publish)
        }
    }

    /// Whether every scheduled message was confirmed.
    pub fn is_finished(&self) -> (b: bool)
        ensures
            b == self@.finished(),
    {
        self.confirmed == self.queue.len()
    }

    /// Whether a publish call has failed.
    pub fn is_halted(&self) -> (b: bool)
        ensures
            b == self@.failed,
    {
        self.failed
    }

    /// The counts of the run so far.
    pub fn report(&self) -> (r: PublishReport)
        requires
            self.wf(),
        ensures
            r.confirmed == self@.confirmed,
            r.attempted == self@.attempted(),
            r.failed_at == if self@.failed {
                Some(self@.confirmed as usize)
            } else {
                None
            },
    {
        let scheduled = self.queue.len();
        assert(self@.queue.len() == scheduled);
        let attempted = if self.in_flight || self.failed {
            self.confirmed + 1
        } else {
            self.confirmed
        };
        PublishReport {
            confirmed: self.confirmed,
            attempted,
            failed_at: if self.failed {
                Some(self.confirmed)
            } else {
                None
            },
        }
    }
}

} // verus!
