//! The subscriptions a session intends to keep active.

use crate::error::SessionError;
use crate::qos::QoS;
use vstd::prelude::*;

verus! {

/// A topic filter together with the delivery guarantee requested for it.
#[derive(Debug, PartialEq, Eq)]
pub struct Subscription {
    pub topic: String,
    pub qos: QoS,
}

/// The mathematical value of a [`Subscription`].
pub struct SubscriptionView {
    pub topic: Seq<char>,
    pub qos: QoS,
}

impl View for Subscription {
    type V = SubscriptionView;

    open spec fn view(&self) -> SubscriptionView {
        SubscriptionView { topic: self.topic@, qos: self.qos }
    }
}

impl Clone for Subscription {
    fn clone(&self) -> (res: Self)
        ensures
            res@ == self@,
    {
        Subscription { topic: self.topic.clone(), qos: self.qos }
    }
}

/// The position of the first entry of `s` with the given topic, or the length
/// of `s` where no entry has it.
pub open spec fn position(s: Seq<SubscriptionView>, topic: Seq<char>) -> int
    decreases s.len(),
{
    if s.len() == 0 {
        0
    } else if s[0].topic == topic {
        0
    } else {
        1 + position(s.skip(1), topic)
    }
}

/// Whether some entry of `s` has the given topic.
pub open spec fn has_topic(s: Seq<SubscriptionView>, topic: Seq<char>) -> bool {
    exists|i: int| 0 <= i < s.len() && (#[trigger] s[i]).topic == topic
}

/// Whether no topic occurs in two entries of `s`.
pub open spec fn distinct_topics(s: Seq<SubscriptionView>) -> bool {
    forall|i: int, j: int|
        0 <= i < j < s.len() ==> (#[trigger] s[i]).topic != (#[trigger] s[j]).topic
}

/// The entries after `e` has been added: an entry with the same topic is
/// overwritten where it stands, a new topic goes to the end.
pub open spec fn with_entry(s: Seq<SubscriptionView>, e: SubscriptionView) -> Seq<
    SubscriptionView,
> {
    let i = position(s, e.topic);
    if i < s.len() {
        s.update(i, e)
    } else {
        s.push(e)
    }
}

/// The entries after the one with the given topic, if any, has been taken out.
pub open spec fn without_topic(s: Seq<SubscriptionView>, topic: Seq<char>) -> Seq<
    SubscriptionView,
> {
    let i = position(s, topic);
    if i < s.len() {
        s.remove(i)
    } else {
        s
    }
}

/// The entries after each pair of `topics` and `levels` has been added in turn.
pub open spec fn with_entries(
    s: Seq<SubscriptionView>,
    topics: Seq<Seq<char>>,
    levels: Seq<QoS>,
) -> Seq<SubscriptionView>
    recommends
        topics.len() == levels.len(),
    decreases topics.len(),
{
    if topics.len() == 0 {
        s
    } else {
        with_entry(
            with_entries(s, topics.drop_last(), levels.drop_last()),
            SubscriptionView { topic: topics.last(), qos: levels.last() },
        )
    }
}

/// `position` is the least index that holds the topic, and the length where
/// none does.
pub proof fn lemma_position(s: Seq<SubscriptionView>, topic: Seq<char>)
    ensures
        0 <= position(s, topic) <= s.len(),
        forall|j: int| 0 <= j < position(s, topic) ==> (#[trigger] s[j]).topic != topic,
        position(s, topic) < s.len() ==> s[position(s, topic)].topic == topic,
        has_topic(s, topic) <==> position(s, topic) < s.len(),
    decreases s.len(),
{
    if s.len() > 0 && s[0].topic != topic {
        let t = s.skip(1);
        lemma_position(t, topic);
        let p = position(t, topic);
        assert forall|j: int| 0 <= j < 1 + p implies (#[trigger] s[j]).topic != topic by {
            if j > 0 {
                assert(t[j - 1] == s[j]);
            }
        }
        if p < t.len() {
            assert(t[p] == s[p + 1]);
        }
        if has_topic(s, topic) {
            let i = choose|i: int| 0 <= i < s.len() && (#[trigger] s[i]).topic == topic;
            assert(t[i - 1] == s[i]);
        }
    }
}

/// An index at which the topic stands, with no earlier one, is its position.
pub proof fn lemma_position_is(s: Seq<SubscriptionView>, topic: Seq<char>, i: int)
    requires
        0 <= i <= s.len(),
        forall|j: int| 0 <= j < i ==> (#[trigger] s[j]).topic != topic,
        i < s.len() ==> s[i].topic == topic,
    ensures
        position(s, topic) == i,
{
    lemma_position(s, topic);
}

/// The mathematical values of a sequence of subscriptions.
pub open spec fn views(v: Seq<Subscription>) -> Seq<SubscriptionView> {
    v.map_values(|e: Subscription| e@)
}

/// The character sequences of a sequence of strings.
pub open spec fn texts(v: Seq<String>) -> Seq<Seq<char>> {
    v.map_values(|t: String| t@)
}

/// The topics of a sequence of entries, in order.
pub open spec fn topics_of(s: Seq<SubscriptionView>) -> Seq<Seq<char>> {
    s.map_values(|e: SubscriptionView| e.topic)
}

/// The entries made of each topic of `topics` and the guarantee at the same
/// place in `levels`.
pub open spec fn paired(topics: Seq<Seq<char>>, levels: Seq<QoS>) -> Seq<SubscriptionView>
    recommends
        topics.len() == levels.len(),
{
    Seq::new(topics.len(), |i: int| SubscriptionView { topic: topics[i], qos: levels[i] })
}

/// Pairs each topic with the guarantee at the same place. Lists of
/// different lengths are refused.
pub fn subscriptions_from(topics: &Vec<String>, levels: &Vec<QoS>) -> (r: Result<
    Vec<Subscription>,
    SessionError,
>)
    ensures
        topics.len() == levels.len() <==> r is Ok,
        r matches Ok(v) ==> views(v@) == paired(texts(topics@), levels@),
        r matches Err(e) ==> e == SessionError::Config,
{
    if topics.len() != levels.len() {
        return Err(SessionError::Config);
    }
    let mut v: Vec<Subscription> = Vec::new();
    let mut i: usize = 0;
    while i < topics.len()
        invariant
            i <= topics.len(),
            topics.len() == levels.len(),
            v@.len() == i,
            forall|j: int| 0 <= j < i ==> (#[trigger] v@[j])@ == paired(texts(topics@), levels@)[j],
        decreases topics.len() - i,
    {
        v.push(Subscription { topic: topics[i].clone(), qos: levels[i] });
        i += 1;
    }
    assert(views(v@) =~= paired(texts(topics@), levels@));
    Ok(v)
}

/// The ordered collection of subscriptions that should be active.
///
/// No topic occurs twice, and entries stand in the order in which their
/// topics were first added.
pub struct SubscriptionRegistry {
    entries: Vec<Subscription>,
}

impl View for SubscriptionRegistry {
    type V = Seq<SubscriptionView>;

    closed spec fn view(&self) -> Seq<SubscriptionView> {
        views(self.entries@)
    }
}

impl SubscriptionRegistry {
    /// The invariant of the registry: no topic occurs twice.
    pub open spec fn wf(&self) -> bool {
        distinct_topics(self@)
    }

    /// A registry without entries.
    pub fn new() -> (r: Self)
        ensures
            r@ == Seq::<SubscriptionView>::empty(),
            r.wf(),
    {
        SubscriptionRegistry { entries: Vec::new() }
    }

    /// The number of entries.
    pub fn len(&self) -> (n: usize)
        ensures
            n == self@.len(),
    {
        self.entries.len()
    }

    /// Whether the registry has no entries.
    pub fn is_empty(&self) -> (b: bool)
        ensures
            b == (self@.len() == 0),
    {
        self.entries.len() == 0
    }

    /// The index of the entry with the given topic, or the number of entries
    /// where there is none.
    fn find(&self, topic: &String) -> (i: usize)
        ensures
            i == position(self@, topic@),
    {
        let mut i: usize = 0;
        while i < self.entries.len()
            invariant
                i <= self.entries.len(),
                forall|j: int| 0 <= j < i ==> (#[trigger] self@[j]).topic != topic@,
            decreases self.entries.len() - i,
        {
            if self.entries[i].topic == *topic {
                proof {
                    lemma_position_is(self@, topic@, i as int);
                }
                return i;
            }
            i += 1;
        }
        proof {
            lemma_position_is(self@, topic@, i as int);
        }
        i
    }

    /// Whether an entry has the given topic.
    pub fn contains(&self, topic: &String) -> (b: bool)
        ensures
            b == has_topic(self@, topic@),
    {
        proof {
            lemma_position(self@, topic@);
        }
        self.find(topic) < self.entries.len()
    }

    /// The delivery guarantee registered for the given topic, if any.
    pub fn qos_of(&self, topic: &String) -> (q: Option<QoS>)
        ensures
            q is Some <==> has_topic(self@, topic@),
            q matches Some(v) ==> v == self@[position(self@, topic@)].qos,
    {
        proof {
            lemma_position(self@, topic@);
        }
        let i = self.find(topic);
        if i < self.entries.len() {
            Some(self.entries[i].qos)
        } else {
            None
        }
    }

    /// Registers `topic` with `qos`. A topic already present keeps its place
    /// and takes the new guarantee; a new topic goes to the end.
    pub fn add(&mut self, topic: String, qos: QoS)
        requires
            old(self).wf(),
        ensures
            final(self).wf(),
            final(self)@ == with_entry(old(self)@, SubscriptionView { topic: topic@, qos }),
    {
        let ghost e = SubscriptionView { topic: topic@, qos };
        let ghost before = self@;
        proof {
            lemma_position(before, topic@);
            lemma_with_entry_distinct(before, e);
        }
        let i = self.find(&topic);
        if i < self.entries.len() {
            self.entries.set(i, Subscription { topic, qos });
            assert(self@ =~= before.update(i as int, e));
        } else {
            self.entries.push(Subscription { topic, qos });
            assert(self@ =~= before.push(e));
        }
    }

    /// Registers each topic of `topics` with the guarantee at the same place
    /// in `levels`, in order. Lists of different lengths are refused and
    /// leave the registry as it was.
    pub fn add_many(&mut self, topics: &Vec<String>, levels: &Vec<QoS>) -> (r: Result<
        (),
        SessionError,
    >)
        requires
            old(self).wf(),
        ensures
            final(self).wf(),
            topics.len() == levels.len() <==> r is Ok,
            r is Ok ==> final(self)@ == with_entries(old(self)@, texts(topics@), levels@),
            r is Err ==> r == Err::<(), SessionError>(SessionError::Config) && final(self)@
                == old(self)@,
    {
        if topics.len() != levels.len() {
            return Err(SessionError::Config);
        }
        let ghost start = self@;
        let mut i: usize = 0;
        while i < topics.len()
            invariant
                i <= topics.len(),
                topics.len() == levels.len(),
                self.wf(),
                self@ == with_entries(start, texts(topics@).take(i as int), levels@.take(i as int)),
            decreases topics.len() - i,
        {
            proof {
                let ts = texts(topics@).take(i + 1);
                let ls = levels@.take(i + 1);
                assert(ts.drop_last() =~= texts(topics@).take(i as int));
                assert(ls.drop_last() =~= levels@.take(i as int));
                assert(ts.last() == topics@[i as int]@);
                assert(ls.last() == levels@[i as int]);
            }
            self.add(topics[i].clone(), levels[i]);
            i += 1;
        }
        proof {
            assert(texts(topics@).take(i as int) =~= texts(topics@));
            assert(levels@.take(i as int) =~= levels@);
        }
        Ok(())
    }

    /// Takes out the entry with the given topic and says whether there was
    /// one. The other entries keep their order.
    pub fn remove(&mut self, topic: &String) -> (found: bool)
        requires
            old(self).wf(),
        ensures
            final(self).wf(),
            found == has_topic(old(self)@, topic@),
            final(self)@ == without_topic(old(self)@, topic@),
            !has_topic(final(self)@, topic@),
    {
        let ghost before = self@;
        proof {
            lemma_position(before, topic@);
            lemma_without_topic_distinct(before, topic@);
        }
        let i = self.find(topic);
        if i < self.entries.len() {
            self.entries.remove(i);
            assert(self@ =~= before.remove(i as int));
            true
        } else {
            false
        }
    }

    /// The entries in registration order, as replayed after a recovery.
    pub fn snapshot(&self) -> (v: Vec<Subscription>)
        ensures
            views(v@) == self@,
    {
        let mut v: Vec<Subscription> = Vec::new();
        let mut i: usize = 0;
        while i < self.entries.len()
            invariant
                i <= self.entries.len(),
                v@.len() == i,
                self@.len() == self.entries.len(),
                views(v@) == self@.take(i as int),
            decreases self.entries.len() - i,
        {
            let ghost prev = v@;
            v.push(self.entries[i].clone());
            assert forall|j: int| 0 <= j < v@.len() implies views(v@)[j] == self@.take(i + 1)[j] by {
                if j < i {
                    assert(views(prev)[j] == self@.take(i as int)[j]);
                }
            }
            assert(views(v@) =~= self@.take(i + 1));
            i += 1;
        }
        assert(self@.take(i as int) =~= self@);
        v
    }

    /// The topics of the entries in registration order.
    pub fn topics(&self) -> (v: Vec<String>)
        ensures
            texts(v@) == topics_of(self@),
    {
        let mut v: Vec<String> = Vec::new();
        let mut i: usize = 0;
        while i < self.entries.len()
            invariant
                i <= self.entries.len(),
                v@.len() == i,
                self@.len() == self.entries.len(),
                texts(v@) == topics_of(self@).take(i as int),
            decreases self.entries.len() - i,
        {
            let ghost prev = v@;
            v.push(self.entries[i].topic.clone());
            assert forall|j: int| 0 <= j < v@.len() implies texts(v@)[j] == topics_of(self@).take(
                i + 1,
            )[j] by {
                if j < i {
                    assert(texts(prev)[j] == topics_of(self@).take(i as int)[j]);
                }
            }
            assert(texts(v@) =~= topics_of(self@).take(i + 1));
            i += 1;
        }
        assert(topics_of(self@).take(i as int) =~= topics_of(self@));
        v
    }
}

/// Taking a topic out keeps topics distinct and leaves no entry with it.
pub proof fn lemma_without_topic_distinct(s: Seq<SubscriptionView>, topic: Seq<char>)
    requires
        distinct_topics(s),
    ensures
        distinct_topics(without_topic(s, topic)),
        !has_topic(without_topic(s, topic), topic),
{
    lemma_position(s, topic);
    let r = without_topic(s, topic);
    let i = position(s, topic);
    assert forall|a: int, b: int| 0 <= a < b < r.len() implies (#[trigger] r[a]).topic != (
    #[trigger] r[b]).topic by {
        let a0 = if i < s.len() && a >= i { a + 1 } else { a };
        let b0 = if i < s.len() && b >= i { b + 1 } else { b };
        assert(s[a0].topic != s[b0].topic);
    }
    assert forall|a: int| 0 <= a < r.len() implies (#[trigger] r[a]).topic != topic by {
        if i < s.len() {
            let a0 = if a >= i { a + 1 } else { a };
            if a0 < i {
                assert(s[a0].topic != topic);
            } else {
                assert(s[i].topic != s[a0].topic);
            }
        } else {
            assert(s[a].topic != topic);
        }
    }
}

/// Adding entries one after the other keeps topics distinct.
pub proof fn lemma_with_entries_distinct(
    s: Seq<SubscriptionView>,
    topics: Seq<Seq<char>>,
    levels: Seq<QoS>,
)
    requires
        distinct_topics(s),
    ensures
        distinct_topics(with_entries(s, topics, levels)),
    decreases topics.len(),
{
    if topics.len() > 0 {
        lemma_with_entries_distinct(s, topics.drop_last(), levels.drop_last());
        lemma_with_entry_distinct(
            with_entries(s, topics.drop_last(), levels.drop_last()),
            SubscriptionView { topic: topics.last(), qos: levels.last() },
        );
    }
}

/// Adding an entry keeps topics distinct.
pub proof fn lemma_with_entry_distinct(s: Seq<SubscriptionView>, e: SubscriptionView)
    requires
        distinct_topics(s),
    ensures
        distinct_topics(with_entry(s, e)),
        has_topic(with_entry(s, e), e.topic),
        with_entry(s, e)[position(with_entry(s, e), e.topic)] == e,
{
    lemma_position(s, e.topic);
    let r = with_entry(s, e);
    let i = position(s, e.topic);
    assert(r[i] == e);
    assert forall|a: int, b: int| 0 <= a < b < r.len() implies (#[trigger] r[a]).topic != (
    #[trigger] r[b]).topic by {
        if i < s.len() {
            if a != i && b != i {
                assert(s[a].topic != s[b].topic);
            } else if a == i {
                assert(s[i].topic != s[b].topic);
            } else {
                assert(s[a].topic != s[i].topic);
            }
        } else {
            if b < s.len() {
                assert(s[a].topic != s[b].topic);
            } else {
                assert(s[a].topic != e.topic);
            }
        }
    }
    lemma_position_is(r, e.topic, i);
}

} // verus!
