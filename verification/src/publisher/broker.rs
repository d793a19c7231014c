//! The broker core: the subscriber registry, the reference-counted table of
//! per-topic background listeners, and the per-topic producer cache.
//!
//! The broker owns the bookkeeping of the event manager as plain data and
//! makes every decision: which handler a discriminant maps to, whether a
//! topic already has a listener or a cached writer, and when a listener's
//! last reference goes away.  The surrounding asynchronous process supplies
//! the opaque payloads — handlers `H`, writer handles `W` and listener task
//! handles `L` — and performs the transport work the broker asks for.
//!
//! Every table is viewed as a mathematical [`Map`]:
//!
//! * `registry_map`: discriminant to handler, at most one handler per
//!   discriminant, last write wins;
//! * `listeners_map`: topic to `(refcount, task)`, where an entry exists if
//!   and only if its refcount is positive;
//! * `writers_map`: topic to cached writer handle, created once and reused.

use vstd::prelude::*;

use crate::codec::dec_event;
use crate::codec::decode_event;
use crate::codec::enc_event;
use crate::codec::lemma_codec_round_trip;
use crate::codec::wf_event_v;
use crate::events::lemma_type_of_view_agrees;
use crate::events::type_of_view;
use crate::events::Event;
use crate::events::EventType;
use crate::publisher::topic::str_eq;
use crate::publisher::topic::Topic;
use crate::publisher::TypedEvent;

verus! {

/// The handler registered for discriminant `k` in the association sequence
/// `s`, scanning from the most recent entry backwards.
pub open spec fn lookup_type<V>(s: Seq<(EventType, V)>, k: EventType) -> Option<V>
    decreases s.len(),
{
    if s.len() == 0 {
        None
    } else if s.last().0 == k {
        Some(s.last().1)
    } else {
        lookup_type(s.drop_last(), k)
    }
}

/// The value registered for the topic named `t` in the association sequence
/// `s`, comparing topics by their character content.
pub open spec fn lookup_topic<V>(s: Seq<(Topic, V)>, t: Seq<char>) -> Option<V>
    decreases s.len(),
{
    if s.len() == 0 {
        None
    } else if s.last().0@ == t {
        Some(s.last().1)
    } else {
        lookup_topic(s.drop_last(), t)
    }
}

proof fn lemma_lookup_type_found<V>(s: Seq<(EventType, V)>, i: int)
    requires
        0 <= i < s.len(),
        forall|j: int| i < j < s.len() ==> (#[trigger] s[j]).0 != s[i].0,
    ensures
        lookup_type(s, s[i].0) == Some(s[i].1),
    decreases s.len(),
{
    if i == s.len() - 1 {
    } else {
        assert(s[s.len() - 1].0 != s[i].0);
        assert(s.drop_last()[i] == s[i]);
        lemma_lookup_type_found(s.drop_last(), i);
    }
}

proof fn lemma_lookup_type_absent<V>(s: Seq<(EventType, V)>, k: EventType)
    requires
        forall|j: int| 0 <= j < s.len() ==> (#[trigger] s[j]).0 != k,
    ensures
        lookup_type(s, k) is None,
    decreases s.len(),
{
    if s.len() > 0 {
        lemma_lookup_type_absent(s.drop_last(), k);
    }
}

proof fn lemma_lookup_type_remove_other<V>(s: Seq<(EventType, V)>, i: int, k: EventType)
    requires
        0 <= i < s.len(),
        s[i].0 != k,
    ensures
        lookup_type(s.remove(i), k) == lookup_type(s, k),
    decreases s.len(),
{
    if i == s.len() - 1 {
        assert(s.remove(i) =~= s.drop_last());
    } else {
        assert(s.remove(i).last() == s.last());
        if s.last().0 == k {
        } else {
            assert(s.remove(i).drop_last() =~= s.drop_last().remove(i));
            assert(s.drop_last()[i] == s[i]);
            lemma_lookup_type_remove_other(s.drop_last(), i, k);
        }
    }
}

proof fn lemma_lookup_type_push<V>(s: Seq<(EventType, V)>, p: (EventType, V), k: EventType)
    ensures
        lookup_type(s.push(p), k) == if p.0 == k {
            Some(p.1)
        } else {
            lookup_type(s, k)
        },
{
    assert(s.push(p).last() == p);
    assert(s.push(p).drop_last() =~= s);
}

proof fn lemma_lookup_topic_found<V>(s: Seq<(Topic, V)>, i: int)
    requires
        0 <= i < s.len(),
        forall|j: int| i < j < s.len() ==> (#[trigger] s[j]).0@ != s[i].0@,
    ensures
        lookup_topic(s, s[i].0@) == Some(s[i].1),
    decreases s.len(),
{
    if i == s.len() - 1 {
    } else {
        assert(s[s.len() - 1].0@ != s[i].0@);
        assert(s.drop_last()[i] == s[i]);
        lemma_lookup_topic_found(s.drop_last(), i);
    }
}

proof fn lemma_lookup_topic_absent<V>(s: Seq<(Topic, V)>, t: Seq<char>)
    requires
        forall|j: int| 0 <= j < s.len() ==> (#[trigger] s[j]).0@ != t,
    ensures
        lookup_topic(s, t) is None,
    decreases s.len(),
{
    if s.len() > 0 {
        lemma_lookup_topic_absent(s.drop_last(), t);
    }
}

proof fn lemma_lookup_topic_remove_other<V>(s: Seq<(Topic, V)>, i: int, t: Seq<char>)
    requires
        0 <= i < s.len(),
        s[i].0@ != t,
    ensures
        lookup_topic(s.remove(i), t) == lookup_topic(s, t),
    decreases s.len(),
{
    if i == s.len() - 1 {
        assert(s.remove(i) =~= s.drop_last());
    } else {
        assert(s.remove(i).last() == s.last());
        if s.last().0@ == t {
        } else {
            assert(s.remove(i).drop_last() =~= s.drop_last().remove(i));
            assert(s.drop_last()[i] == s[i]);
            lemma_lookup_topic_remove_other(s.drop_last(), i, t);
        }
    }
}

proof fn lemma_lookup_topic_push<V>(s: Seq<(Topic, V)>, p: (Topic, V), t: Seq<char>)
    ensures
        lookup_topic(s.push(p), t) == if p.0@ == t {
            Some(p.1)
        } else {
            lookup_topic(s, t)
        },
{
    assert(s.push(p).last() == p);
    assert(s.push(p).drop_last() =~= s);
}

proof fn lemma_lookup_topic_is_entry<V>(s: Seq<(Topic, V)>, t: Seq<char>)
    requires
        lookup_topic(s, t) is Some,
    ensures
        exists|i: int|
            0 <= i < s.len() && (#[trigger] s[i]).0@ == t && Some(s[i].1) == lookup_topic(s, t),
    decreases s.len(),
{
    if s.last().0@ == t {
        assert(s[s.len() - 1].0@ == t);
    } else {
        lemma_lookup_topic_is_entry(s.drop_last(), t);
        let i = choose|i: int|
            0 <= i < s.drop_last().len() && (#[trigger] s.drop_last()[i]).0@ == t && Some(
                s.drop_last()[i].1,
            ) == lookup_topic(s.drop_last(), t);
        assert(s[i] == s.drop_last()[i]);
    }
}

/// The position of the first entry registered under discriminant `k`, if any.
fn find_type_index<V>(v: &Vec<(EventType, V)>, k: EventType) -> (r: Option<usize>)
    ensures
        match r {
            Some(i) => i < v@.len() && v@[i as int].0 == k,
            None => forall|j: int| 0 <= j < v@.len() ==> (#[trigger] v@[j]).0 != k,
        },
{
    let mut i: usize = 0;
    while i < v.len()
        invariant
            i <= v@.len(),
            forall|j: int| 0 <= j < i ==> (#[trigger] v@[j]).0 != k,
        decreases v@.len() - i,
    {
        if v[i].0 == k {
            return Some(i);
        }
        i += 1;
    }
    None
}

/// The position of the first entry registered under the topic named `t`, if
/// any.
fn find_topic_index<V>(v: &Vec<(Topic, V)>, t: Topic) -> (r: Option<usize>)
    ensures
        match r {
            Some(i) => i < v@.len() && v@[i as int].0@ == t@,
            None => forall|j: int| 0 <= j < v@.len() ==> (#[trigger] v@[j]).0@ != t@,
        },
{
    let mut i: usize = 0;
    while i < v.len()
        invariant
            i <= v@.len(),
            forall|j: int| 0 <= j < i ==> (#[trigger] v@[j]).0@ != t@,
        decreases v@.len() - i,
    {
        if str_eq(v[i].0, t) {
            return Some(i);
        }
        i += 1;
    }
    None
}

/// The listener table after an unsubscription releases the topic named `t`:
/// absent topics are left alone, the last reference removes the entry, any
/// other reference just decrements the count.
pub open spec fn spec_release<L>(m: Map<Seq<char>, (usize, L)>, t: Seq<char>) -> Map<
    Seq<char>,
    (usize, L),
> {
    if !m.contains_key(t) {
        m
    } else if m[t].0 <= 1 {
        m.remove(t)
    } else {
        m.insert(t, ((m[t].0 - 1) as usize, m[t].1))
    }
}

/// The background task a release hands back for cancellation: the topic's
/// task exactly when the last reference goes away.
pub open spec fn spec_release_task<L>(m: Map<Seq<char>, (usize, L)>, t: Seq<char>) -> Option<L> {
    if m.contains_key(t) && m[t].0 <= 1 {
        Some(m[t].1)
    } else {
        None
    }
}

/// The broker state: subscriber registry, listener table and producer cache.
///
/// `H` is the subscriber handler, `W` the transport writer handle and `L`
/// the background listener task handle; all three are opaque to the broker.
pub struct EventBroker<H, W, L> {
    registry: Vec<(EventType, H)>,
    listeners: Vec<(Topic, (usize, L))>,
    producers: Vec<(Topic, W)>,
}

impl<H, W, L> EventBroker<H, W, L> {
    /// The subscriber registry: discriminant to registered handler.
    pub closed spec fn registry_map(&self) -> Map<EventType, H> {
        Map::new(
            |k: EventType| lookup_type(self.registry@, k) is Some,
            |k: EventType| lookup_type(self.registry@, k).unwrap(),
        )
    }

    /// The listener table: topic to reference count and background task.
    pub closed spec fn listeners_map(&self) -> Map<Seq<char>, (usize, L)> {
        Map::new(
            |t: Seq<char>| lookup_topic(self.listeners@, t) is Some,
            |t: Seq<char>| lookup_topic(self.listeners@, t).unwrap(),
        )
    }

    /// The producer cache: topic to cached writer handle.
    pub closed spec fn writers_map(&self) -> Map<Seq<char>, W> {
        Map::new(
            |t: Seq<char>| lookup_topic(self.producers@, t) is Some,
            |t: Seq<char>| lookup_topic(self.producers@, t).unwrap(),
        )
    }

    /// Number of live subscriptions holding the listener of the topic named
    /// `t`.
    pub open spec fn refcount_of(&self, t: Seq<char>) -> nat {
        if self.listeners_map().contains_key(t) {
            self.listeners_map()[t].0 as nat
        } else {
            0
        }
    }

    /// Well-formedness: each table holds at most one entry per key, and every
    /// listener entry is held by at least one subscription.
    pub closed spec fn wf(&self) -> bool {
        &&& forall|i: int, j: int|
            0 <= i < j < self.registry@.len() ==> (#[trigger] self.registry@[i]).0 != (
            #[trigger] self.registry@[j]).0
        &&& forall|i: int, j: int|
            0 <= i < j < self.listeners@.len() ==> (#[trigger] self.listeners@[i]).0@ != (
            #[trigger] self.listeners@[j]).0@
        &&& forall|i: int|
            0 <= i < self.listeners@.len() ==> (#[trigger] self.listeners@[i]).1.0 >= 1
        &&& forall|i: int, j: int|
            0 <= i < j < self.producers@.len() ==> (#[trigger] self.producers@[i]).0@ != (
            #[trigger] self.producers@[j]).0@
    }

    /// A fresh broker: nothing subscribed, no listeners, no writers.
    pub fn new() -> (b: Self)
        ensures
            b.wf(),
            b.registry_map() == Map::<EventType, H>::empty(),
            b.listeners_map() == Map::<Seq<char>, (usize, L)>::empty(),
            b.writers_map() == Map::<Seq<char>, W>::empty(),
    {
        let b = EventBroker { registry: Vec::new(), listeners: Vec::new(), producers: Vec::new() };
        proof {
            assert(b.registry_map() =~= Map::<EventType, H>::empty());
            assert(b.listeners_map() =~= Map::<Seq<char>, (usize, L)>::empty());
            assert(b.writers_map() =~= Map::<Seq<char>, W>::empty());
        }
        b
    }

    /// Registers `h` as the one handler for discriminant `et`, replacing and
    /// returning the previously registered handler, if any (last write wins).
    pub fn put_handler(&mut self, et: EventType, h: H) -> (displaced: Option<H>)
        requires
            old(self).wf(),
        ensures
            final(self).wf(),
            final(self).registry_map() == old(self).registry_map().insert(et, h),
            displaced == (if old(self).registry_map().contains_key(et) {
                Some(old(self).registry_map()[et])
            } else {
                None
            }),
            final(self).listeners_map() == old(self).listeners_map(),
            final(self).writers_map() == old(self).writers_map(),
    {
        let ghost s0 = self.registry@;
        let found = find_type_index(&self.registry, et);
        match found {
            Some(i) => {
                let prev = self.registry.remove(i);
                self.registry.push((et, h));
                proof {
                    let s1 = s0.remove(i as int);
                    let s2 = self.registry@;
                    assert(s2 == s1.push((et, h)));
                    lemma_lookup_type_found(s0, i as int);
                    assert forall|k: EventType| #[trigger]
                        lookup_type(s2, k) == (if k == et {
                            Some(h)
                        } else {
                            lookup_type(s0, k)
                        }) by {
                        lemma_lookup_type_push(s1, (et, h), k);
                        if k != et {
                            lemma_lookup_type_remove_other(s0, i as int, k);
                        }
                    }
                    assert(self.registry_map() =~= old(self).registry_map().insert(et, h));
                    assert forall|p: int, q: int| 0 <= p < q < s2.len() implies (
                    #[trigger] s2[p]).0 != (#[trigger] s2[q]).0 by {
                        if q < s2.len() - 1 {
                            assert(s2[p] == (if p < i { s0[p] } else { s0[p + 1] }));
                            assert(s2[q] == (if q < i { s0[q] } else { s0[q + 1] }));
                        } else {
                            assert(s2[q] == (et, h));
                            assert(s2[p] == (if p < i { s0[p] } else { s0[p + 1] }));
                            let p0 = if p < i { p } else { p + 1 };
                            assert(s0[p0].0 != s0[i as int].0);
                        }
                    }
                }
                Some(prev.1)
            },
            None => {
                self.registry.push((et, h));
                proof {
                    let s2 = self.registry@;
                    lemma_lookup_type_absent(s0, et);
                    assert forall|k: EventType| #[trigger]
                        lookup_type(s2, k) == (if k == et {
                            Some(h)
                        } else {
                            lookup_type(s0, k)
                        }) by {
                        lemma_lookup_type_push(s0, (et, h), k);
                    }
                    assert(self.registry_map() =~= old(self).registry_map().insert(et, h));
                }
                None
            },
        }
    }

    /// Removes the handler registered for discriminant `et`, returning it,
    /// if any; removing an unknown discriminant is a no-op.
    pub fn remove_handler(&mut self, et: EventType) -> (removed: Option<H>)
        requires
            old(self).wf(),
        ensures
            final(self).wf(),
            final(self).registry_map() == old(self).registry_map().remove(et),
            removed == (if old(self).registry_map().contains_key(et) {
                Some(old(self).registry_map()[et])
            } else {
                None
            }),
            final(self).listeners_map() == old(self).listeners_map(),
            final(self).writers_map() == old(self).writers_map(),
    {
        let ghost s0 = self.registry@;
        let found = find_type_index(&self.registry, et);
        match found {
            Some(i) => {
                let prev = self.registry.remove(i);
                proof {
                    let s1 = self.registry@;
                    assert(s1 == s0.remove(i as int));
                    lemma_lookup_type_found(s0, i as int);
                    assert forall|k: EventType| #[trigger]
                        lookup_type(s1, k) == (if k == et {
                            None
                        } else {
                            lookup_type(s0, k)
                        }) by {
                        if k == et {
                            assert(forall|j: int|
                                0 <= j < s1.len() ==> (#[trigger] s1[j]) == (if j < i {
                                    s0[j]
                                } else {
                                    s0[j + 1]
                                }));
                            lemma_lookup_type_absent(s1, et);
                        } else {
                            lemma_lookup_type_remove_other(s0, i as int, k);
                        }
                    }
                    assert(self.registry_map() =~= old(self).registry_map().remove(et));
                }
                Some(prev.1)
            },
            None => {
                proof {
                    lemma_lookup_type_absent(s0, et);
                    assert(self.registry_map() =~= old(self).registry_map().remove(et));
                }
                None
            },
        }
    }

    /// Borrows the handler registered for discriminant `et`, if any.
    pub fn handler_for(&self, et: EventType) -> (r: Option<&H>)
        requires
            self.wf(),
        ensures
            match r {
                Some(h) => self.registry_map().contains_key(et) && *h == self.registry_map()[et],
                None => !self.registry_map().contains_key(et),
            },
    {
        let found = find_type_index(&self.registry, et);
        match found {
            Some(i) => {
                proof {
                    lemma_lookup_type_found(self.registry@, i as int);
                }
                Some(&self.registry[i].1)
            },
            None => {
                proof {
                    lemma_lookup_type_absent(self.registry@, et);
                }
                None
            },
        }
    }

    /// Whether a background listener currently serves `topic`.
    pub fn has_listener(&self, topic: Topic) -> (r: bool)
        requires
            self.wf(),
        ensures
            r == self.listeners_map().contains_key(topic@),
    {
        let found = find_topic_index(&self.listeners, topic);
        match found {
            Some(i) => {
                proof {
                    lemma_lookup_topic_found(self.listeners@, i as int);
                }
                true
            },
            None => {
                proof {
                    lemma_lookup_topic_absent(self.listeners@, topic@);
                }
                false
            },
        }
    }

    /// Number of live subscriptions holding `topic`'s listener; zero when no
    /// listener exists.
    pub fn listener_refcount(&self, topic: Topic) -> (rc: usize)
        requires
            self.wf(),
        ensures
            rc as nat == self.refcount_of(topic@),
    {
        let found = find_topic_index(&self.listeners, topic);
        match found {
            Some(i) => {
                proof {
                    lemma_lookup_topic_found(self.listeners@, i as int);
                }
                self.listeners[i].1.0
            },
            None => {
                proof {
                    lemma_lookup_topic_absent(self.listeners@, topic@);
                }
                0
            },
        }
    }

    /// Records a freshly spawned background `task` as `topic`'s listener,
    /// held by its first subscription.
    pub fn install_listener(&mut self, topic: Topic, task: L)
        requires
            old(self).wf(),
            !old(self).listeners_map().contains_key(topic@),
        ensures
            final(self).wf(),
            final(self).listeners_map() == old(self).listeners_map().insert(topic@, (1usize, task)),
            final(self).registry_map() == old(self).registry_map(),
            final(self).writers_map() == old(self).writers_map(),
    {
        let ghost s0 = self.listeners@;
        self.listeners.push((topic, (1, task)));
        proof {
            let s2 = self.listeners@;
            assert forall|t: Seq<char>| #[trigger]
                lookup_topic(s2, t) == (if t == topic@ {
                    Some((1usize, task))
                } else {
                    lookup_topic(s0, t)
                }) by {
                lemma_lookup_topic_push(s0, (topic, (1usize, task)), t);
            }
            assert(self.listeners_map() =~= old(self).listeners_map().insert(
                topic@,
                (1usize, task),
            ));
            assert forall|j: int| 0 <= j < s2.len() - 1 implies (#[trigger] s2[j]).0@ != topic@ by {
                if lookup_topic(s0, s2[j].0@) is None {
                    lemma_lookup_topic_found(s0, j);
                }
            }
        }
    }

    /// Adds one reference to `topic`'s existing listener: a further
    /// subscription multiplexed onto the shared stream.
    pub fn retain_listener(&mut self, topic: Topic)
        requires
            old(self).wf(),
            old(self).listeners_map().contains_key(topic@),
            old(self).listeners_map()[topic@].0 < usize::MAX,
        ensures
            final(self).wf(),
            final(self).listeners_map() == old(self).listeners_map().insert(
                topic@,
                ((old(self).listeners_map()[topic@].0 + 1) as usize, old(
                    self,
                ).listeners_map()[topic@].1),
            ),
            final(self).registry_map() == old(self).registry_map(),
            final(self).writers_map() == old(self).writers_map(),
    {
        let ghost s0 = self.listeners@;
        let found = find_topic_index(&self.listeners, topic);
        match found {
            Some(i) => {
                proof {
                    lemma_lookup_topic_found(s0, i as int);
                }
                let entry = self.listeners.remove(i);
                let rc = entry.1.0;
                let task = entry.1.1;
                self.listeners.push((entry.0, (rc + 1, task)));
                proof {
                    let s1 = s0.remove(i as int);
                    let s2 = self.listeners@;
                    let p = (entry.0, ((s0[i as int].1.0 + 1) as usize, s0[i as int].1.1));
                    assert(s2 == s1.push(p));
                    assert forall|t: Seq<char>| #[trigger]
                        lookup_topic(s2, t) == (if t == topic@ {
                            Some(p.1)
                        } else {
                            lookup_topic(s0, t)
                        }) by {
                        lemma_lookup_topic_push(s1, p, t);
                        if t != topic@ {
                            lemma_lookup_topic_remove_other(s0, i as int, t);
                        }
                    }
                    assert(self.listeners_map() =~= old(self).listeners_map().insert(
                        topic@,
                        ((old(self).listeners_map()[topic@].0 + 1) as usize, old(
                            self,
                        ).listeners_map()[topic@].1),
                    ));
                    assert forall|a: int, b: int| 0 <= a < b < s2.len() implies (
                    #[trigger] s2[a]).0@ != (#[trigger] s2[b]).0@ by {
                        if b < s2.len() - 1 {
                            assert(s2[a] == (if a < i { s0[a] } else { s0[a + 1] }));
                            assert(s2[b] == (if b < i { s0[b] } else { s0[b + 1] }));
                        } else {
                            assert(s2[b].0@ == topic@);
                            assert(s2[a] == (if a < i { s0[a] } else { s0[a + 1] }));
                            let a0 = if a < i { a } else { a + 1 };
                            assert(s0[a0].0@ != s0[i as int].0@);
                        }
                    }
                }
            },
            None => {
                proof {
                    lemma_lookup_topic_absent(s0, topic@);
                    assert(false);
                }
            },
        }
    }

    /// Drops one reference to `topic`'s listener.  When the last reference
    /// goes away the entry is removed and the background task is handed back
    /// for cancellation; releasing a topic without a listener is a no-op.
    pub fn release_listener(&mut self, topic: Topic) -> (task: Option<L>)
        requires
            old(self).wf(),
        ensures
            final(self).wf(),
            final(self).listeners_map() == spec_release(old(self).listeners_map(), topic@),
            task == spec_release_task(old(self).listeners_map(), topic@),
            final(self).registry_map() == old(self).registry_map(),
            final(self).writers_map() == old(self).writers_map(),
    {
        let ghost s0 = self.listeners@;
        let found = find_topic_index(&self.listeners, topic);
        match found {
            Some(i) => {
                proof {
                    lemma_lookup_topic_found(s0, i as int);
                }
                let entry = self.listeners.remove(i);
                let rc = entry.1.0;
                proof {
                    let s1 = self.listeners@;
                    assert(s1 == s0.remove(i as int));
                    assert(forall|j: int|
                        0 <= j < s1.len() ==> (#[trigger] s1[j]) == (if j < i {
                            s0[j]
                        } else {
                            s0[j + 1]
                        }));
                }
                if rc <= 1 {
                    proof {
                        let s1 = self.listeners@;
                        assert forall|t: Seq<char>| #[trigger]
                            lookup_topic(s1, t) == (if t == topic@ {
                                None
                            } else {
                                lookup_topic(s0, t)
                            }) by {
                            if t == topic@ {
                                lemma_lookup_topic_absent(s1, topic@);
                            } else {
                                lemma_lookup_topic_remove_other(s0, i as int, t);
                            }
                        }
                        assert(self.listeners_map() =~= spec_release(
                            old(self).listeners_map(),
                            topic@,
                        ));
                    }
                    Some(entry.1.1)
                } else {
                    let task = entry.1.1;
                    self.listeners.push((entry.0, (rc - 1, task)));
                    proof {
                        let s1 = s0.remove(i as int);
                        let s2 = self.listeners@;
                        let p = (entry.0, ((s0[i as int].1.0 - 1) as usize, s0[i as int].1.1));
                        assert(s2 == s1.push(p));
                        assert forall|t: Seq<char>| #[trigger]
                            lookup_topic(s2, t) == (if t == topic@ {
                                Some(p.1)
                            } else {
                                lookup_topic(s0, t)
                            }) by {
                            lemma_lookup_topic_push(s1, p, t);
                            if t != topic@ {
                                lemma_lookup_topic_remove_other(s0, i as int, t);
                            }
                        }
                        assert(self.listeners_map() =~= spec_release(
                            old(self).listeners_map(),
                            topic@,
                        ));
                        assert forall|a: int, b: int| 0 <= a < b < s2.len() implies (
                        #[trigger] s2[a]).0@ != (#[trigger] s2[b]).0@ by {
                            if b < s2.len() - 1 {
                                assert(s2[a] == (if a < i { s0[a] } else { s0[a + 1] }));
                                assert(s2[b] == (if b < i { s0[b] } else { s0[b + 1] }));
                            } else {
                                assert(s2[b].0@ == topic@);
                                assert(s2[a] == (if a < i { s0[a] } else { s0[a + 1] }));
                                let a0 = if a < i { a } else { a + 1 };
                                assert(s0[a0].0@ != s0[i as int].0@);
                            }
                        }
                    }
                    None
                }
            },
            None => {
                proof {
                    lemma_lookup_topic_absent(s0, topic@);
                    assert(self.listeners_map() =~= spec_release(
                        old(self).listeners_map(),
                        topic@,
                    ));
                }
                None
            },
        }
    }

    /// Borrows the cached writer handle for `topic`, if one was created.
    pub fn writer_for(&self, topic: Topic) -> (r: Option<&W>)
        requires
            self.wf(),
        ensures
            match r {
                Some(w) => self.writers_map().contains_key(topic@) && *w
                    == self.writers_map()[topic@],
                None => !self.writers_map().contains_key(topic@),
            },
    {
        let found = find_topic_index(&self.producers, topic);
        match found {
            Some(i) => {
                proof {
                    lemma_lookup_topic_found(self.producers@, i as int);
                }
                Some(&self.producers[i].1)
            },
            None => {
                proof {
                    lemma_lookup_topic_absent(self.producers@, topic@);
                }
                None
            },
        }
    }

    /// Caches the writer handle for `topic`; created once on the first
    /// publication and reused for the broker's lifetime.
    pub fn cache_writer(&mut self, topic: Topic, w: W)
        requires
            old(self).wf(),
            !old(self).writers_map().contains_key(topic@),
        ensures
            final(self).wf(),
            final(self).writers_map() == old(self).writers_map().insert(topic@, w),
            final(self).registry_map() == old(self).registry_map(),
            final(self).listeners_map() == old(self).listeners_map(),
    {
        let ghost s0 = self.producers@;
        self.producers.push((topic, w));
        proof {
            let s2 = self.producers@;
            assert forall|t: Seq<char>| #[trigger]
                lookup_topic(s2, t) == (if t == topic@ {
                    Some(w)
                } else {
                    lookup_topic(s0, t)
                }) by {
                lemma_lookup_topic_push(s0, (topic, w), t);
            }
            assert(self.writers_map() =~= old(self).writers_map().insert(topic@, w));
            assert forall|j: int| 0 <= j < s2.len() - 1 implies (#[trigger] s2[j]).0@ != topic@ by {
                if lookup_topic(s0, s2[j].0@) is None {
                    lemma_lookup_topic_found(s0, j);
                }
            }
        }
    }

    /// A listener entry exists for a topic if and only if some subscription
    /// still holds it: the reference count is the join point between "how
    /// many logical subscriptions exist" and "is the underlying stream still
    /// needed".
    pub proof fn lemma_listener_iff_refcount(&self, t: Seq<char>)
        requires
            self.wf(),
        ensures
            self.listeners_map().contains_key(t) <==> self.refcount_of(t) > 0,
    {
        if self.listeners_map().contains_key(t) {
            lemma_lookup_topic_is_entry(self.listeners@, t);
        }
    }

    /// Classifies one record pulled from a topic's stream: a record that is
    /// not the encoding of an event is skipped; a decoded event whose
    /// discriminant has a registered handler is delivered; a decoded event
    /// with no registered handler stops the listener.  Beware that stopping
    /// rather than skipping silently ends delivery for every discriminant
    /// still sharing the topic; this is the documented behaviour, kept as it
    /// is rather than quietly changed.
    pub fn listener_step(&self, record: &[u8]) -> (v: ListenerVerdict)
        requires
            self.wf(),
        ensures
            match v {
                ListenerVerdict::Skip => dec_event(record@) is None,
                ListenerVerdict::Deliver(e) => dec_event(record@) == Some(e@)
                    && self.registry_map().contains_key(e.type_spec()),
                ListenerVerdict::Stop => dec_event(record@) matches Some(ev)
                    && !self.registry_map().contains_key(type_of_view(ev)),
            },
    {
        match decode_event(record) {
            None => ListenerVerdict::Skip,
            Some(e) => {
                let et = e.event_type();
                if self.handler_for(et).is_some() {
                    ListenerVerdict::Deliver(e)
                } else {
                    proof {
                        lemma_type_of_view_agrees(e);
                    }
                    ListenerVerdict::Stop
                }
            },
        }
    }
}

/// What the topic listener does with one record of its stream.
pub enum ListenerVerdict {
    /// The record is not the encoding of an event: log and skip it.
    Skip,
    /// The record decoded and its discriminant has a handler: deliver the
    /// event to it.
    Deliver(Event),
    /// The record decoded but no handler is registered for its discriminant:
    /// the listener terminates.
    Stop,
}

/// Delivery: after registering handler `h` for an event's discriminant, a
/// published record of that event decodes back to a value-equal event, whose
/// discriminant the registry maps to `h` — so the listener's verdict on the
/// record is to deliver exactly that event, and [`EventBroker::handler_for`]
/// hands it to `h`.
pub proof fn lemma_delivery<H, W, L>(b0: EventBroker<H, W, L>, e: Event, h: H)
    requires
        b0.wf(),
        wf_event_v(e@),
    ensures
        ({
            let reg = b0.registry_map().insert(e.type_spec(), h);
            &&& dec_event(enc_event(e@)) == Some(e@)
            &&& reg.contains_key(type_of_view(e@))
            &&& reg[type_of_view(e@)] == h
        }),
{
    lemma_codec_round_trip(e@);
    lemma_type_of_view_agrees(e);
}

/// Isolation: a published record of an event whose discriminant differs from
/// `et1` decodes to a value of the event's own discriminant, so the
/// listener's verdict can only deliver to that discriminant's handler (see
/// [`EventBroker::listener_step`]) — never to the handler registered for
/// `et1`.
pub proof fn lemma_isolation(e2: Event, et1: EventType)
    requires
        wf_event_v(e2@),
        e2.type_spec() != et1,
    ensures
        dec_event(enc_event(e2@)) == Some(e2@),
        type_of_view(e2@) == e2.type_spec(),
        type_of_view(e2@) != et1,
{
    lemma_codec_round_trip(e2@);
    lemma_type_of_view_agrees(e2);
}

/// Unsubscribe: after removing the handler for an event's discriminant, a
/// published record of that event still decodes, but its discriminant has no
/// registry entry — the listener's verdict is to stop, and in particular the
/// removed handler is never invoked again.
pub proof fn lemma_unsubscribe<H, W, L>(b: EventBroker<H, W, L>, e: Event)
    requires
        b.wf(),
        wf_event_v(e@),
    ensures
        ({
            let reg = b.registry_map().remove(e.type_spec());
            &&& dec_event(enc_event(e@)) == Some(e@)
            &&& !reg.contains_key(type_of_view(e@))
        }),
{
    lemma_codec_round_trip(e@);
    lemma_type_of_view_agrees(e);
}

/// Override: registering `h1` and then `h2` for the same discriminant leaves
/// the registry exactly as if only `h2` had been registered; lookups under
/// that discriminant find `h2` and never `h1`.
pub proof fn lemma_override_subscribe<H>(reg: Map<EventType, H>, et: EventType, h1: H, h2: H)
    ensures
        reg.insert(et, h1).insert(et, h2) == reg.insert(et, h2),
        reg.insert(et, h1).insert(et, h2)[et] == h2,
{
    assert(reg.insert(et, h1).insert(et, h2) =~= reg.insert(et, h2));
}

/// Shared-topic reference counting: with two subscriptions multiplexed onto
/// one topic, releasing the first keeps the listener alive — same background
/// task, one reference left, nothing cancelled — while releasing the second
/// cancels the task, removes the entry and leaves the table as it began.
/// Listener bookkeeping never touches the registry (see the ensures of
/// [`EventBroker::install_listener`], [`EventBroker::retain_listener`] and
/// [`EventBroker::release_listener`]), so delivery for a discriminant that
/// stays subscribed keeps working throughout.
pub proof fn lemma_shared_topic_refcount<L>(m0: Map<Seq<char>, (usize, L)>, t: Seq<char>, task: L)
    requires
        !m0.contains_key(t),
    ensures
        ({
            // first subscribe installs the listener, second one retains it
            let m1 = m0.insert(t, (1usize, task));
            let m2 = m1.insert(t, ((m1[t].0 + 1) as usize, m1[t].1));
            // the two unsubscriptions release it in turn
            let m3 = spec_release(m2, t);
            let m4 = spec_release(m3, t);
            &&& m2[t].0 == 2
            &&& spec_release_task(m2, t) is None
            &&& m3.contains_key(t) && m3[t] == (1usize, task)
            &&& spec_release_task(m3, t) == Some(task)
            &&& !m4.contains_key(t)
            &&& m4 == m0
        }),
{
    let m1 = m0.insert(t, (1usize, task));
    let m2 = m1.insert(t, ((m1[t].0 + 1) as usize, m1[t].1));
    let m3 = spec_release(m2, t);
    let m4 = spec_release(m3, t);
    assert(m4 =~= m0);
}


} // verus!
