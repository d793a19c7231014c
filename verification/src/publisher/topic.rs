//! Topics: the coarse-grained named streams of the underlying transport, and
//! the pure routing functions from events onto them.

use vstd::prelude::*;

verus! {

/// A static, interned name identifying a transport-level partition stream.
pub type Topic = &'static str;

/// An event (or event discriminant) that routes to a topic.  Routing is a
/// pure, total function: every variant has exactly one topic, and the same
/// variant always yields the same topic.
pub trait TopicEvent {
    /// The topic this value routes to, as a pure, total function of its
    /// variant.
    spec fn topic_spec(&self) -> Seq<char>;

    /// Returns the topic this value routes to.  The result is determined by
    /// `topic_spec`, so repeated calls on equal values agree.
    fn event_topic(&self) -> (t: Topic)
        ensures
            t@ == self.topic_spec(),
    ;
}

/// Compares two strings by character content.
pub(crate) fn str_eq(a: &str, b: &str) -> (r: bool)
    ensures
        r == (a@ == b@),
{
    let ab = a.as_bytes();
    let bb = b.as_bytes();
    if ab.len() != bb.len() {
        proof {
            if a@ == b@ {
                assert(ab@ =~= bb@);
            }
        }
        return false;
    }
    let n = ab.len();
    let mut i: usize = 0;
    while i < n
        invariant
            i <= n,
            n == ab@.len() == bb@.len(),
            ab@ == vstd::utf8::encode_utf8(a@),
            bb@ == vstd::utf8::encode_utf8(b@),
            forall|j: int| 0 <= j < i ==> ab@[j] == bb@[j],
        decreases n - i,
    {
        if ab[i] != bb[i] {
            proof {
                if a@ == b@ {
                    assert(ab@ =~= bb@);
                }
            }
            return false;
        }
        i += 1;
    }
    proof {
        assert(ab@ =~= bb@);
        vstd::utf8::encode_utf8_decode_utf8(a@);
        vstd::utf8::encode_utf8_decode_utf8(b@);
    }
    true
}

/// Whether `topic` already appears in a listing of existing topic names: the
/// check behind idempotent check-then-create topic creation.
pub fn topic_known(names: &Vec<String>, topic: &str) -> (r: bool)
    ensures
        r == exists|i: int| 0 <= i < names@.len() && (#[trigger] names@[i])@ == topic@,
{
    let mut i: usize = 0;
    while i < names.len()
        invariant
            i <= names@.len(),
            forall|j: int| 0 <= j < i ==> (#[trigger] names@[j])@ != topic@,
        decreases names@.len() - i,
    {
        if str_eq(names[i].as_str(), topic) {
            return true;
        }
        i += 1;
    }
    false
}

/// An event with a partition key: an optional byte key the transport uses to
/// pick a partition and ordering domain.  `None` means "no ordering
/// preference".
pub trait KeyEvent {
    /// The partition key of this event, as a pure, total function of the
    /// event.
    spec fn key_spec(&self) -> Option<Seq<u8>>;

    /// Returns the partition key of this event.
    fn event_key(&self) -> (k: Option<Vec<u8>>)
        ensures
            match k {
                Some(v) => self.key_spec() == Some(v@),
                None => self.key_spec() is None,
            },
    ;
}

} // verus!
