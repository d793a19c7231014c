//! The publishing side of the event layer: the pure routing traits and the
//! broker core that the surrounding asynchronous process drives.

pub mod broker;
pub mod topic;

use vstd::prelude::*;

verus! {

/// An event with a payload-free discriminant ("event type") identifying its
/// variant.  Two events of the same variant always yield equal discriminants,
/// whatever their payloads.
pub trait TypedEvent {
    type EventType;

    /// The discriminant of this event, as a pure, total function of its
    /// variant.
    spec fn type_spec(&self) -> Self::EventType;

    /// Returns the discriminant of this event.  The result is determined by
    /// `type_spec`, so repeated calls on equal values agree.
    fn event_type(&self) -> (t: Self::EventType)
        ensures
            t == self.type_spec(),
    ;
}

} // verus!
