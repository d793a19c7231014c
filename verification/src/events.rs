//! The event taxonomy: the closed sum type of domain events, its payload-free
//! discriminant counterpart, and the pure, total routing functions every
//! variant provides.

pub mod auth;
pub mod group;
pub mod message;
pub mod user;

use vstd::prelude::*;

use crate::events::auth::AuthEvent;
use crate::events::auth::AuthEventType;
use crate::events::auth::AuthEventV;
use crate::events::group::GroupEvent;
use crate::events::group::GroupEventType;
use crate::events::group::GroupEventV;
use crate::events::message::MessageEvent;
use crate::events::message::MessageEventType;
use crate::events::message::MessageEventV;
use crate::events::user::UserEvent;
use crate::events::user::UserEventType;
use crate::events::user::UserEventV;
use crate::publisher::topic::KeyEvent;
use crate::publisher::topic::Topic;
use crate::publisher::topic::TopicEvent;
use crate::publisher::TypedEvent;

verus! {

/// A domain event: the closed sum of all event domains.  Each variant wraps a
/// domain-level sum type of concrete event kinds.
#[derive(Debug, Clone, PartialEq, Eq)]
pub enum Event {
    UserEvent(UserEvent),
    AuthEvent(AuthEvent),
    MessageEvent(MessageEvent),
    GroupEvent(GroupEvent),
}

/// Mathematical view of [`Event`].
pub ghost enum EventV {
    UserEvent(UserEventV),
    AuthEvent(AuthEventV),
    MessageEvent(MessageEventV),
    GroupEvent(GroupEventV),
}

impl View for Event {
    type V = EventV;

    open spec fn view(&self) -> EventV {
        match self {
            Event::UserEvent(e) => EventV::UserEvent(e@),
            Event::AuthEvent(e) => EventV::AuthEvent(e@),
            Event::MessageEvent(e) => EventV::MessageEvent(e@),
            Event::GroupEvent(e) => EventV::GroupEvent(e@),
        }
    }
}

/// The payload-free identity of an event's variant, mirroring [`Event`] one
/// level deep.  Used as the registry and dispatch key.
#[derive(Debug, Clone, Copy, Hash, PartialEq, Eq, PartialOrd, Ord, Structural)]
pub enum EventType {
    User(UserEventType),
    Auth(AuthEventType),
    Message(MessageEventType),
    Group(GroupEventType),
}

/// The domain-level event an [`Event`] wraps; routing and typing delegate to
/// it.
pub enum EventInner<'a> {
    User(&'a UserEvent),
    Auth(&'a AuthEvent),
    Message(&'a MessageEvent),
    Group(&'a GroupEvent),
}

/// The domain-level discriminant an [`EventType`] wraps; routing delegates to
/// it.
#[derive(Debug, Clone, Copy, PartialEq, Eq, Structural)]
pub enum EventTypeInner {
    User(UserEventType),
    Auth(AuthEventType),
    Message(MessageEventType),
    Group(GroupEventType),
}

impl Event {
    /// Borrows the domain-level event this event wraps.
    pub fn inner(&self) -> (r: EventInner<'_>)
        ensures
            match self {
                Event::UserEvent(e) => r matches EventInner::User(i) && i == e,
                Event::AuthEvent(e) => r matches EventInner::Auth(i) && i == e,
                Event::MessageEvent(e) => r matches EventInner::Message(i) && i == e,
                Event::GroupEvent(e) => r matches EventInner::Group(i) && i == e,
            },
    {
        match self {
            Event::UserEvent(event) => EventInner::User(event),
            Event::AuthEvent(event) => EventInner::Auth(event),
            Event::MessageEvent(event) => EventInner::Message(event),
            Event::GroupEvent(event) => EventInner::Group(event),
        }
    }
}

impl EventType {
    /// Extracts the domain-level discriminant this discriminant wraps.
    pub fn inner(&self) -> (r: EventTypeInner)
        ensures
            match self {
                EventType::User(t) => r == EventTypeInner::User(*t),
                EventType::Auth(t) => r == EventTypeInner::Auth(*t),
                EventType::Message(t) => r == EventTypeInner::Message(*t),
                EventType::Group(t) => r == EventTypeInner::Group(*t),
            },
    {
        match self {
            EventType::User(event_type) => EventTypeInner::User(*event_type),
            EventType::Auth(event_type) => EventTypeInner::Auth(*event_type),
            EventType::Message(event_type) => EventTypeInner::Message(*event_type),
            EventType::Group(event_type) => EventTypeInner::Group(*event_type),
        }
    }
}

impl TopicEvent for EventType {
    open spec fn topic_spec(&self) -> Seq<char> {
        match self {
            EventType::User(t) => t.topic_spec(),
            EventType::Auth(t) => t.topic_spec(),
            EventType::Message(t) => t.topic_spec(),
            EventType::Group(t) => t.topic_spec(),
        }
    }

    fn event_topic(&self) -> (t: Topic) {
        match self.inner() {
            EventTypeInner::User(event_type) => event_type.event_topic(),
            EventTypeInner::Auth(event_type) => event_type.event_topic(),
            EventTypeInner::Message(event_type) => event_type.event_topic(),
            EventTypeInner::Group(event_type) => event_type.event_topic(),
        }
    }
}

impl TopicEvent for Event {
    open spec fn topic_spec(&self) -> Seq<char> {
        match self {
            Event::UserEvent(e) => e.topic_spec(),
            Event::AuthEvent(e) => e.topic_spec(),
            Event::MessageEvent(e) => e.topic_spec(),
            Event::GroupEvent(e) => e.topic_spec(),
        }
    }

    fn event_topic(&self) -> (t: Topic) {
        match self.inner() {
            EventInner::User(event) => event.event_topic(),
            EventInner::Auth(event) => event.event_topic(),
            EventInner::Message(event) => event.event_topic(),
            EventInner::Group(event) => event.event_topic(),
        }
    }
}

impl KeyEvent for Event {
    open spec fn key_spec(&self) -> Option<Seq<u8>> {
        match self {
            Event::UserEvent(e) => e.key_spec(),
            Event::AuthEvent(e) => e.key_spec(),
            Event::MessageEvent(e) => e.key_spec(),
            Event::GroupEvent(e) => e.key_spec(),
        }
    }

    fn event_key(&self) -> (k: Option<Vec<u8>>) {
        match self.inner() {
            EventInner::User(event) => event.event_key(),
            EventInner::Auth(event) => event.event_key(),
            EventInner::Message(event) => event.event_key(),
            EventInner::Group(event) => event.event_key(),
        }
    }
}

impl TypedEvent for Event {
    type EventType = EventType;

    open spec fn type_spec(&self) -> EventType {
        match self {
            Event::UserEvent(e) => e.type_spec(),
            Event::AuthEvent(e) => e.type_spec(),
            Event::MessageEvent(e) => e.type_spec(),
            Event::GroupEvent(e) => e.type_spec(),
        }
    }

    fn event_type(&self) -> (t: EventType) {
        match self.inner() {
            EventInner::User(event) => event.event_type(),
            EventInner::Auth(event) => event.event_type(),
            EventInner::Message(event) => event.event_type(),
            EventInner::Group(event) => event.event_type(),
        }
    }
}

/// The discriminant of an event, read off its mathematical view.  Agrees with
/// [`TypedEvent::type_spec`] on every event (see
/// [`lemma_type_of_view_agrees`]).
pub open spec fn type_of_view(ev: EventV) -> EventType {
    match ev {
        EventV::UserEvent(e) => EventType::User(
            match e {
                UserEventV::UserUpdatedEvent(_) => UserEventType::Updated,
                UserEventV::FriendRequestCreatedEvent(_) => UserEventType::Friendship,
                UserEventV::FriendRequestAnsweredEvent(_) => UserEventType::Friendship,
            },
        ),
        EventV::AuthEvent(e) => EventType::Auth(
            match e {
                AuthEventV::UserSignedUpEvent(_) => AuthEventType::SignedUp,
                AuthEventV::UserLoggedInEvent(_) => AuthEventType::Logged,
                AuthEventV::UserLoggedOutEvent(_) => AuthEventType::Logged,
            },
        ),
        EventV::MessageEvent(e) => EventType::Message(
            match e {
                MessageEventV::MessageSentEvent(_) => MessageEventType::Sent,
            },
        ),
        EventV::GroupEvent(e) => EventType::Group(
            match e {
                GroupEventV::GroupCreatedEvent(_) => GroupEventType::Groups,
                GroupEventV::GroupDeletedEvent(_) => GroupEventType::Groups,
                GroupEventV::GroupUserAddedEvent(_) => GroupEventType::Members,
                GroupEventV::GroupUserRemovedEvent(_) => GroupEventType::Members,
            },
        ),
    }
}

/// The discriminant of an event is visible on its view: reading it off the
/// view or off the event itself gives the same result.
pub proof fn lemma_type_of_view_agrees(e: Event)
    ensures
        type_of_view(e@) == e.type_spec(),
{
}

/// Routing totality and determinism: an event's topic and discriminant are
/// pure, total functions of the event's variant.  Two events of the same
/// variant (that is, with equal discriminants) always route to the same
/// topic, whatever their payloads.
pub proof fn lemma_routing_deterministic(e1: Event, e2: Event)
    requires
        e1.type_spec() == e2.type_spec(),
    ensures
        e1.topic_spec() == e2.topic_spec(),
{
}

/// The two routing paths agree: asking an event for its topic and asking its
/// discriminant for the topic give the same answer.
pub proof fn lemma_topic_via_type(e: Event)
    ensures
        e.topic_spec() == e.type_spec().topic_spec(),
{
}

} // verus!
