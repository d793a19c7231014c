//! User domain events: profile updates and friend requests.

use vstd::prelude::*;

use crate::events::EventType;
use crate::publisher::topic::KeyEvent;
use crate::publisher::topic::Topic;
use crate::publisher::topic::TopicEvent;
use crate::publisher::TypedEvent;

verus! {

/// Payload of the "user updated" event.
#[derive(Debug, Clone, Default, PartialEq, Eq)]
pub struct UserUpdated {
    pub id: String,
}

/// Mathematical view of [`UserUpdated`].
pub ghost struct UserUpdatedV {
    pub id: Seq<char>,
}

impl View for UserUpdated {
    type V = UserUpdatedV;

    open spec fn view(&self) -> UserUpdatedV {
        UserUpdatedV { id: self.id@ }
    }
}

/// Payload of the "friend request created" event.
#[derive(Debug, Clone, Default, PartialEq, Eq)]
pub struct FriendRequestCreated {
    pub from_username: String,
}

/// Mathematical view of [`FriendRequestCreated`].
pub ghost struct FriendRequestCreatedV {
    pub from_username: Seq<char>,
}

impl View for FriendRequestCreated {
    type V = FriendRequestCreatedV;

    open spec fn view(&self) -> FriendRequestCreatedV {
        FriendRequestCreatedV { from_username: self.from_username@ }
    }
}

/// Payload of the "friend request answered" event.
#[derive(Debug, Clone, Default, PartialEq, Eq)]
pub struct FriendRequestAnswered {
    pub from_username: String,
    pub accepted: bool,
}

/// Mathematical view of [`FriendRequestAnswered`].
pub ghost struct FriendRequestAnsweredV {
    pub from_username: Seq<char>,
    pub accepted: bool,
}

impl View for FriendRequestAnswered {
    type V = FriendRequestAnsweredV;

    open spec fn view(&self) -> FriendRequestAnsweredV {
        FriendRequestAnsweredV { from_username: self.from_username@, accepted: self.accepted }
    }
}

/// A user domain event.
#[derive(Debug, Clone, PartialEq, Eq)]
pub enum UserEvent {
    UserUpdatedEvent(UserUpdated),
    FriendRequestCreatedEvent(FriendRequestCreated),
    FriendRequestAnsweredEvent(FriendRequestAnswered),
}

/// Mathematical view of [`UserEvent`].
pub ghost enum UserEventV {
    UserUpdatedEvent(UserUpdatedV),
    FriendRequestCreatedEvent(FriendRequestCreatedV),
    FriendRequestAnsweredEvent(FriendRequestAnsweredV),
}

impl View for UserEvent {
    type V = UserEventV;

    open spec fn view(&self) -> UserEventV {
        match self {
            UserEvent::UserUpdatedEvent(p) => UserEventV::UserUpdatedEvent(p@),
            UserEvent::FriendRequestCreatedEvent(p) => UserEventV::FriendRequestCreatedEvent(p@),
            UserEvent::FriendRequestAnsweredEvent(p) => UserEventV::FriendRequestAnsweredEvent(
                p@,
            ),
        }
    }
}

/// The payload-free discriminants of the user domain.  Profile updates have a
/// topic of their own; the two friendship events share one.
#[derive(Debug, Clone, Copy, Hash, PartialEq, Eq, PartialOrd, Ord, Structural)]
pub enum UserEventType {
    Updated,
    Friendship,
}

impl TopicEvent for UserEventType {
    open spec fn topic_spec(&self) -> Seq<char> {
        match self {
            UserEventType::Updated => "user-updated"@,
            UserEventType::Friendship => "user-friendship"@,
        }
    }

    fn event_topic(&self) -> (t: Topic) {
        match self {
            UserEventType::Updated => "user-updated",
            UserEventType::Friendship => "user-friendship",
        }
    }
}

impl TopicEvent for UserEvent {
    open spec fn topic_spec(&self) -> Seq<char> {
        self.type_spec().topic_spec()
    }

    fn event_topic(&self) -> (t: Topic) {
        self.event_type().event_topic()
    }
}

impl KeyEvent for UserEvent {
    open spec fn key_spec(&self) -> Option<Seq<u8>> {
        None
    }

    fn event_key(&self) -> (k: Option<Vec<u8>>) {
        None
    }
}

impl TypedEvent for UserEvent {
    type EventType = EventType;

    open spec fn type_spec(&self) -> EventType {
        EventType::User(
            match self {
                UserEvent::UserUpdatedEvent(_) => UserEventType::Updated,
                UserEvent::FriendRequestCreatedEvent(_) => UserEventType::Friendship,
                UserEvent::FriendRequestAnsweredEvent(_) => UserEventType::Friendship,
            },
        )
    }

    fn event_type(&self) -> (t: EventType) {
        EventType::User(
            match self {
                UserEvent::UserUpdatedEvent(_) => UserEventType::Updated,
                UserEvent::FriendRequestCreatedEvent(_) => UserEventType::Friendship,
                UserEvent::FriendRequestAnsweredEvent(_) => UserEventType::Friendship,
            },
        )
    }
}

} // verus!
