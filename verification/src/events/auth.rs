//! Authentication domain events: sign-up, log-in and log-out.

use vstd::prelude::*;

use crate::events::EventType;
use crate::publisher::topic::KeyEvent;
use crate::publisher::topic::Topic;
use crate::publisher::topic::TopicEvent;
use crate::publisher::TypedEvent;

verus! {

/// Payload of the "user signed up" event.
#[derive(Debug, Clone, Default, PartialEq, Eq)]
pub struct UserCreated {
    pub id: String,
    pub username: String,
}

/// Mathematical view of [`UserCreated`].
pub ghost struct UserCreatedV {
    pub id: Seq<char>,
    pub username: Seq<char>,
}

impl View for UserCreated {
    type V = UserCreatedV;

    open spec fn view(&self) -> UserCreatedV {
        UserCreatedV { id: self.id@, username: self.username@ }
    }
}

/// Payload of the "user logged in" event.
#[derive(Debug, Clone, Default, PartialEq, Eq)]
pub struct UserLoggedIn {
    pub id: String,
    pub username: String,
    pub login_time: i64,
}

/// Mathematical view of [`UserLoggedIn`].
pub ghost struct UserLoggedInV {
    pub id: Seq<char>,
    pub username: Seq<char>,
    pub login_time: i64,
}

impl View for UserLoggedIn {
    type V = UserLoggedInV;

    open spec fn view(&self) -> UserLoggedInV {
        UserLoggedInV { id: self.id@, username: self.username@, login_time: self.login_time }
    }
}

/// Payload of the "user logged out" event.
#[derive(Debug, Clone, Default, PartialEq, Eq)]
pub struct UserLoggedOut {
    pub id: String,
    pub logout_time: i64,
}

/// Mathematical view of [`UserLoggedOut`].
pub ghost struct UserLoggedOutV {
    pub id: Seq<char>,
    pub logout_time: i64,
}

impl View for UserLoggedOut {
    type V = UserLoggedOutV;

    open spec fn view(&self) -> UserLoggedOutV {
        UserLoggedOutV { id: self.id@, logout_time: self.logout_time }
    }
}

/// An authentication domain event.
#[derive(Debug, Clone, PartialEq, Eq)]
pub enum AuthEvent {
    UserSignedUpEvent(UserCreated),
    UserLoggedInEvent(UserLoggedIn),
    UserLoggedOutEvent(UserLoggedOut),
}

/// Mathematical view of [`AuthEvent`].
pub ghost enum AuthEventV {
    UserSignedUpEvent(UserCreatedV),
    UserLoggedInEvent(UserLoggedInV),
    UserLoggedOutEvent(UserLoggedOutV),
}

impl View for AuthEvent {
    type V = AuthEventV;

    open spec fn view(&self) -> AuthEventV {
        match self {
            AuthEvent::UserSignedUpEvent(p) => AuthEventV::UserSignedUpEvent(p@),
            AuthEvent::UserLoggedInEvent(p) => AuthEventV::UserLoggedInEvent(p@),
            AuthEvent::UserLoggedOutEvent(p) => AuthEventV::UserLoggedOutEvent(p@),
        }
    }
}

/// The payload-free discriminants of the authentication domain.  Sign-up has
/// a topic of its own; log-in and log-out share one.
#[derive(Debug, Clone, Copy, Hash, PartialEq, Eq, PartialOrd, Ord, Structural)]
pub enum AuthEventType {
    SignedUp,
    Logged,
}

impl TopicEvent for AuthEventType {
    open spec fn topic_spec(&self) -> Seq<char> {
        match self {
            AuthEventType::SignedUp => "auth-signed"@,
            AuthEventType::Logged => "auth-logged"@,
        }
    }

    fn event_topic(&self) -> (t: Topic) {
        match self {
            AuthEventType::SignedUp => "auth-signed",
            AuthEventType::Logged => "auth-logged",
        }
    }
}

impl TopicEvent for AuthEvent {
    open spec fn topic_spec(&self) -> Seq<char> {
        self.type_spec().topic_spec()
    }

    fn event_topic(&self) -> (t: Topic) {
        self.event_type().event_topic()
    }
}

impl KeyEvent for AuthEvent {
    open spec fn key_spec(&self) -> Option<Seq<u8>> {
        match self {
            AuthEvent::UserSignedUpEvent(_) => None,
            AuthEvent::UserLoggedInEvent(_) => None,
            AuthEvent::UserLoggedOutEvent(_) => None,
        }
    }

    fn event_key(&self) -> (k: Option<Vec<u8>>) {
        match self {
            AuthEvent::UserSignedUpEvent(_) => None,
            AuthEvent::UserLoggedInEvent(_) => None,
            AuthEvent::UserLoggedOutEvent(_) => None,
        }
    }
}

impl TypedEvent for AuthEvent {
    type EventType = EventType;

    open spec fn type_spec(&self) -> EventType {
        EventType::Auth(
            match self {
                AuthEvent::UserSignedUpEvent(_) => AuthEventType::SignedUp,
                AuthEvent::UserLoggedInEvent(_) => AuthEventType::Logged,
                AuthEvent::UserLoggedOutEvent(_) => AuthEventType::Logged,
            },
        )
    }

    fn event_type(&self) -> (t: EventType) {
        EventType::Auth(
            match self {
                AuthEvent::UserSignedUpEvent(_) => AuthEventType::SignedUp,
                AuthEvent::UserLoggedInEvent(_) => AuthEventType::Logged,
                AuthEvent::UserLoggedOutEvent(_) => AuthEventType::Logged,
            },
        )
    }
}

} // verus!
