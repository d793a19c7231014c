use typed_pubsub::events::auth::{AuthEvent, AuthEventType, UserCreated, UserLoggedIn, UserLoggedOut};
use typed_pubsub::events::group::{
    GroupCreatedEvent, GroupDeletedEvent, GroupEvent, GroupEventType, GroupUserAddedEvent,
    GroupUserRemovedEvent,
};
use typed_pubsub::events::message::{MessageEvent, MessageEventType, MessageSent};
use typed_pubsub::events::user::{
    FriendRequestAnswered, FriendRequestCreated, UserEvent, UserEventType, UserUpdated,
};
use typed_pubsub::events::{Event, EventInner, EventType, EventTypeInner};
use typed_pubsub::publisher::topic::{topic_known, KeyEvent, TopicEvent};
use typed_pubsub::publisher::TypedEvent;

fn sample_message_event() -> Event {
    Event::MessageEvent(MessageEvent::MessageSentEvent(MessageSent {
        channel_id: String::from("Test"),
        sender: String::from("Test"),
        message: String::from("Test"),
    }))
}

#[test]
fn event_type_topics() {
    assert_eq!(EventType::User(UserEventType::Updated).event_topic(), "user-updated");
    assert_eq!(EventType::User(UserEventType::Friendship).event_topic(), "user-friendship");
    assert_eq!(EventType::Auth(AuthEventType::SignedUp).event_topic(), "auth-signed");
    assert_eq!(EventType::Auth(AuthEventType::Logged).event_topic(), "auth-logged");
    assert_eq!(EventType::Message(MessageEventType::Sent).event_topic(), "message-sent");
    assert_eq!(EventType::Group(GroupEventType::Groups).event_topic(), "group-groups");
    assert_eq!(EventType::Group(GroupEventType::Members).event_topic(), "group-members");
}

#[test]
fn event_types_and_topics_match() {
    let user_updated = Event::UserEvent(UserEvent::UserUpdatedEvent(UserUpdated {
        id: String::from("u1"),
    }));
    assert_eq!(user_updated.event_type(), EventType::User(UserEventType::Updated));
    assert_eq!(user_updated.event_topic(), "user-updated");

    let friend_created =
        Event::UserEvent(UserEvent::FriendRequestCreatedEvent(FriendRequestCreated {
            from_username: String::from("alice"),
        }));
    assert_eq!(friend_created.event_type(), EventType::User(UserEventType::Friendship));
    assert_eq!(friend_created.event_topic(), "user-friendship");

    let friend_answered =
        Event::UserEvent(UserEvent::FriendRequestAnsweredEvent(FriendRequestAnswered {
            from_username: String::from("bob"),
            accepted: true,
        }));
    assert_eq!(friend_answered.event_type(), EventType::User(UserEventType::Friendship));
    assert_eq!(friend_answered.event_topic(), "user-friendship");

    let signed_up = Event::AuthEvent(AuthEvent::UserSignedUpEvent(UserCreated {
        id: String::from("u2"),
        username: String::from("carol"),
    }));
    assert_eq!(signed_up.event_type(), EventType::Auth(AuthEventType::SignedUp));
    assert_eq!(signed_up.event_topic(), "auth-signed");

    let logged_in = Event::AuthEvent(AuthEvent::UserLoggedInEvent(UserLoggedIn {
        id: String::from("u2"),
        username: String::from("carol"),
        login_time: 12345,
    }));
    assert_eq!(logged_in.event_type(), EventType::Auth(AuthEventType::Logged));
    assert_eq!(logged_in.event_topic(), "auth-logged");

    let logged_out = Event::AuthEvent(AuthEvent::UserLoggedOutEvent(UserLoggedOut {
        id: String::from("u2"),
        logout_time: -7,
    }));
    assert_eq!(logged_out.event_type(), EventType::Auth(AuthEventType::Logged));
    assert_eq!(logged_out.event_topic(), "auth-logged");

    let message = sample_message_event();
    assert_eq!(message.event_type(), EventType::Message(MessageEventType::Sent));
    assert_eq!(message.event_topic(), "message-sent");

    let group_created = Event::GroupEvent(GroupEvent::GroupCreatedEvent(GroupCreatedEvent {
        group_id: String::from("g"),
        owner_id: String::from("o"),
        channel_id: String::from("c"),
        member_ids: vec![String::from("a"), String::from("b")],
    }));
    assert_eq!(group_created.event_type(), EventType::Group(GroupEventType::Groups));
    assert_eq!(group_created.event_topic(), "group-groups");

    let group_deleted = Event::GroupEvent(GroupEvent::GroupDeletedEvent(GroupDeletedEvent {
        group_id: String::from("g"),
        owner_id: String::from("o"),
        member_ids: vec![],
    }));
    assert_eq!(group_deleted.event_type(), EventType::Group(GroupEventType::Groups));
    assert_eq!(group_deleted.event_topic(), "group-groups");

    let member_added = Event::GroupEvent(GroupEvent::GroupUserAddedEvent(GroupUserAddedEvent {
        group_id: String::from("g"),
        user_id: String::from("u"),
    }));
    assert_eq!(member_added.event_type(), EventType::Group(GroupEventType::Members));
    assert_eq!(member_added.event_topic(), "group-members");

    let member_removed =
        Event::GroupEvent(GroupEvent::GroupUserRemovedEvent(GroupUserRemovedEvent {
            group_id: String::from("g"),
            user_id: String::from("u"),
        }));
    assert_eq!(member_removed.event_type(), EventType::Group(GroupEventType::Members));
    assert_eq!(member_removed.event_topic(), "group-members");
}

#[test]
fn routing_is_deterministic_and_payload_free() {
    // Repeated calls agree.
    let e = sample_message_event();
    assert_eq!(e.event_topic(), e.event_topic());
    assert_eq!(e.event_type(), e.event_type());

    // Two events of the same variant with different payloads yield equal
    // discriminants and topics.
    let e1 = Event::UserEvent(UserEvent::UserUpdatedEvent(UserUpdated {
        id: String::from("one"),
    }));
    let e2 = Event::UserEvent(UserEvent::UserUpdatedEvent(UserUpdated {
        id: String::from("another"),
    }));
    assert_eq!(e1.event_type(), e2.event_type());
    assert_eq!(e1.event_topic(), e2.event_topic());
}

#[test]
fn event_keys_are_null() {
    let events = vec![
        sample_message_event(),
        Event::UserEvent(UserEvent::UserUpdatedEvent(UserUpdated { id: String::from("u") })),
        Event::AuthEvent(AuthEvent::UserSignedUpEvent(UserCreated {
            id: String::from("i"),
            username: String::from("n"),
        })),
        Event::GroupEvent(GroupEvent::GroupUserAddedEvent(GroupUserAddedEvent {
            group_id: String::from("g"),
            user_id: String::from("u"),
        })),
    ];
    for e in &events {
        assert_eq!(e.event_key(), None);
    }
}

#[test]
fn inner_delegates_to_the_wrapped_domain() {
    let e = sample_message_event();
    match e.inner() {
        EventInner::Message(m) => {
            assert_eq!(m.event_topic(), "message-sent");
        }
        _ => panic!("wrong domain"),
    }
    let et = EventType::Group(GroupEventType::Members);
    match et.inner() {
        EventTypeInner::Group(g) => {
            assert_eq!(g, GroupEventType::Members);
            assert_eq!(g.event_topic(), "group-members");
        }
        _ => panic!("wrong domain"),
    }
}

#[test]
fn every_event_type_has_its_own_topic() {
    let all = [
        EventType::User(UserEventType::Updated),
        EventType::User(UserEventType::Friendship),
        EventType::Auth(AuthEventType::SignedUp),
        EventType::Auth(AuthEventType::Logged),
        EventType::Message(MessageEventType::Sent),
        EventType::Group(GroupEventType::Groups),
        EventType::Group(GroupEventType::Members),
    ];
    let topics: std::collections::HashSet<&'static str> =
        all.iter().map(|t| t.event_topic()).collect();
    assert_eq!(topics.len(), all.len());
}

#[test]
fn topic_known_checks_membership_by_content() {
    let names = vec![String::from("other"), String::from("message-sent")];
    assert!(topic_known(&names, "message-sent"));
    assert!(!topic_known(&names, "user-updated"));
    assert!(!topic_known(&Vec::new(), "message-sent"));
    assert!(topic_known(&vec![String::new()], ""));
}

#[test]
fn event_type_is_ordered_and_copyable() {
    let a = EventType::User(UserEventType::Updated);
    let b = EventType::Group(GroupEventType::Members);
    let c = a;
    assert_eq!(a, c);
    assert!(a < b || b < a);
    assert_eq!(a.cmp(&a), std::cmp::Ordering::Equal);
}
