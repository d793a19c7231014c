use typed_pubsub::codec::{decode_event, encode_event};
use typed_pubsub::events::auth::{AuthEvent, UserCreated, UserLoggedIn, UserLoggedOut};
use typed_pubsub::events::group::{
    GroupCreatedEvent, GroupDeletedEvent, GroupEvent, GroupUserAddedEvent, GroupUserRemovedEvent,
};
use typed_pubsub::events::message::{MessageEvent, MessageSent};
use typed_pubsub::events::user::{
    FriendRequestAnswered, FriendRequestCreated, UserEvent, UserUpdated,
};
use typed_pubsub::events::Event;

fn all_event_kinds() -> Vec<Event> {
    vec![
        Event::UserEvent(UserEvent::UserUpdatedEvent(UserUpdated { id: String::from("u-1") })),
        Event::UserEvent(UserEvent::FriendRequestCreatedEvent(FriendRequestCreated {
            from_username: String::from("alice"),
        })),
        Event::UserEvent(UserEvent::FriendRequestAnsweredEvent(FriendRequestAnswered {
            from_username: String::from("bob"),
            accepted: false,
        })),
        Event::AuthEvent(AuthEvent::UserSignedUpEvent(UserCreated {
            id: String::from(""),
            username: String::from("héllo wörld"),
        })),
        Event::AuthEvent(AuthEvent::UserLoggedInEvent(UserLoggedIn {
            id: String::from("u-2"),
            username: String::from("carol"),
            login_time: i64::MAX,
        })),
        Event::AuthEvent(AuthEvent::UserLoggedOutEvent(UserLoggedOut {
            id: String::from("u-2"),
            logout_time: i64::MIN,
        })),
        Event::MessageEvent(MessageEvent::MessageSentEvent(MessageSent {
            channel_id: String::from("general"),
            sender: String::from("dave"),
            message: String::from("hello, world — ∀x"),
        })),
        Event::GroupEvent(GroupEvent::GroupCreatedEvent(GroupCreatedEvent {
            group_id: String::from("g-1"),
            owner_id: String::from("o-1"),
            channel_id: String::from("c-1"),
            member_ids: vec![String::from("a"), String::from(""), String::from("çç")],
        })),
        Event::GroupEvent(GroupEvent::GroupDeletedEvent(GroupDeletedEvent {
            group_id: String::from("g-1"),
            owner_id: String::from("o-1"),
            member_ids: vec![],
        })),
        Event::GroupEvent(GroupEvent::GroupUserAddedEvent(GroupUserAddedEvent {
            group_id: String::from("g-1"),
            user_id: String::from("u-3"),
        })),
        Event::GroupEvent(GroupEvent::GroupUserRemovedEvent(GroupUserRemovedEvent {
            group_id: String::from("g-1"),
            user_id: String::from("u-3"),
        })),
    ]
}

#[test]
fn every_event_kind_round_trips() {
    for e in all_event_kinds() {
        let bytes = encode_event(&e);
        let back = decode_event(&bytes);
        assert_eq!(back, Some(e));
    }
}

#[test]
fn exact_encoding_of_a_message_event() {
    let e = Event::MessageEvent(MessageEvent::MessageSentEvent(MessageSent {
        channel_id: String::from("a"),
        sender: String::from("b"),
        message: String::from("c"),
    }));
    let bytes = encode_event(&e);
    let expected: Vec<u8> = vec![
        3, // service tag: message
        1, // kind tag: sent
        1, 0, 0, 0, 0, 0, 0, 0, b'a', // channel_id
        1, 0, 0, 0, 0, 0, 0, 0, b'b', // sender
        1, 0, 0, 0, 0, 0, 0, 0, b'c', // message
    ];
    assert_eq!(bytes, expected);
}

#[test]
fn exact_encoding_of_a_negative_timestamp() {
    let e = Event::AuthEvent(AuthEvent::UserLoggedOutEvent(UserLoggedOut {
        id: String::from("x"),
        logout_time: -1,
    }));
    let bytes = encode_event(&e);
    let expected: Vec<u8> = vec![
        2, // service tag: auth
        3, // kind tag: logged out
        1, 0, 0, 0, 0, 0, 0, 0, b'x', // id
        // -1 shifted into the unsigned range is 2^63 - 1, little endian
        0xff, 0xff, 0xff, 0xff, 0xff, 0xff, 0xff, 0x7f,
    ];
    assert_eq!(bytes, expected);
}

#[test]
fn decode_rejects_garbage() {
    assert_eq!(decode_event(&[]), None);
    assert_eq!(decode_event(&[0]), None); // no such service tag
    assert_eq!(decode_event(&[9, 1]), None); // no such service tag
    assert_eq!(decode_event(&[1]), None); // missing kind tag
    assert_eq!(decode_event(&[1, 9]), None); // no such user kind
    assert_eq!(decode_event(&[2, 9]), None); // no such auth kind
    assert_eq!(decode_event(&[3, 2]), None); // no such message kind
    assert_eq!(decode_event(&[4, 5]), None); // no such group kind
}

#[test]
fn decode_rejects_truncated_records() {
    let e = Event::UserEvent(UserEvent::UserUpdatedEvent(UserUpdated {
        id: String::from("user"),
    }));
    let bytes = encode_event(&e);
    for cut in 0..bytes.len() {
        assert_eq!(decode_event(&bytes[..cut]), None);
    }
}

#[test]
fn decode_rejects_trailing_bytes() {
    let e = Event::UserEvent(UserEvent::UserUpdatedEvent(UserUpdated { id: String::from("u") }));
    let mut bytes = encode_event(&e);
    bytes.push(0);
    assert_eq!(decode_event(&bytes), None);
}

#[test]
fn decode_rejects_invalid_utf8() {
    // user service, user-updated kind, one-byte id that is not UTF-8
    let bytes: Vec<u8> = vec![1, 1, 1, 0, 0, 0, 0, 0, 0, 0, 0xff];
    assert_eq!(decode_event(&bytes), None);
}

#[test]
fn decode_rejects_bad_boolean_byte() {
    // user service, friend-request-answered kind, empty username, flag byte 2
    let bytes: Vec<u8> = vec![1, 3, 0, 0, 0, 0, 0, 0, 0, 0, 2];
    assert_eq!(decode_event(&bytes), None);
}

#[test]
fn empty_strings_and_lists_round_trip() {
    let e = Event::GroupEvent(GroupEvent::GroupCreatedEvent(GroupCreatedEvent {
        group_id: String::new(),
        owner_id: String::new(),
        channel_id: String::new(),
        member_ids: vec![],
    }));
    let bytes = encode_event(&e);
    assert_eq!(decode_event(&bytes), Some(e));
}
