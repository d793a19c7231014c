use std::collections::HashMap;

use typed_pubsub::codec::encode_event;
use typed_pubsub::events::auth::{AuthEvent, AuthEventType, UserCreated};
use typed_pubsub::events::message::{MessageEvent, MessageSent};
use typed_pubsub::events::user::{UserEvent, UserEventType, UserUpdated};
use typed_pubsub::events::{Event, EventType};
use typed_pubsub::publisher::broker::{EventBroker, ListenerVerdict};
use typed_pubsub::publisher::topic::TopicEvent;
use typed_pubsub::publisher::TypedEvent;

/// A synchronous stand-in for the event manager: the verified broker holds
/// all state, handlers and tasks are small integers, and per-topic record
/// queues stand in for the transport streams.
struct Manager {
    broker: EventBroker<u32, u32, u32>,
    queues: HashMap<&'static str, Vec<Vec<u8>>>,
    deliveries: Vec<(u32, Event)>,
    next_task: u32,
}

impl Manager {
    fn new() -> Self {
        Manager {
            broker: EventBroker::new(),
            queues: HashMap::new(),
            deliveries: Vec::new(),
            next_task: 100,
        }
    }

    fn subscribe(&mut self, event: &Event, handler: u32) {
        let _displaced = self.broker.put_handler(event.event_type(), handler);
        let topic = event.event_topic();
        if !self.broker.has_listener(topic) {
            let task = self.next_task;
            self.next_task += 1;
            self.broker.install_listener(topic, task);
        } else {
            self.broker.retain_listener(topic);
        }
    }

    fn unsubscribe(&mut self, event: &Event) {
        let _removed = self.broker.remove_handler(event.event_type());
        let _cancelled = self.broker.release_listener(event.event_topic());
    }

    fn notify(&mut self, event: &Event) {
        let topic = event.event_topic();
        if self.broker.writer_for(topic).is_none() {
            self.broker.cache_writer(topic, 1);
        }
        let payload = encode_event(event);
        // A stream only hands out records while a listener reads the topic.
        if self.broker.has_listener(topic) {
            self.queues.entry(topic).or_default().push(payload);
        }
    }

    fn pump(&mut self, topic: &'static str) {
        let records = self.queues.remove(topic).unwrap_or_default();
        for record in records {
            match self.broker.listener_step(&record) {
                ListenerVerdict::Skip => continue,
                ListenerVerdict::Stop => break,
                ListenerVerdict::Deliver(e) => {
                    let et = e.event_type();
                    if let Some(h) = self.broker.handler_for(et) {
                        self.deliveries.push((*h, e));
                    }
                }
            }
        }
    }
}

fn message_event(text: &str) -> Event {
    Event::MessageEvent(MessageEvent::MessageSentEvent(MessageSent {
        channel_id: String::from("Test"),
        sender: String::from("Test"),
        message: String::from(text),
    }))
}

fn user_updated_event() -> Event {
    Event::UserEvent(UserEvent::UserUpdatedEvent(UserUpdated { id: String::from("Test") }))
}

fn user_signed_up_event() -> Event {
    Event::AuthEvent(AuthEvent::UserSignedUpEvent(UserCreated {
        id: String::from("Test"),
        username: String::from("Test"),
    }))
}

#[test]
fn notify_delivers_value_equal_event() {
    let mut m = Manager::new();
    let event = message_event("Test");
    m.subscribe(&event, 1);
    m.notify(&event);
    m.pump("message-sent");
    assert_eq!(m.deliveries, vec![(1, event)]);
}

#[test]
fn subscribe_only_chosen_events() {
    let mut m = Manager::new();
    let event_1 = user_updated_event();
    let event_2 = user_signed_up_event();
    m.subscribe(&event_1, 1);
    m.notify(&event_1);
    m.pump("user-updated");
    assert_eq!(m.deliveries, vec![(1, event_1)]);
    // An event of a different type goes to a different topic; nothing more
    // reaches the registered handler.
    m.notify(&event_2);
    m.pump("user-updated");
    m.pump("auth-signed");
    assert_eq!(m.deliveries.len(), 1);
}

#[test]
fn unsubscribe_stops_delivery() {
    let mut m = Manager::new();
    let event = user_updated_event();
    m.subscribe(&event, 1);
    m.notify(&event);
    m.pump("user-updated");
    assert_eq!(m.deliveries, vec![(1, event.clone())]);
    m.unsubscribe(&event);
    assert!(!m.broker.has_listener("user-updated"));
    m.notify(&event);
    m.pump("user-updated");
    assert_eq!(m.deliveries.len(), 1);
}

#[test]
fn override_subscribe_reaches_second_handler_only() {
    let mut m = Manager::new();
    let event_1 = user_updated_event();
    let event_2 = user_updated_event();
    m.subscribe(&event_1, 1);
    m.notify(&event_1);
    m.pump("user-updated");
    assert_eq!(m.deliveries, vec![(1, event_1.clone())]);
    m.subscribe(&event_1, 2);
    m.notify(&event_2);
    m.pump("user-updated");
    assert_eq!(m.deliveries, vec![(1, event_1), (2, event_2)]);
}

#[test]
fn put_handler_overrides_and_returns_displaced() {
    let mut b: EventBroker<u32, u32, u32> = EventBroker::new();
    let et = EventType::User(UserEventType::Updated);
    assert_eq!(b.put_handler(et, 1), None);
    assert_eq!(b.put_handler(et, 2), Some(1));
    assert_eq!(b.handler_for(et), Some(&2));
    assert_eq!(b.remove_handler(et), Some(2));
    assert_eq!(b.remove_handler(et), None);
    assert_eq!(b.handler_for(et), None);
}

#[test]
fn shared_topic_refcount_keeps_listener_alive() {
    let mut b: EventBroker<u32, u32, u32> = EventBroker::new();
    let et1 = EventType::User(UserEventType::Updated);
    let et2 = EventType::Auth(AuthEventType::SignedUp);
    let topic = "shared-topic";

    // Two discriminants multiplexed onto one topic.
    b.put_handler(et1, 1);
    b.install_listener(topic, 7);
    b.put_handler(et2, 2);
    b.retain_listener(topic);
    assert_eq!(b.listener_refcount(topic), 2);

    // Dropping the first subscription keeps the shared listener running and
    // cancels nothing.
    b.remove_handler(et1);
    assert_eq!(b.release_listener(topic), None);
    assert!(b.has_listener(topic));
    assert_eq!(b.listener_refcount(topic), 1);

    // Delivery for the remaining discriminant keeps working.
    let record = encode_event(&user_signed_up_event());
    match b.listener_step(&record) {
        ListenerVerdict::Deliver(e) => {
            assert_eq!(b.handler_for(e.event_type()), Some(&2));
        }
        _ => panic!("expected delivery for the remaining subscription"),
    }

    // Dropping the second subscription tears the listener down and hands the
    // task back for cancellation.
    b.remove_handler(et2);
    assert_eq!(b.release_listener(topic), Some(7));
    assert!(!b.has_listener(topic));
    assert_eq!(b.listener_refcount(topic), 0);

    // Releasing a topic without a listener is a no-op.
    assert_eq!(b.release_listener(topic), None);
}

#[test]
fn refcount_counts_subscribe_calls() {
    // The refcount tracks subscribe calls, not distinct discriminants: a
    // re-subscription to an already-subscribed discriminant still increments
    // it, and only a balanced number of unsubscriptions releases the
    // listener.
    let mut m = Manager::new();
    let event = user_updated_event();
    m.subscribe(&event, 1);
    m.subscribe(&event, 2);
    assert_eq!(m.broker.listener_refcount("user-updated"), 2);
    m.unsubscribe(&event);
    assert!(m.broker.has_listener("user-updated"));
    m.unsubscribe(&event);
    assert!(!m.broker.has_listener("user-updated"));
}

#[test]
fn listener_stops_on_decoded_event_without_handler() {
    // Documented behaviour: a decoded record whose discriminant has no
    // registered handler terminates the listener loop instead of being
    // skipped.
    let mut m = Manager::new();
    let event = user_updated_event();
    m.subscribe(&event, 1);
    m.subscribe(&event, 2);
    m.unsubscribe(&event);
    // The listener is still alive (one reference left) but the handler is
    // gone.
    assert!(m.broker.has_listener("user-updated"));
    let record = encode_event(&event);
    assert!(matches!(m.broker.listener_step(&record), ListenerVerdict::Stop));
    // Records queued behind the stopping one are dropped with the listener.
    m.notify(&event);
    m.notify(&event);
    m.pump("user-updated");
    assert_eq!(m.deliveries.len(), 0);
}

#[test]
fn listener_skips_undecodable_records() {
    let mut m = Manager::new();
    let event = message_event("hello");
    m.subscribe(&event, 1);
    assert!(matches!(m.broker.listener_step(&[0xde, 0xad]), ListenerVerdict::Skip));
    // A garbage record is non-fatal: later records still get through.
    m.queues.entry("message-sent").or_default().push(vec![0xde, 0xad]);
    m.notify(&event);
    m.pump("message-sent");
    assert_eq!(m.deliveries, vec![(1, event)]);
}

#[test]
fn writer_cache_is_created_once_and_reused() {
    let mut b: EventBroker<u32, u32, u32> = EventBroker::new();
    assert_eq!(b.writer_for("message-sent"), None);
    b.cache_writer("message-sent", 5);
    assert_eq!(b.writer_for("message-sent"), Some(&5));
    assert_eq!(b.writer_for("user-updated"), None);
}
