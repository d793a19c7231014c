//! Message domain events: chat messages sent to a channel.

use vstd::prelude::*;

use crate::events::EventType;
use crate::publisher::topic::KeyEvent;
use crate::publisher::topic::Topic;
use crate::publisher::topic::TopicEvent;
use crate::publisher::TypedEvent;

verus! {

/// Payload of the "message sent" event.
#[derive(Debug, Clone, Default, PartialEq, Eq)]
pub struct MessageSent {
    pub channel_id: String,
    pub sender: String,
    pub message: String,
}

/// Mathematical view of [`MessageSent`].
pub ghost struct MessageSentV {
    pub channel_id: Seq<char>,
    pub sender: Seq<char>,
    pub message: Seq<char>,
}

impl View for MessageSent {
    type V = MessageSentV;

    open spec fn view(&self) -> MessageSentV {
        MessageSentV {
            channel_id: self.channel_id@,
            sender: self.sender@,
            message: self.message@,
        }
    }
}

/// A message domain event.
#[derive(Debug, Clone, PartialEq, Eq)]
pub enum MessageEvent {
    MessageSentEvent(MessageSent),
}

/// Mathematical view of [`MessageEvent`].
pub ghost enum MessageEventV {
    MessageSentEvent(MessageSentV),
}

impl View for MessageEvent {
    type V = MessageEventV;

    open spec fn view(&self) -> MessageEventV {
        match self {
            MessageEvent::MessageSentEvent(p) => MessageEventV::MessageSentEvent(p@),
        }
    }
}

/// The payload-free discriminants of the message domain.
#[derive(Debug, Clone, Copy, Hash, PartialEq, PartialOrd, Ord, Eq, Structural)]
pub enum MessageEventType {
    Sent,
}

impl TopicEvent for MessageEventType {
    open spec fn topic_spec(&self) -> Seq<char> {
        match self {
            MessageEventType::Sent => "message-sent"@,
        }
    }

    fn event_topic(&self) -> (t: Topic) {
        match self {
            MessageEventType::Sent => "message-sent",
        }
    }
}

impl TopicEvent for MessageEvent {
    open spec fn topic_spec(&self) -> Seq<char> {
        self.type_spec().topic_spec()
    }

    fn event_topic(&self) -> (t: Topic) {
        self.event_type().event_topic()
    }
}

impl KeyEvent for MessageEvent {
    open spec fn key_spec(&self) -> Option<Seq<u8>> {
        match self {
            MessageEvent::MessageSentEvent(_) => None,
        }
    }

    fn event_key(&self) -> (k: Option<Vec<u8>>) {
        match self {
            MessageEvent::MessageSentEvent(_) => None,
        }
    }
}

impl TypedEvent for MessageEvent {
    type EventType = EventType;

    open spec fn type_spec(&self) -> EventType {
        EventType::Message(
            match self {
                MessageEvent::MessageSentEvent(_) => MessageEventType::Sent,
            },
        )
    }

    fn event_type(&self) -> (t: EventType) {
        EventType::Message(
            match self {
                MessageEvent::MessageSentEvent(_) => MessageEventType::Sent,
            },
        )
    }
}

} // verus!
