//! Group domain events: group lifecycle and membership changes.

use vstd::prelude::*;

use crate::events::EventType;
use crate::publisher::topic::KeyEvent;
use crate::publisher::topic::Topic;
use crate::publisher::topic::TopicEvent;
use crate::publisher::TypedEvent;

verus! {

/// Payload of the "group created" event.
#[derive(Debug, Clone, Default, PartialEq, Eq)]
pub struct GroupCreatedEvent {
    pub group_id: String,
    pub owner_id: String,
    pub channel_id: String,
    pub member_ids: Vec<String>,
}

/// Mathematical view of [`GroupCreatedEvent`].
pub ghost struct GroupCreatedEventV {
    pub group_id: Seq<char>,
    pub owner_id: Seq<char>,
    pub channel_id: Seq<char>,
    pub member_ids: Seq<Seq<char>>,
}

impl View for GroupCreatedEvent {
    type V = GroupCreatedEventV;

    open spec fn view(&self) -> GroupCreatedEventV {
        GroupCreatedEventV {
            group_id: self.group_id@,
            owner_id: self.owner_id@,
            channel_id: self.channel_id@,
            member_ids: self.member_ids.deep_view(),
        }
    }
}

/// Payload of the "group deleted" event.
#[derive(Debug, Clone, Default, PartialEq, Eq)]
pub struct GroupDeletedEvent {
    pub group_id: String,
    pub owner_id: String,
    pub member_ids: Vec<String>,
}

/// Mathematical view of [`GroupDeletedEvent`].
pub ghost struct GroupDeletedEventV {
    pub group_id: Seq<char>,
    pub owner_id: Seq<char>,
    pub member_ids: Seq<Seq<char>>,
}

impl View for GroupDeletedEvent {
    type V = GroupDeletedEventV;

    open spec fn view(&self) -> GroupDeletedEventV {
        GroupDeletedEventV {
            group_id: self.group_id@,
            owner_id: self.owner_id@,
            member_ids: self.member_ids.deep_view(),
        }
    }
}

/// Payload of the "user added to group" event.
#[derive(Debug, Clone, Default, PartialEq, Eq)]
pub struct GroupUserAddedEvent {
    pub group_id: String,
    pub user_id: String,
}

/// Mathematical view of [`GroupUserAddedEvent`].
pub ghost struct GroupUserAddedEventV {
    pub group_id: Seq<char>,
    pub user_id: Seq<char>,
}

impl View for GroupUserAddedEvent {
    type V = GroupUserAddedEventV;

    open spec fn view(&self) -> GroupUserAddedEventV {
        GroupUserAddedEventV { group_id: self.group_id@, user_id: self.user_id@ }
    }
}

/// Payload of the "user removed from group" event.
#[derive(Debug, Clone, Default, PartialEq, Eq)]
pub struct GroupUserRemovedEvent {
    pub group_id: String,
    pub user_id: String,
}

/// Mathematical view of [`GroupUserRemovedEvent`].
pub ghost struct GroupUserRemovedEventV {
    pub group_id: Seq<char>,
    pub user_id: Seq<char>,
}

impl View for GroupUserRemovedEvent {
    type V = GroupUserRemovedEventV;

    open spec fn view(&self) -> GroupUserRemovedEventV {
        GroupUserRemovedEventV { group_id: self.group_id@, user_id: self.user_id@ }
    }
}

/// A group domain event.
#[derive(Debug, Clone, PartialEq, Eq)]
pub enum GroupEvent {
    GroupCreatedEvent(GroupCreatedEvent),
    GroupDeletedEvent(GroupDeletedEvent),
    GroupUserAddedEvent(GroupUserAddedEvent),
    GroupUserRemovedEvent(GroupUserRemovedEvent),
}

/// Mathematical view of [`GroupEvent`].
pub ghost enum GroupEventV {
    GroupCreatedEvent(GroupCreatedEventV),
    GroupDeletedEvent(GroupDeletedEventV),
    GroupUserAddedEvent(GroupUserAddedEventV),
    GroupUserRemovedEvent(GroupUserRemovedEventV),
}

impl View for GroupEvent {
    type V = GroupEventV;

    open spec fn view(&self) -> GroupEventV {
        match self {
            GroupEvent::GroupCreatedEvent(p) => GroupEventV::GroupCreatedEvent(p@),
            GroupEvent::GroupDeletedEvent(p) => GroupEventV::GroupDeletedEvent(p@),
            GroupEvent::GroupUserAddedEvent(p) => GroupEventV::GroupUserAddedEvent(p@),
            GroupEvent::GroupUserRemovedEvent(p) => GroupEventV::GroupUserRemovedEvent(p@),
        }
    }
}

/// The payload-free discriminants of the group domain.  Lifecycle events
/// share one topic; membership events share another.
#[derive(Debug, Clone, Copy, Hash, PartialEq, Eq, PartialOrd, Ord, Structural)]
pub enum GroupEventType {
    Groups,
    Members,
}

impl TopicEvent for GroupEventType {
    open spec fn topic_spec(&self) -> Seq<char> {
        match self {
            GroupEventType::Groups => "group-groups"@,
            GroupEventType::Members => "group-members"@,
        }
    }

    fn event_topic(&self) -> (t: Topic) {
        match self {
            GroupEventType::Groups => "group-groups",
            GroupEventType::Members => "group-members",
        }
    }
}

impl TopicEvent for GroupEvent {
    open spec fn topic_spec(&self) -> Seq<char> {
        self.type_spec().topic_spec()
    }

    fn event_topic(&self) -> (t: Topic) {
        self.event_type().event_topic()
    }
}

impl KeyEvent for GroupEvent {
    open spec fn key_spec(&self) -> Option<Seq<u8>> {
        match self {
            GroupEvent::GroupCreatedEvent(_) => None,
            GroupEvent::GroupDeletedEvent(_) => None,
            GroupEvent::GroupUserAddedEvent(_) => None,
            GroupEvent::GroupUserRemovedEvent(_) => None,
        }
    }

    fn event_key(&self) -> (k: Option<Vec<u8>>) {
        match self {
            GroupEvent::GroupCreatedEvent(_) => None,
            GroupEvent::GroupDeletedEvent(_) => None,
            GroupEvent::GroupUserAddedEvent(_) => None,
            GroupEvent::GroupUserRemovedEvent(_) => None,
        }
    }
}

impl TypedEvent for GroupEvent {
    type EventType = EventType;

    open spec fn type_spec(&self) -> EventType {
        EventType::Group(
            match self {
                GroupEvent::GroupCreatedEvent(_) => GroupEventType::Groups,
                GroupEvent::GroupDeletedEvent(_) => GroupEventType::Groups,
                GroupEvent::GroupUserAddedEvent(_) => GroupEventType::Members,
                GroupEvent::GroupUserRemovedEvent(_) => GroupEventType::Members,
            },
        )
    }

    fn event_type(&self) -> (t: EventType) {
        EventType::Group(
            match self {
                GroupEvent::GroupCreatedEvent(_) => GroupEventType::Groups,
                GroupEvent::GroupDeletedEvent(_) => GroupEventType::Groups,
                GroupEvent::GroupUserAddedEvent(_) => GroupEventType::Members,
                GroupEvent::GroupUserRemovedEvent(_) => GroupEventType::Members,
            },
        )
    }
}

} // verus!
