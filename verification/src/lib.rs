//! A typed publish/subscribe layer over a partitioned, topic-based log
//! transport.
//!
//! Producers emit strongly typed domain events and consumers register one
//! handler per event variant, while the underlying transport only understands
//! coarse-grained named topics and byte payloads.  The crate provides:
//!
//! * the event taxonomy: the closed sum types of domain events, their
//!   payload-free discriminants, and the pure, total routing functions from
//!   events to topics, discriminants and partition keys ([`events`]);
//! * a canonical, self-describing byte encoding of events that round-trips
//!   exactly ([`codec`]);
//! * the broker core: the registry of subscribers, the reference-counted
//!   per-topic listener table and the producer cache, as a verified state
//!   machine driven by the surrounding asynchronous process ([`publisher`]).

pub mod codec;
pub mod events;
pub mod publisher;
