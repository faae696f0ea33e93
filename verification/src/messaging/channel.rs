//! Producer, consumer, channel and bus contracts. Concrete brokers live
//! outside this crate.

use crate::envelope::Envelope;
use crate::lifecycle::{Client, LifeCycle};
use crate::service::status::ServiceLevel;
use vstd::prelude::*;

verus! {

/// Sends envelopes onward.
pub trait MessageProducer: Send + Sync {
    /// Whether `envelope` has been handed to this producer. An implementation
    /// may say what that means for it; by default nothing is claimed.
    closed spec fn offered(&self, envelope: Envelope) -> bool {
        true
    }

    /// Sends `envelope`; `true` if accepted.
    fn send(&self, envelope: Envelope) -> (r: bool)
        ensures
            self.offered(envelope),
    ;

    /// Sends `envelope`, delivering the reply to `callback`; `true` if accepted.
    fn send_with_callback(&self, envelope: Envelope, callback: std::sync::Arc<dyn Client>) -> bool;

    /// Routes `envelope` to the dead-letter sink; `true` if accepted.
    fn dead_letter(&self, envelope: Envelope) -> bool;
}

/// Receives envelopes.
pub trait MessageConsumer: Send + Sync {
    /// Handles `envelope`; `true` if handled.
    fn receive(&mut self, envelope: Envelope) -> bool;
}

/// A named, bounded queue between stages.
pub trait MessageChannel: MessageProducer + LifeCycle {
    /// The channel name.
    fn name(&self) -> &str;

    /// Whether this channel fans out to subscribers.
    fn is_pub_sub(&self) -> bool;

    /// Number of envelopes currently queued.
    fn queued(&self) -> usize;

    /// Blocking receive.
    fn receive(&self) -> Option<Envelope>;

    /// Receive, waiting at most `timeout_ms` milliseconds.
    fn receive_timeout(&self, timeout_ms: u64) -> Option<Envelope>;

    /// Non-blocking receive.
    fn poll(&self) -> Option<Envelope>;

    /// Acknowledges processing of `envelope`.
    fn ack(&self, envelope: &Envelope);
}

/// Registers channels and publishes envelopes across them.
pub trait MessageBus: LifeCycle {
    /// Registers (or fetches) a channel by name.
    fn register_channel(&mut self, name: &str, service_level: ServiceLevel) -> bool;

    /// Publishes `envelope` onto its routed channel.
    fn publish(&self, envelope: Envelope) -> bool;

    /// Publishes `envelope` with a reply `callback`.
    fn publish_with_callback(&self, envelope: Envelope, callback: std::sync::Arc<dyn Client>) -> bool;

    /// Marks `envelope` fully processed.
    fn completed(&self, envelope: &Envelope) -> bool;
}

} // verus!
