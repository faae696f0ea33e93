//! Event messages.

use crate::json::JsonValue;
use crate::util::uuid_text::{is_uuid_v4_text, new_uuid_v4};
use vstd::prelude::*;

verus! {

/// Well-known event categories. The wire form is a free-form string, so
/// callers may use categories of their own too.
#[derive(Debug, Clone, Copy, PartialEq, Eq, Hash, Structural)]
pub enum EventType {
    Error,
    Exception,
    BusStatus,
    PeerStatus,
    ServiceStatus,
    DidStatus,
    NetworkStateUpdate,
    PriceChange,
}

impl EventType {
    /// The `SCREAMING_SNAKE` name of the category.
    pub open spec fn name(self) -> Seq<char> {
        match self {
            EventType::Error => "ERROR"@,
            EventType::Exception => "EXCEPTION"@,
            EventType::BusStatus => "BUS_STATUS"@,
            EventType::PeerStatus => "PEER_STATUS"@,
            EventType::ServiceStatus => "SERVICE_STATUS"@,
            EventType::DidStatus => "DID_STATUS"@,
            EventType::NetworkStateUpdate => "NETWORK_STATE_UPDATE"@,
            EventType::PriceChange => "PRICE_CHANGE"@,
        }
    }

    /// The `SCREAMING_SNAKE` name of the category.
    pub fn as_str(&self) -> (r: &'static str)
        ensures
            r@ == self.name(),
    {
        match self {
            EventType::Error => "ERROR",
            EventType::Exception => "EXCEPTION",
            EventType::BusStatus => "BUS_STATUS",
            EventType::PeerStatus => "PEER_STATUS",
            EventType::ServiceStatus => "SERVICE_STATUS",
            EventType::DidStatus => "DID_STATUS",
            EventType::NetworkStateUpdate => "NETWORK_STATE_UPDATE",
            EventType::PriceChange => "PRICE_CHANGE",
        }
    }
}

/// An event notification with an optional structured payload.
#[derive(Debug, Clone)]
pub struct EventMessage {
    pub error_messages: Vec<String>,
    pub id: String,
    /// The event category (usually an [`EventType::as_str`] value).
    pub event_type: String,
    pub name: Option<String>,
    /// Structured payload.
    pub message: Option<JsonValue>,
}

impl EventMessage {
    /// A new event of the given category with a fresh random id.
    pub fn new(event_type: String) -> (r: EventMessage)
        ensures
            r.error_messages@.len() == 0,
            is_uuid_v4_text(r.id@),
            r.event_type@ == event_type@,
            r.name is None,
            r.message is None,
    {
        EventMessage {
            error_messages: Vec::new(),
            id: new_uuid_v4(),
            event_type,
            name: None,
            message: None,
        }
    }

    /// A new event of a well-known category.
    pub fn of(event_type: EventType) -> (r: EventMessage)
        ensures
            r.error_messages@.len() == 0,
            is_uuid_v4_text(r.id@),
            r.event_type@ == event_type.name(),
            r.name is None,
            r.message is None,
    {
        EventMessage::new(crate::text::owned(event_type.as_str()))
    }

    /// Attaches a structured payload.
    pub fn set_message(&mut self, message: JsonValue)
        ensures
            final(self).message == Some(message),
            final(self).error_messages == old(self).error_messages,
            final(self).id == old(self).id,
            final(self).event_type == old(self).event_type,
            final(self).name == old(self).name,
    {
        self.message = Some(message);
    }
}

} // verus!
