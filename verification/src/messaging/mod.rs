//! Messages carried inside an envelope, and the producer / consumer / channel
//! / bus contracts that move envelopes between services.

pub mod channel;
pub mod command;
pub mod document;
pub mod email;
pub mod event;
pub mod text;

pub use channel::{MessageBus, MessageChannel, MessageConsumer, MessageProducer};
pub use command::{Command, CommandMessage};
pub use document::{DocumentMessage, CONTENT, ENTITY, EXCEPTIONS};
pub use email::Email;
pub use event::{EventMessage, EventType};
pub use text::TextMessage;

use vstd::prelude::*;

verus! {

/// Any message that can travel inside an envelope.
#[derive(Debug, Clone)]
pub enum Message {
    Document(DocumentMessage),
    Command(CommandMessage),
    Event(EventMessage),
    Text(Box<TextMessage>),
}

/// The error messages a message carries.
pub open spec fn message_errors(m: Message) -> Seq<String> {
    match m {
        Message::Document(d) => d.error_messages@,
        Message::Command(c) => c.error_messages@,
        Message::Event(e) => e.error_messages@,
        Message::Text(t) => t.error_messages@,
    }
}

/// `m` with its error messages replaced by `errors`, all else kept.
pub open spec fn with_errors(m: Message, errors: Vec<String>) -> Message {
    match m {
        Message::Document(d) => Message::Document(DocumentMessage { error_messages: errors, ..d }),
        Message::Command(c) => Message::Command(CommandMessage { error_messages: errors, ..c }),
        Message::Event(e) => Message::Event(EventMessage { error_messages: errors, ..e }),
        Message::Text(t) => Message::Text(Box::new(TextMessage { error_messages: errors, ..*t })),
    }
}

impl Message {
    /// The accumulated non-fatal error messages.
    pub fn error_messages(&self) -> (r: &Vec<String>)
        ensures
            r@ == message_errors(*self),
    {
        match self {
            Message::Document(m) => &m.error_messages,
            Message::Command(m) => &m.error_messages,
            Message::Event(m) => &m.error_messages,
            Message::Text(m) => &m.error_messages,
        }
    }

    /// Appends an error message; nothing else changes.
    pub fn add_error_message(&mut self, msg: String)
        ensures
            message_errors(*final(self)) == message_errors(*old(self)).push(msg),
            exists|v: Vec<String>| #[trigger] with_errors(*old(self), v) == *final(self),
    {
        match self {
            Message::Document(m) => m.error_messages.push(msg),
            Message::Command(m) => m.error_messages.push(msg),
            Message::Event(m) => m.error_messages.push(msg),
            Message::Text(m) => m.error_messages.push(msg),
        }
        proof {
            let v = match *final(self) {
                Message::Document(d) => d.error_messages,
                Message::Command(c) => c.error_messages,
                Message::Event(e) => e.error_messages,
                Message::Text(t) => t.error_messages,
            };
            assert(with_errors(*old(self), v) == *final(self));
        }
    }

    /// Removes every error message; nothing else changes.
    pub fn clear_error_messages(&mut self)
        ensures
            message_errors(*final(self)).len() == 0,
            exists|v: Vec<String>| #[trigger] with_errors(*old(self), v) == *final(self),
    {
        match self {
            Message::Document(m) => m.error_messages.clear(),
            Message::Command(m) => m.error_messages.clear(),
            Message::Event(m) => m.error_messages.clear(),
            Message::Text(m) => m.error_messages.clear(),
        }
        proof {
            let v = match *final(self) {
                Message::Document(d) => d.error_messages,
                Message::Command(c) => c.error_messages,
                Message::Event(e) => e.error_messages,
                Message::Text(t) => t.error_messages,
            };
            assert(with_errors(*old(self), v) == *final(self));
        }
    }

    /// The inner document message, if this is one.
    pub fn as_document(&self) -> (r: Option<&DocumentMessage>)
        ensures
            match self {
                Message::Document(d) => r == Some(d),
                _ => r is None,
            },
    {
        match self {
            Message::Document(m) => Some(m),
            _ => None,
        }
    }

    /// The inner document message, if this is one, for changing it in place.
    pub fn as_document_mut(&mut self) -> (r: Option<&mut DocumentMessage>)
        ensures
            match *old(self) {
                Message::Document(d) => r matches Some(x) && *x == d && *final(self)
                    == Message::Document(*final(x)),
                _ => r is None && *final(self) == *old(self),
            },
    {
        match self {
            Message::Document(m) => Some(m),
            _ => None,
        }
    }

    /// The inner event message, if this is one.
    pub fn as_event(&self) -> (r: Option<&EventMessage>)
        ensures
            match self {
                Message::Event(e) => r == Some(e),
                _ => r is None,
            },
    {
        match self {
            Message::Event(m) => Some(m),
            _ => None,
        }
    }

    /// The inner command message, if this is one.
    pub fn as_command(&self) -> (r: Option<&CommandMessage>)
        ensures
            match self {
                Message::Command(c) => r == Some(c),
                _ => r is None,
            },
    {
        match self {
            Message::Command(m) => Some(m),
            _ => None,
        }
    }
}

impl From<DocumentMessage> for Message {
    fn from(m: DocumentMessage) -> (r: Message) {
        Message::Document(m)
    }
}

impl vstd::std_specs::convert::FromSpecImpl<DocumentMessage> for Message {
    open spec fn obeys_from_spec() -> bool {
        true
    }

    open spec fn from_spec(m: DocumentMessage) -> Message {
        Message::Document(m)
    }
}

impl From<CommandMessage> for Message {
    fn from(m: CommandMessage) -> (r: Message) {
        Message::Command(m)
    }
}

impl vstd::std_specs::convert::FromSpecImpl<CommandMessage> for Message {
    open spec fn obeys_from_spec() -> bool {
        true
    }

    open spec fn from_spec(m: CommandMessage) -> Message {
        Message::Command(m)
    }
}

impl From<EventMessage> for Message {
    fn from(m: EventMessage) -> (r: Message) {
        Message::Event(m)
    }
}

impl vstd::std_specs::convert::FromSpecImpl<EventMessage> for Message {
    open spec fn obeys_from_spec() -> bool {
        true
    }

    open spec fn from_spec(m: EventMessage) -> Message {
        Message::Event(m)
    }
}

impl From<TextMessage> for Message {
    fn from(m: TextMessage) -> (r: Message) {
        Message::Text(Box::new(m))
    }
}

impl vstd::std_specs::convert::FromSpecImpl<TextMessage> for Message {
    open spec fn obeys_from_spec() -> bool {
        true
    }

    open spec fn from_spec(m: TextMessage) -> Message {
        Message::Text(Box::new(m))
    }
}

} // verus!
