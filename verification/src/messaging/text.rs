//! Plain text messages between two identities.

use crate::identity::did::Did;
use vstd::prelude::*;

verus! {

/// A plain text message between two identities.
#[derive(Debug, Clone)]
pub struct TextMessage {
    pub error_messages: Vec<String>,
    pub to: Option<Did>,
    pub from: Option<Did>,
    pub text: Option<String>,
}

impl Default for TextMessage {
    /// No error messages, identities or text.
    fn default() -> (r: TextMessage)
        ensures
            r.error_messages@.len() == 0,
            r.to is None && r.from is None && r.text is None,
    {
        TextMessage { error_messages: Vec::new(), to: None, from: None, text: None }
    }
}

impl TextMessage {
    /// A message from `from` to `to` carrying `text`.
    pub fn new(to: Did, from: Did, text: String) -> (r: TextMessage)
        ensures
            r.error_messages@.len() == 0,
            r.to == Some(to),
            r.from == Some(from),
            r.text matches Some(t) && t@ == text@,
    {
        TextMessage { error_messages: Vec::new(), to: Some(to), from: Some(from), text: Some(text) }
    }
}

} // verus!
