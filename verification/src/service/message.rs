//! The base shape of service request and response messages.

use vstd::prelude::*;

verus! {

/// Status code meaning "no error".
pub const NO_ERROR: i32 = -1;

/// Status code meaning "a request is required".
pub const REQUEST_REQUIRED: i32 = 0;

/// A status code plus optional error text; concrete services extend this with
/// fields of their own.
#[derive(Debug, Clone)]
pub struct ServiceMessage {
    pub status_code: i32,
    pub error_message: Option<String>,
    /// A stringified exception, if any.
    pub exception: Option<String>,
    pub kind: Option<String>,
}

impl Default for ServiceMessage {
    /// No error: status [`NO_ERROR`] and no texts.
    fn default() -> (r: ServiceMessage)
        ensures
            r.status_code == NO_ERROR,
            r.error_message is None && r.exception is None && r.kind is None,
    {
        ServiceMessage { status_code: NO_ERROR, error_message: None, exception: None, kind: None }
    }
}

impl ServiceMessage {
    /// Whether this message reports an error: a status code other than
    /// [`NO_ERROR`], or an error message.
    pub fn is_error(&self) -> (r: bool)
        ensures
            r == (self.status_code != NO_ERROR || self.error_message is Some),
    {
        self.status_code != NO_ERROR || self.error_message.is_some()
    }
}

} // verus!
