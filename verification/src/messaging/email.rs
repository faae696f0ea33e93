//! Email records.

use vstd::prelude::*;

verus! {

/// The `text/plain` MIME type.
pub const MIMETYPE_TEXT_PLAIN: &'static str = "text/plain";

/// A simple email record: a persistable value, not a message of its own.
#[derive(Debug, Clone)]
pub struct Email {
    pub id: Option<i64>,
    pub to: Option<String>,
    pub from: Option<String>,
    pub subject: Option<String>,
    pub message: Option<String>,
    pub message_type: String,
    pub flag: i32,
}

impl Default for Email {
    /// An empty plain-text email.
    fn default() -> (r: Email)
        ensures
            r.id is None && r.to is None && r.from is None && r.subject is None
                && r.message is None,
            r.message_type@ == "text/plain"@,
            r.flag == 0,
    {
        Email {
            id: None,
            to: None,
            from: None,
            subject: None,
            message: None,
            message_type: crate::text::owned(MIMETYPE_TEXT_PLAIN),
            flag: 0,
        }
    }
}

impl Email {
    /// An anonymous email (no sender).
    pub fn anonymous(to: String, subject: String, message: String) -> (r: Email)
        ensures
            r.to matches Some(t) && t@ == to@,
            r.subject matches Some(s) && s@ == subject@,
            r.message matches Some(m) && m@ == message@,
            r.id is None && r.from is None,
            r.message_type@ == "text/plain"@,
            r.flag == 0,
    {
        let mut e = Email::default();
        e.to = Some(to);
        e.subject = Some(subject);
        e.message = Some(message);
        e
    }

    /// An email with a sender.
    pub fn new(to: String, from: String, subject: String, message: String) -> (r: Email)
        ensures
            r.to matches Some(t) && t@ == to@,
            r.from matches Some(f) && f@ == from@,
            r.subject matches Some(s) && s@ == subject@,
            r.message matches Some(m) && m@ == message@,
            r.id is None,
            r.message_type@ == "text/plain"@,
            r.flag == 0,
    {
        let mut e = Email::default();
        e.to = Some(to);
        e.from = Some(from);
        e.subject = Some(subject);
        e.message = Some(message);
        e
    }
}

} // verus!
