//! Signature metadata records.

use crate::text::str_eq;
use vstd::prelude::*;

verus! {

/// A point in time: seconds and nanoseconds since the Unix epoch (UTC).
#[derive(Debug, Clone, Copy, PartialEq, Eq, Structural)]
pub struct Timestamp {
    /// Whole seconds since 1970-01-01T00:00:00Z.
    pub seconds: i64,
    /// Nanoseconds within the second.
    pub nanos: u32,
}

/// A detached signature over some value, describing who signed it and how.
///
/// This crate does not sign or verify; a `Signature` is a metadata record
/// carried inside a public key. Two signatures are equal when both name the
/// address of the key that made them and those addresses are equal.
#[derive(Debug, Default)]
pub struct Signature {
    /// The value that was signed.
    pub value_signed: Option<String>,
    /// The signing algorithm.
    pub algorithm: Option<String>,
    /// When it was signed.
    pub signed_date: Option<Timestamp>,
    /// Username of the signer.
    pub signed_by_username: Option<String>,
    /// Fingerprint of the signer's key.
    pub signed_by_fingerprint: Option<String>,
    /// Address of the signer's key: a signature's identity.
    pub signed_by_address: Option<String>,
}

/// Whether two optional texts are both present and equal.
pub open spec fn both_equal(a: Option<String>, b: Option<String>) -> bool {
    match (a, b) {
        (Some(x), Some(y)) => x@ == y@,
        _ => false,
    }
}

/// Whether two optional texts are both present and equal.
pub fn both_present_and_equal(a: &Option<String>, b: &Option<String>) -> (r: bool)
    ensures
        r == both_equal(*a, *b),
{
    match (a, b) {
        (Some(x), Some(y)) => str_eq(x.as_str(), y.as_str()),
        _ => false,
    }
}

/// A copy of an optional text.
pub fn clone_text(t: &Option<String>) -> (r: Option<String>)
    ensures
        r == *t,
{
    match t {
        Some(s) => Some(s.clone()),
        None => None,
    }
}

impl Clone for Signature {
    /// A field-for-field copy.
    fn clone(&self) -> (r: Signature)
        ensures
            r == *self,
    {
        Signature {
            value_signed: clone_text(&self.value_signed),
            algorithm: clone_text(&self.algorithm),
            signed_date: self.signed_date,
            signed_by_username: clone_text(&self.signed_by_username),
            signed_by_fingerprint: clone_text(&self.signed_by_fingerprint),
            signed_by_address: clone_text(&self.signed_by_address),
        }
    }
}

impl PartialEq for Signature {
    fn eq(&self, other: &Signature) -> (r: bool) {
        both_present_and_equal(&self.signed_by_address, &other.signed_by_address)
    }
}

impl vstd::std_specs::cmp::PartialEqSpecImpl for Signature {
    open spec fn obeys_eq_spec() -> bool {
        true
    }

    open spec fn eq_spec(&self, other: &Signature) -> bool {
        both_equal(self.signed_by_address, other.signed_by_address)
    }
}

impl Eq for Signature {

}

} // verus!
