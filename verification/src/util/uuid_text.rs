//! Random identifiers in the text form of version 4 UUIDs.

use crate::crypto::hashcash::is_hex_char;
use uuid::Uuid;
use vstd::prelude::*;

verus! {

/// Whether `s` is the hyphenated lower-case text of a random UUID: 36
/// characters, hyphens at 8, 13, 18 and 23, lower-case hexadecimal digits
/// elsewhere, version `4` at 14 and an RFC 4122 variant digit (`8` to `b`) at 19.
pub open spec fn is_uuid_v4_text(s: Seq<char>) -> bool {
    &&& s.len() == 36
    &&& forall|i: int|
        0 <= i < 36 ==> if i == 8 || i == 13 || i == 18 || i == 23 {
            s[i] == '-'
        } else {
            is_hex_char(#[trigger] s[i])
        }
    &&& s[14] == '4'
    &&& (s[19] == '8' || s[19] == '9' || s[19] == 'a' || s[19] == 'b')
}

/// `Uuid::new_v4().to_string()`; the contract states the text form of a random
/// UUID, whose random bits nothing here can know.
#[verifier::external_body]
pub(crate) fn new_uuid_v4() -> (r: String)
    ensures
        is_uuid_v4_text(r@),
{
    Uuid::new_v4().to_string()
}

} // verus!
