//! Base32, Base58 and Base64 codecs.
//!
//! - base32: RFC 4648, uppercase `A-Z2-7`, no padding (`data_encoding::BASE32_NOPAD`);
//! - base58: the Bitcoin alphabet (`bs58`);
//! - base64: RFC 4648 standard alphabet with padding (`base64`'s `STANDARD` engine),
//!   used inside the crate.

use crate::error::{RaError, Result};
use base64::Engine;
use vstd::prelude::*;
use vstd::string::StringSliceAdditionalSpecFns;

verus! {

/// The unpadded RFC 4648 base32 text of `bytes`.
pub uninterp spec fn base32_text(bytes: Seq<u8>) -> Seq<char>;

/// The bytes that unpadded base32 `text` decodes to, if it is valid.
pub uninterp spec fn base32_bytes(text: Seq<char>) -> Option<Seq<u8>>;

/// The Bitcoin-alphabet base58 text of `bytes`.
pub uninterp spec fn base58_text(bytes: Seq<u8>) -> Seq<char>;

/// The bytes that base58 `text` decodes to, if it is valid.
pub uninterp spec fn base58_bytes(text: Seq<char>) -> Option<Seq<u8>>;

/// The padded standard base64 text of `bytes`.
pub uninterp spec fn base64_text(bytes: Seq<u8>) -> Seq<char>;

/// The bytes that padded standard base64 `text` decodes to, if it is valid.
pub uninterp spec fn base64_bytes(text: Seq<char>) -> Option<Seq<u8>>;

/// Whether `c` belongs to the standard base64 alphabet or is its padding `=`.
pub open spec fn is_base64_char(c: char) -> bool {
    ('A' <= c <= 'Z') || ('a' <= c <= 'z') || ('0' <= c <= '9') || c == '+' || c == '/' || c
        == '='
}

/// The value of a hexadecimal digit (either case), if `c` is one.
pub open spec fn hex_digit_value(c: char) -> Option<u8> {
    if '0' <= c <= '9' {
        Some((c as u32 - 48) as u8)
    } else if 'a' <= c <= 'f' {
        Some((c as u32 - 87) as u8)
    } else if 'A' <= c <= 'F' {
        Some((c as u32 - 55) as u8)
    } else {
        None
    }
}

/// The hexadecimal digit for `d < 16`, lower case.
pub open spec fn hex_digit_lower(d: u8) -> char {
    if d < 10 {
        (48 + d) as char
    } else {
        (87 + d) as char
    }
}

/// The hexadecimal digit for `d < 16`, upper case.
pub open spec fn hex_digit_upper(d: u8) -> char {
    if d < 10 {
        (48 + d) as char
    } else {
        (55 + d) as char
    }
}

/// Two hexadecimal digits per byte, most significant nibble first.
pub open spec fn hex_text(bytes: Seq<u8>, upper: bool) -> Seq<char>
    decreases bytes.len(),
{
    if bytes.len() == 0 {
        Seq::empty()
    } else {
        let hi = (bytes[0] / 16) as u8;
        let lo = (bytes[0] % 16) as u8;
        let pair = if upper {
            seq![hex_digit_upper(hi), hex_digit_upper(lo)]
        } else {
            seq![hex_digit_lower(hi), hex_digit_lower(lo)]
        };
        pair + hex_text(bytes.drop_first(), upper)
    }
}

/// The bytes that hexadecimal `text` (either case) stands for: `None` for an odd
/// length or a character that is not a hexadecimal digit.
pub open spec fn hex_bytes(text: Seq<char>) -> Option<Seq<u8>>
    decreases text.len(),
{
    if text.len() == 0 {
        Some(Seq::empty())
    } else if text.len() < 2 {
        None
    } else {
        match (hex_digit_value(text[0]), hex_digit_value(text[1]), hex_bytes(text.skip(2))) {
            (Some(h), Some(l), Some(rest)) => Some(seq![(h * 16 + l) as u8] + rest),
            _ => None,
        }
    }
}

/// Encodes with `hex::encode` (lower case); the contract states the digits.
#[verifier::external_body]
pub(crate) fn hex_encode_lower(input: &[u8]) -> (r: String)
    ensures
        r@ == hex_text(input@, false),
{
    hex::encode(input)
}

/// Encodes with `hex::encode_upper`; the contract states the digits.
#[verifier::external_body]
pub(crate) fn hex_encode_upper(input: &[u8]) -> (r: String)
    ensures
        r@ == hex_text(input@, true),
{
    hex::encode_upper(input)
}

/// Decodes with `hex::decode`, turning the crate's error into its message; the
/// contract states the outcome: digits of either case in pairs, nothing else.
#[verifier::external_body]
pub(crate) fn hex_decode(input: &str) -> (r: std::result::Result<Vec<u8>, String>)
    ensures
        r is Ok <==> hex_bytes(input@) is Some,
        r matches Ok(v) ==> hex_bytes(input@) == Some(v@),
{
    hex::decode(input).map_err(|e| e.to_string())
}

/// Whether `c` belongs to the RFC 4648 base32 alphabet.
pub open spec fn is_base32_char(c: char) -> bool {
    ('A' <= c <= 'Z') || ('2' <= c <= '7')
}

/// Encodes with `data_encoding::BASE32_NOPAD.encode`. The contract names the
/// result and states, as the crate documents for RFC 4648 base32, that every
/// character is in `A-Z2-7`. The crate asserts `len <= usize::MAX / 512`.
#[verifier::external_body]
fn base32_nopad_encode(input: &[u8]) -> (r: String)
    requires
        input@.len() <= usize::MAX / 512,
    ensures
        r@ == base32_text(input@),
        forall|i: int| 0 <= i < r@.len() ==> is_base32_char(#[trigger] r@[i]),
{
    data_encoding::BASE32_NOPAD.encode(input)
}

/// Decodes with `data_encoding::BASE32_NOPAD.decode`, turning the crate's error
/// into its message. The contract names the outcome and states that text which
/// the encoder produced decodes to the bytes it was produced from. The crate
/// asserts that the input is at most `usize::MAX / 8` bytes long.
#[verifier::external_body]
fn base32_nopad_decode(input: &str) -> (r: std::result::Result<Vec<u8>, String>)
    requires
        input.spec_bytes().len() <= usize::MAX / 8,
    ensures
        r is Ok <==> base32_bytes(input@) is Some,
        r matches Ok(v) ==> base32_bytes(input@) == Some(v@),
        r is Err ==> forall|b: Seq<u8>| input@ != #[trigger] base32_text(b),
        r matches Ok(v) ==> forall|b: Seq<u8>| input@ == #[trigger] base32_text(b) ==> v@ == b,
{
    data_encoding::BASE32_NOPAD.decode(input.as_bytes()).map_err(|e| e.to_string())
}

/// Encodes with `bs58::encode(..).into_string()`; the contract names the result.
#[verifier::external_body]
fn bs58_encode(input: &[u8]) -> (r: String)
    ensures
        r@ == base58_text(input@),
{
    bs58::encode(input).into_string()
}

/// Whether `c` is in the Bitcoin base58 alphabet: the digits `1`-`9` and the
/// letters without `0`, `O`, `I` and `l`.
pub open spec fn is_base58_char(c: char) -> bool {
    ||| '1' <= c <= '9'
    ||| 'A' <= c <= 'H'
    ||| 'J' <= c <= 'N'
    ||| 'P' <= c <= 'Z'
    ||| 'a' <= c <= 'k'
    ||| 'm' <= c <= 'z'
}

/// Decodes with `bs58::decode(..).into_vec()`, turning the crate's error into its
/// message. The contract names the outcome, states that text the encoder
/// produced decodes to the bytes it was produced from, and that a character
/// outside the Bitcoin alphabet (non-ASCII ones included) is refused.
#[verifier::external_body]
fn bs58_decode(input: &str) -> (r: std::result::Result<Vec<u8>, String>)
    ensures
        r is Ok <==> base58_bytes(input@) is Some,
        (exists|i: int| 0 <= i < input@.len() && !is_base58_char(#[trigger] input@[i])) ==> r is Err,
        r matches Ok(v) ==> base58_bytes(input@) == Some(v@),
        r is Err ==> forall|b: Seq<u8>| input@ != #[trigger] base58_text(b),
        r matches Ok(v) ==> forall|b: Seq<u8>| input@ == #[trigger] base58_text(b) ==> v@ == b,
{
    bs58::decode(input).into_vec().map_err(|e| e.to_string())
}

/// Encodes with `base64::engine::general_purpose::STANDARD.encode`. The contract
/// names the result and states its documented length, four characters for
/// every started group of three bytes, and its alphabet. The crate panics when that length
/// overflows `usize`.
#[verifier::external_body]
pub(crate) fn base64_encode(input: &[u8]) -> (r: String)
    requires
        input@.len() / 3 * 4 + 4 <= usize::MAX,
    ensures
        r@ == base64_text(input@),
        r@.len() == 4 * ((input@.len() + 2) / 3),
        forall|i: int| 0 <= i < r@.len() ==> is_base64_char(#[trigger] r@[i]),
{
    base64::engine::general_purpose::STANDARD.encode(input)
}

/// Decodes with `base64::engine::general_purpose::STANDARD.decode`, turning the
/// crate's error into its message. The contract names the outcome and states
/// that text the encoder produced decodes to the bytes it was produced from.
#[verifier::external_body]
pub(crate) fn base64_decode(input: &str) -> (r: std::result::Result<Vec<u8>, String>)
    ensures
        r is Ok <==> base64_bytes(input@) is Some,
        r matches Ok(v) ==> base64_bytes(input@) == Some(v@),
        r is Err ==> forall|b: Seq<u8>| input@ != #[trigger] base64_text(b),
        r matches Ok(v) ==> forall|b: Seq<u8>| input@ == #[trigger] base64_text(b) ==> v@ == b,
{
    base64::engine::general_purpose::STANDARD.decode(input).map_err(|e| e.to_string())
}

/// Encodes bytes as unpadded RFC 4648 base32 (`A-Z2-7`).
pub fn base32_encode(input: &[u8]) -> (r: String)
    requires
        input@.len() <= usize::MAX / 512,
    ensures
        r@ == base32_text(input@),
        forall|i: int| 0 <= i < r@.len() ==> is_base32_char(#[trigger] r@[i]),
{
    base32_nopad_encode(input)
}

/// Decodes an unpadded RFC 4648 base32 string; [`RaError::Decode`] on any invalid
/// character or length.
pub fn base32_decode(input: &str) -> (r: Result<Vec<u8>>)
    requires
        input.spec_bytes().len() <= usize::MAX / 8,
    ensures
        match base32_bytes(input@) {
            Some(b) => r matches Ok(v) && v@ == b,
            None => r matches Err(RaError::Decode(_)),
        },
        forall|b: Seq<u8>| input@ == #[trigger] base32_text(b) ==> (r matches Ok(v) && v@ == b),
{
    match base32_nopad_decode(input) {
        Ok(v) => Ok(v),
        Err(msg) => Err(RaError::decode(msg)),
    }
}

/// Encodes bytes as base58 (Bitcoin alphabet).
pub fn base58_encode(input: &[u8]) -> (r: String)
    ensures
        r@ == base58_text(input@),
{
    bs58_encode(input)
}

/// Decodes a base58 (Bitcoin alphabet) string; [`RaError::Decode`] on any
/// invalid character.
pub fn base58_decode(input: &str) -> (r: Result<Vec<u8>>)
    ensures
        match base58_bytes(input@) {
            Some(b) => r matches Ok(v) && v@ == b,
            None => r matches Err(RaError::Decode(_)),
        },
        forall|b: Seq<u8>| input@ == #[trigger] base58_text(b) ==> (r matches Ok(v) && v@ == b),
        (exists|i: int| 0 <= i < input@.len() && !is_base58_char(#[trigger] input@[i])) ==> r matches Err(
            RaError::Decode(_),
        ),
{
    match bs58_decode(input) {
        Ok(v) => Ok(v),
        Err(msg) => Err(RaError::decode(msg)),
    }
}

} // verus!
