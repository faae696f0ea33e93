//! Non-cryptographic random helpers drawing on the thread-local generator of
//! `rand`. For salts and key material see [`crate::crypto::hash_util`].

use rand::distributions::{Alphanumeric, Distribution, Uniform};
use rand::Rng;
use vstd::prelude::*;

verus! {

/// A value drawn uniformly from `lo..hi` by `rand::thread_rng().gen_range`.
/// The contract states the documented range; `gen_range` panics on an empty
/// range, which `requires` rules out. The value itself is left free.
#[verifier::external_body]
fn thread_rng_i64_in(lo: i64, hi: i64) -> (r: i64)
    requires
        lo < hi,
    ensures
        lo <= r < hi,
{
    rand::thread_rng().gen_range(lo..hi)
}

/// A value drawn uniformly from `lo..hi` by `rand::thread_rng().gen_range`, as
/// for the 64-bit version.
#[verifier::external_body]
fn thread_rng_i32_in(lo: i32, hi: i32) -> (r: i32)
    requires
        lo < hi,
    ensures
        lo <= r < hi,
{
    rand::thread_rng().gen_range(lo..hi)
}

/// Whether `c` is an ASCII letter or digit.
pub open spec fn is_alphanumeric(c: char) -> bool {
    ('0' <= c <= '9') || ('A' <= c <= 'Z') || ('a' <= c <= 'z')
}

/// `n` characters sampled from `rand`'s `Alphanumeric` distribution, which
/// yields the bytes `[0-9A-Za-z]`. The contract states the length and that
/// alphabet; the characters themselves are left free.
#[verifier::external_body]
fn thread_rng_alphanumeric(n: usize) -> (r: Vec<char>)
    ensures
        r@.len() == n,
        forall|i: int| 0 <= i < n ==> is_alphanumeric(#[trigger] r@[i]),
{
    rand::thread_rng().sample_iter(&Alphanumeric).take(n).map(char::from).collect()
}

/// `n` bytes sampled from `Uniform::new_inclusive(0u8, 255u8)`. The contract
/// states the length; the bytes are left free.
#[verifier::external_body]
fn thread_rng_bytes(n: usize) -> (r: Vec<u8>)
    ensures
        r@.len() == n,
{
    let dist = Uniform::new_inclusive(0u8, 255u8);
    let mut rng = rand::thread_rng();
    (0..n).map(|_| dist.sample(&mut rng)).collect()
}

/// A value of `rand::random::<u64>()`; nothing is stated of it.
#[verifier::external_body]
pub(crate) fn random_u64() -> (r: u64) {
    rand::random()
}

/// A random `i64` across the full range (upper bound exclusive).
pub fn next_long() -> (r: i64)
    ensures
        i64::MIN <= r < i64::MAX,
{
    thread_rng_i64_in(i64::MIN, i64::MAX)
}

/// A random `i64` in `i64::MIN..upper`.
pub fn next_long_to(upper: i64) -> (r: i64)
    requires
        upper > i64::MIN,
    ensures
        i64::MIN <= r < upper,
{
    thread_rng_i64_in(i64::MIN, upper)
}

/// A random `i64` in `lower..upper`.
pub fn next_long_in(lower: i64, upper: i64) -> (r: i64)
    requires
        lower < upper,
    ensures
        lower <= r < upper,
{
    thread_rng_i64_in(lower, upper)
}

/// A random `i32` across the full range (upper bound exclusive).
pub fn next_int() -> (r: i32)
    ensures
        i32::MIN <= r < i32::MAX,
{
    thread_rng_i32_in(i32::MIN, i32::MAX)
}

/// A random `i32` in `i32::MIN..upper`.
pub fn next_int_to(upper: i32) -> (r: i32)
    requires
        upper > i32::MIN,
    ensures
        i32::MIN <= r < upper,
{
    thread_rng_i32_in(i32::MIN, upper)
}

/// A random `i32` in `lower..upper`.
pub fn next_int_in(lower: i32, upper: i32) -> (r: i32)
    requires
        lower < upper,
    ensures
        lower <= r < upper,
{
    thread_rng_i32_in(lower, upper)
}

/// A random string of `length` characters drawn from `[0-9A-Za-z]`.
pub fn random_alphanumeric(length: usize) -> (r: String)
    ensures
        r@.len() == length,
        forall|i: int| 0 <= i < length ==> is_alphanumeric(#[trigger] r@[i]),
{
    let cs = thread_rng_alphanumeric(length);
    crate::text::string_of_chars(&cs)
}

/// `count` random bytes.
pub fn random_bytes(count: usize) -> (r: Vec<u8>)
    ensures
        r@.len() == count,
{
    thread_rng_bytes(count)
}

} // verus!
