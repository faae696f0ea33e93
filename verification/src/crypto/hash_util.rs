//! Digests, fingerprints and passphrase hashing.
//!
//! Formats produced here: `b64(digest(salt ++ content))_b64(salt)` for salted
//! digests, and `iterations_b64(salt)_b64(derived)` for PBKDF2 passphrase
//! hashes (1000 iterations, 64-byte derived key, 16-byte salt).

use crate::crypto::hash::HashAlgorithm;
use crate::encoding::{
    base64_bytes,
    base64_decode,
    base64_encode,
    base64_text,
    hex_bytes,
    hex_decode,
    hex_encode_upper,
    hex_text,
    is_base64_char,
};
use crate::error::{RaError, Result};
use crate::text::{
    chars_of,
    concat2,
    decimal,
    is_decimal_digit,
    lemma_decimal_round_trip,
    lemma_digits_decimal,
    lemma_split_none,
    lemma_split_step,
    owned,
    parse_u32,
    split_char,
    split_once_char,
    split_once_spec,
    split_spec,
    string_of_chars,
    u32_from_text,
    u64_text,
    views,
};
use sha1::Sha1;
use sha2::{Digest, Sha256, Sha512};
use subtle::ConstantTimeEq;
use vstd::prelude::*;
use vstd::string::StringSliceAdditionalSpecFns;
use vstd::utf8::{decode_utf8, valid_utf8};

verus! {

/// Number of PBKDF2 iterations used for passphrase hashes.
pub const PBKDF2_ITERATIONS: u32 = 1000;

/// Length in bytes of the key PBKDF2 derives for a passphrase hash.
pub const PBKDF2_KEY_LEN: usize = 64;

/// Length in bytes of a salt.
pub const SALT_LEN: usize = 16;

/// The longest derived key a verification will compute (the PBKDF2 block
/// counter is a `u32` over 20-byte blocks).
pub const PBKDF2_MAX_LEN: u64 = 85_899_345_900;

/// The SHA-1 digest of `data`.
pub uninterp spec fn sha1_digest(data: Seq<u8>) -> Seq<u8>;

/// The SHA-256 digest of `data`.
pub uninterp spec fn sha256_digest(data: Seq<u8>) -> Seq<u8>;

/// The SHA-512 digest of `data`.
pub uninterp spec fn sha512_digest(data: Seq<u8>) -> Seq<u8>;

/// The `len`-byte key PBKDF2-HMAC-SHA1 derives from `password` and `salt` in
/// `rounds` rounds.
pub uninterp spec fn pbkdf2_hmac_sha1(password: Seq<u8>, salt: Seq<u8>, rounds: u32, len: nat) -> Seq<
    u8,
>;

/// `Sha1::digest`; the contract names the digest and states its 20-byte length.
#[verifier::external_body]
pub(crate) fn sha1_of(data: &[u8]) -> (r: Vec<u8>)
    ensures
        r@ == sha1_digest(data@),
        r@.len() == 20,
{
    Sha1::digest(data).to_vec()
}

/// `Sha256::digest`; the contract names the digest and states its 32-byte length.
#[verifier::external_body]
fn sha256_of(data: &[u8]) -> (r: Vec<u8>)
    ensures
        r@ == sha256_digest(data@),
        r@.len() == 32,
{
    Sha256::digest(data).to_vec()
}

/// `Sha512::digest`; the contract names the digest and states its 64-byte length.
#[verifier::external_body]
fn sha512_of(data: &[u8]) -> (r: Vec<u8>)
    ensures
        r@ == sha512_digest(data@),
        r@.len() == 64,
{
    Sha512::digest(data).to_vec()
}

/// `pbkdf2::pbkdf2_hmac::<Sha1>` into a fresh buffer of `len` bytes; the
/// contract names the key and states its length. The crate numbers 20-byte
/// blocks with a `u32`, which `requires` keeps from overflowing.
#[verifier::external_body]
fn pbkdf2_sha1(password: &[u8], salt: &[u8], rounds: u32, len: usize) -> (r: Vec<u8>)
    requires
        len <= PBKDF2_MAX_LEN,
    ensures
        r@ == pbkdf2_hmac_sha1(password@, salt@, rounds, len as nat),
        r@.len() == len,
{
    let mut out = vec![0u8; len];
    pbkdf2::pbkdf2_hmac::<Sha1>(password, salt, rounds, &mut out);
    out
}

/// `subtle::ConstantTimeEq::ct_eq` on two byte slices, read as a `bool`; the
/// crate documents it as equality (different lengths compare unequal).
#[verifier::external_body]
fn constant_time_eq(a: &[u8], b: &[u8]) -> (r: bool)
    ensures
        r == (a@ == b@),
{
    bool::from(a.ct_eq(b))
}

/// Sixteen bytes from `rand::rngs::OsRng::fill_bytes`; nothing is stated of the
/// bytes (the generator panics only when the operating system fails to
/// supply randomness).
#[verifier::external_body]
fn os_random_salt() -> (r: [u8; 16]) {
    let mut s = [0u8; 16];
    rand::RngCore::fill_bytes(&mut rand::rngs::OsRng, &mut s);
    s
}

/// `std::str::from_utf8` on `bytes`, owned, with the error turned into its
/// message; the contract states what the standard library documents: success
/// exactly on valid UTF-8, with the characters it encodes.
#[verifier::external_body]
fn utf8_string(bytes: &[u8]) -> (r: std::result::Result<String, String>)
    ensures
        r is Ok <==> valid_utf8(bytes@),
        r matches Ok(s) ==> s@ == decode_utf8(bytes@),
{
    std::str::from_utf8(bytes).map(|s| s.to_string()).map_err(|e| e.to_string())
}

/// The digest of `data` under `algorithm`, or `None` for PBKDF2, which is a
/// key-derivation function rather than a plain digest.
pub open spec fn digest_of(data: Seq<u8>, algorithm: HashAlgorithm) -> Option<Seq<u8>> {
    match algorithm {
        HashAlgorithm::Sha1 => Some(sha1_digest(data)),
        HashAlgorithm::Sha256 => Some(sha256_digest(data)),
        HashAlgorithm::Sha512 => Some(sha512_digest(data)),
        HashAlgorithm::Pbkdf2HmacSha1 => None,
    }
}

/// The length in bytes of a plain digest (`0` for PBKDF2, which has none).
pub open spec fn digest_len(algorithm: HashAlgorithm) -> nat {
    match algorithm {
        HashAlgorithm::Sha1 => 20,
        HashAlgorithm::Sha256 => 32,
        HashAlgorithm::Sha512 => 64,
        HashAlgorithm::Pbkdf2HmacSha1 => 0,
    }
}

/// `h` cut into blocks of four characters joined by `:`.
pub open spec fn grouped_hex(h: Seq<char>) -> Seq<char>
    decreases h.len(),
{
    if h.len() <= 4 {
        h
    } else {
        h.take(4) + seq![':'] + grouped_hex(h.skip(4))
    }
}

/// `s` without its `:` characters.
pub open spec fn without_colons(s: Seq<char>) -> Seq<char>
    decreases s.len(),
{
    if s.len() == 0 {
        s
    } else if s[0] == ':' {
        without_colons(s.drop_first())
    } else {
        seq![s[0]] + without_colons(s.drop_first())
    }
}

/// The salted-digest text of `content` under `salt`.
pub open spec fn salted_hash_text(content: Seq<u8>, salt: Seq<u8>, algorithm: HashAlgorithm) -> Seq<
    char,
> {
    base64_text(digest_of(salt + content, algorithm).unwrap()) + seq!['_'] + base64_text(salt)
}

/// The passphrase-hash text for `salt` and the key derived with it.
pub open spec fn password_hash_text(salt: Seq<u8>, derived: Seq<u8>) -> Seq<char> {
    decimal(PBKDF2_ITERATIONS as nat) + seq!['_'] + base64_text(salt) + seq!['_'] + base64_text(
        derived,
    )
}

/// Whether `text` is a passphrase-hash text that `password` matches: three
/// `_`-separated fields, a decimal iteration count, a base64 salt and a base64
/// derived key no longer than [`PBKDF2_MAX_LEN`] which PBKDF2 reproduces.
pub open spec fn password_matches(password: Seq<u8>, text: Seq<char>) -> bool {
    let parts = split_spec(text, '_');
    parts.len() == 3 && match (
        u32_from_text(parts[0]),
        base64_bytes(parts[1]),
        base64_bytes(parts[2]),
    ) {
        (Some(iterations), Some(salt), Some(expected)) => expected.len() <= PBKDF2_MAX_LEN
            && pbkdf2_hmac_sha1(password, salt, iterations, expected.len()) == expected,
        _ => false,
    }
}

/// A salted-digest text made from `content`: some 16-byte salt, with base64
/// fields free of `_`.
pub open spec fn is_salted_hash_of(content: Seq<u8>, text: Seq<char>, algorithm: HashAlgorithm) -> bool {
    exists|salt: Seq<u8>|
        #![trigger salted_hash_text(content, salt, algorithm)]
        salt.len() == SALT_LEN && digest_of(salt + content, algorithm) is Some && !base64_text(
            digest_of(salt + content, algorithm).unwrap(),
        ).contains('_') && text == salted_hash_text(content, salt, algorithm)
}

/// A passphrase-hash text made from `password`: some 16-byte salt and the
/// 64-byte key PBKDF2 derives with it.
pub open spec fn is_password_hash_of(password: Seq<u8>, text: Seq<char>) -> bool {
    exists|salt: Seq<u8>, derived: Seq<u8>|
        #![trigger password_hash_text(salt, derived)]
        salt.len() == SALT_LEN && derived.len() == PBKDF2_KEY_LEN && derived == pbkdf2_hmac_sha1(
            password,
            salt,
            PBKDF2_ITERATIONS,
            PBKDF2_KEY_LEN as nat,
        ) && !base64_text(salt).contains('_') && !base64_text(derived).contains('_')
            && base64_text(salt).len() == 24 && base64_text(derived).len() == 88 && text
            == password_hash_text(salt, derived)
}

/// Sixteen cryptographically-secure random salt bytes.
pub fn salt() -> (r: [u8; 16])
    ensures
        r@.len() == SALT_LEN,
{
    os_random_salt()
}

/// The raw digest of `data` with `algorithm`; [`RaError::Crypto`] for
/// [`HashAlgorithm::Pbkdf2HmacSha1`].
pub fn digest(data: &[u8], algorithm: HashAlgorithm) -> (r: Result<Vec<u8>>)
    ensures
        match digest_of(data@, algorithm) {
            Some(d) => r matches Ok(v) && v@ == d,
            None => r matches Err(RaError::Crypto(_)),
        },
        r matches Ok(v) ==> v@.len() == digest_len(algorithm),
{
    match algorithm {
        HashAlgorithm::Sha1 => Ok(sha1_of(data)),
        HashAlgorithm::Sha256 => Ok(sha256_of(data)),
        HashAlgorithm::Sha512 => Ok(sha512_of(data)),
        HashAlgorithm::Pbkdf2HmacSha1 => Err(
            RaError::crypto(owned("PBKDF2 is not a plain digest")),
        ),
    }
}

/// What remains of `grouped_hex(h)` once the blocks before index `i` are out.
pub open spec fn grouped_tail(h: Seq<char>, i: int) -> Seq<char> {
    if i == 0 {
        grouped_hex(h)
    } else if i >= h.len() {
        Seq::empty()
    } else {
        seq![':'] + grouped_hex(h.skip(i))
    }
}

/// Upper-case hex of `bytes`, grouped into blocks of four characters separated
/// by `:`.
pub fn to_hex(bytes: &[u8]) -> (r: String)
    ensures
        r@ == grouped_hex(hex_text(bytes@, true)),
{
    let hex = hex_encode_upper(bytes);
    let h = chars_of(hex.as_str());
    let n = h.len();
    let mut out: Vec<char> = Vec::new();
    let mut i: usize = 0;
    assert(h@.skip(0) =~= h@);
    while i < n
        invariant
            n == h@.len(),
            i <= n,
            grouped_hex(h@) == out@ + grouped_tail(h@, i as int),
        decreases n - i,
    {
        let ghost rest = h@.skip(i as int);
        let ghost before = out@;
        let ghost prefix: Seq<char> = if i > 0 {
            seq![':']
        } else {
            Seq::empty()
        };
        if i > 0 {
            out.push(':');
        }
        let stop = if n - i > 4 {
            i + 4
        } else {
            n
        };
        let mut j: usize = i;
        while j < stop
            invariant
                i < stop <= n,
                stop == if n - i > 4 {
                    i + 4
                } else {
                    n as int
                },
                i <= j <= stop,
                n == h@.len(),
                rest == h@.skip(i as int),
                out@ == before + prefix + rest.take(j - i),
            decreases stop - j,
        {
            out.push(h[j]);
            j = j + 1;
            assert(rest.take(j - i) =~= rest.take(j - 1 - i).push(h@[j - 1]));
        }
        proof {
            if rest.len() <= 4 {
                assert(rest.take(j - i) =~= rest);
                assert(grouped_tail(h@, i as int) == prefix + rest);
            } else {
                assert(rest.skip(4) =~= h@.skip(i + 4));
                assert(grouped_tail(h@, i as int) == prefix + (rest.take(4) + seq![':']
                    + grouped_hex(rest.skip(4))));
                assert(grouped_tail(h@, j as int) == seq![':'] + grouped_hex(h@.skip(j as int)));
            }
            assert(out@ + grouped_tail(h@, j as int) =~= before + grouped_tail(h@, i as int));
        }
        i = j;
    }
    string_of_chars(&out)
}

proof fn lemma_without_colons_concat(a: Seq<char>, b: Seq<char>)
    ensures
        without_colons(a + b) == without_colons(a) + without_colons(b),
    decreases a.len(),
{
    if a.len() == 0 {
        assert(a + b =~= b);
    } else {
        assert((a + b).drop_first() =~= a.drop_first() + b);
        lemma_without_colons_concat(a.drop_first(), b);
        assert((a + b)[0] == a[0]);
    }
}

proof fn lemma_without_colons_single(c: char)
    ensures
        without_colons(seq![c]) == if c == ':' {
            Seq::<char>::empty()
        } else {
            seq![c]
        },
{
    assert(seq![c].drop_first() =~= Seq::<char>::empty());
    assert(without_colons(Seq::<char>::empty()) == Seq::<char>::empty());
    assert(seq![c] + Seq::<char>::empty() =~= seq![c]);
}

proof fn lemma_without_colons_none(a: Seq<char>)
    requires
        !a.contains(':'),
    ensures
        without_colons(a) == a,
    decreases a.len(),
{
    if a.len() > 0 {
        assert(!a.drop_first().contains(':')) by {
            if a.drop_first().contains(':') {
                let k = choose|k: int| 0 <= k < a.drop_first().len() && a.drop_first()[k] == ':';
                assert(a[k + 1] == ':');
            }
        }
        lemma_without_colons_none(a.drop_first());
        assert(a[0] != ':');
        assert(seq![a[0]] + a.drop_first() =~= a);
    }
}

proof fn lemma_without_colons_grouped(h: Seq<char>)
    ensures
        without_colons(grouped_hex(h)) == without_colons(h),
    decreases h.len(),
{
    if h.len() > 4 {
        lemma_without_colons_grouped(h.skip(4));
        lemma_without_colons_concat(h.take(4) + seq![':'], grouped_hex(h.skip(4)));
        lemma_without_colons_concat(h.take(4), seq![':']);
        lemma_without_colons_single(':');
        lemma_without_colons_concat(h.take(4), h.skip(4));
        assert(h.take(4) + h.skip(4) =~= h);
        assert(without_colons(h.take(4)) + Seq::<char>::empty() =~= without_colons(h.take(4)));
    }
}

proof fn lemma_hex_text_no_colon(b: Seq<u8>, upper: bool)
    ensures
        !hex_text(b, upper).contains(':'),
    decreases b.len(),
{
    if b.len() > 0 {
        lemma_hex_text_no_colon(b.drop_first(), upper);
        let t = hex_text(b, upper);
        let rest = hex_text(b.drop_first(), upper);
        assert forall|k: int| 0 <= k < t.len() implies t[k] != ':' by {
            if k >= 2 {
                assert(t[k] == rest[k - 2]);
            }
        }
    }
}

/// Ungrouping and decoding the fingerprint-style hex of `b` gives back `b`.
pub proof fn lemma_grouped_hex_round_trip(b: Seq<u8>)
    ensures
        hex_bytes(without_colons(grouped_hex(hex_text(b, true)))) == Some(b),
{
    lemma_without_colons_grouped(hex_text(b, true));
    lemma_hex_text_no_colon(b, true);
    lemma_without_colons_none(hex_text(b, true));
    crate::crypto::multihash::lemma_hex_round_trip(b, true);
}

/// Inverse of [`to_hex`]: `:` separators are dropped and the rest decoded as
/// hex; [`RaError::Decode`] if the remaining characters are not valid hex.
pub fn from_hex(s: &str) -> (r: Result<Vec<u8>>)
    ensures
        match hex_bytes(without_colons(s@)) {
            Some(b) => r matches Ok(v) && v@ == b,
            None => r matches Err(RaError::Decode(_)),
        },
{
    let cs = chars_of(s);
    let mut out: Vec<char> = Vec::new();
    let mut i: usize = 0;
    while i < cs.len()
        invariant
            cs@ == s@,
            i <= cs@.len(),
            out@ == without_colons(cs@.take(i as int)),
        decreases cs@.len() - i,
    {
        let c = cs[i];
        proof {
            assert(cs@.take(i + 1) =~= cs@.take(i as int) + seq![c]);
            lemma_without_colons_concat(cs@.take(i as int), seq![c]);
            lemma_without_colons_single(c);
        }
        if c != ':' {
            out.push(c);
            assert(out@ =~= without_colons(cs@.take(i as int)) + seq![c]);
        } else {
            assert(without_colons(cs@.take(i as int)) + Seq::<char>::empty() =~= without_colons(
                cs@.take(i as int),
            ));
        }
        i = i + 1;
    }
    assert(cs@.take(i as int) =~= s@);
    let clean = string_of_chars(&out);
    match hex_decode(clean.as_str()) {
        Ok(v) => Ok(v),
        Err(msg) => Err(RaError::decode(msg)),
    }
}

/// Fingerprint: the digest of `data`, hex-encoded via [`to_hex`];
/// [`RaError::Crypto`] for PBKDF2.
pub fn generate_fingerprint(data: &[u8], algorithm: HashAlgorithm) -> (r: Result<String>)
    ensures
        match digest_of(data@, algorithm) {
            Some(d) => r matches Ok(t) && t@ == grouped_hex(hex_text(d, true)) && d.len()
                == digest_len(algorithm) && t@.len() == 2 * digest_len(algorithm) + (2
                * digest_len(algorithm) - 1) / 4,
            None => r matches Err(RaError::Crypto(_)),
        },
{
    let d = digest(data, algorithm)?;
    proof {
        lemma_hex_text_len(d@, true);
        lemma_grouped_hex_len(hex_text(d@, true));
    }
    Ok(to_hex(&d))
}

/// Hex text has two characters per byte.
proof fn lemma_hex_text_len(b: Seq<u8>, upper: bool)
    ensures
        hex_text(b, upper).len() == 2 * b.len(),
    decreases b.len(),
{
    if b.len() > 0 {
        lemma_hex_text_len(b.drop_first(), upper);
    }
}

/// Grouping adds one `:` between each two blocks of four.
proof fn lemma_grouped_hex_len(h: Seq<char>)
    requires
        h.len() >= 1,
    ensures
        grouped_hex(h).len() == h.len() + (h.len() - 1) / 4,
    decreases h.len(),
{
    if h.len() > 4 {
        lemma_grouped_hex_len(h.skip(4));
    }
}

fn concat_bytes(a: &[u8], b: &[u8]) -> (r: Vec<u8>)
    ensures
        r@ == a@ + b@,
{
    let mut out: Vec<u8> = Vec::new();
    let mut i: usize = 0;
    while i < a.len()
        invariant
            i <= a@.len(),
            out@ == a@.take(i as int),
        decreases a@.len() - i,
    {
        out.push(a[i]);
        i = i + 1;
        assert(out@ =~= a@.take(i as int));
    }
    let mut j: usize = 0;
    while j < b.len()
        invariant
            i == a@.len(),
            j <= b@.len(),
            out@ == a@ + b@.take(j as int),
        decreases b@.len() - j,
    {
        out.push(b[j]);
        j = j + 1;
        assert(out@ =~= a@ + b@.take(j as int));
    }
    assert(a@.take(a@.len() as int) =~= a@);
    assert(b@.take(b@.len() as int) =~= b@);
    out
}

fn salted_with(content: &[u8], s: &[u8], algorithm: HashAlgorithm) -> (r: String)
    requires
        s@.len() == SALT_LEN,
        algorithm != HashAlgorithm::Pbkdf2HmacSha1,
    ensures
        r@ == salted_hash_text(content@, s@, algorithm),
        !base64_text(digest_of(s@ + content@, algorithm).unwrap()).contains('_'),
{
    let buf = concat_bytes(s, content);
    let h = match digest(&buf, algorithm) {
        Ok(h) => h,
        Err(_) => {
            return String::new();
        },
    };
    let hb = base64_encode(&h);
    let sb = base64_encode(s);
    proof {
        assert(!hb@.contains('_')) by {
            if hb@.contains('_') {
                let k = choose|k: int| 0 <= k < hb@.len() && hb@[k] == '_';
                assert(is_base64_char(hb@[k]));
            }
        }
    }
    let mut out = concat2(hb.as_str(), "_");
    out.append(sb.as_str());
    proof {
        reveal_strlit("_");
        assert(out@ =~= salted_hash_text(content@, s@, algorithm));
    }
    out
}

fn password_hash_with(password: &str, s: &[u8]) -> (r: String)
    requires
        s@.len() == SALT_LEN,
    ensures
        is_password_hash_of(password.spec_bytes(), r@),
        r@.len() == 118,
        r@.take(5) == seq!['1', '0', '0', '0', '_'],
{
    let derived = pbkdf2_sha1(password.as_bytes(), s, PBKDF2_ITERATIONS, PBKDF2_KEY_LEN);
    let iterations = u64_text(PBKDF2_ITERATIONS as u64, 10);
    let sb = base64_encode(s);
    let db = base64_encode(&derived);
    proof {
        assert(!sb@.contains('_')) by {
            if sb@.contains('_') {
                let k = choose|k: int| 0 <= k < sb@.len() && sb@[k] == '_';
                assert(is_base64_char(sb@[k]));
            }
        }
        assert(!db@.contains('_')) by {
            if db@.contains('_') {
                let k = choose|k: int| 0 <= k < db@.len() && db@[k] == '_';
                assert(is_base64_char(db@[k]));
            }
        }
    }
    let mut out = concat2(iterations.as_str(), "_");
    out.append(sb.as_str());
    out.append("_");
    out.append(db.as_str());
    proof {
        reveal_strlit("_");
        assert(out@ =~= password_hash_text(s@, derived@));
        assert(password_hash_text(s@, derived@) == password_hash_text(s@, derived@));
        assert(crate::text::digits_in_base(1, 10) =~= seq!['1']);
        assert(crate::text::digits_in_base(10, 10) =~= seq!['1', '0']);
        assert(crate::text::digits_in_base(100, 10) =~= seq!['1', '0', '0']);
        assert(decimal(1000nat) =~= seq!['1', '0', '0', '0']);
        assert(out@.take(5) =~= seq!['1', '0', '0', '0', '_']);
    }
    out
}

proof fn lemma_no_char_in_decimal(n: nat, c: char)
    requires
        !is_decimal_digit(c),
    ensures
        !decimal(n).contains(c),
{
    lemma_digits_decimal(n);
    if decimal(n).contains(c) {
        let k = choose|k: int| 0 <= k < decimal(n).len() && decimal(n)[k] == c;
        assert(is_decimal_digit(decimal(n)[k]));
    }
}

/// The pieces of a passphrase-hash text are its three fields.
proof fn lemma_password_hash_fields(salt: Seq<u8>, derived: Seq<u8>)
    requires
        !base64_text(salt).contains('_'),
        !base64_text(derived).contains('_'),
    ensures
        split_spec(password_hash_text(salt, derived), '_') == seq![
            decimal(PBKDF2_ITERATIONS as nat),
            base64_text(salt),
            base64_text(derived),
        ],
{
    let d = decimal(PBKDF2_ITERATIONS as nat);
    let a = base64_text(salt);
    let b = base64_text(derived);
    lemma_no_char_in_decimal(PBKDF2_ITERATIONS as nat, '_');
    assert(password_hash_text(salt, derived) =~= d + seq!['_'] + (a + seq!['_'] + b));
    lemma_split_step(d, a + seq!['_'] + b, '_');
    lemma_split_step(a, b, '_');
    lemma_split_none(b, '_');
    assert(seq![d] + (seq![a] + seq![b]) =~= seq![d, a, b]);
}

/// Verifies a passphrase against a string from [`generate_password_hash`].
pub fn verify_password_hash(password: &str, hash_to_verify: &str) -> (r: bool)
    ensures
        r == password_matches(password.spec_bytes(), hash_to_verify@),
        is_password_hash_of(password.spec_bytes(), hash_to_verify@) ==> r,
{
    let parts = split_char(hash_to_verify, '_');
    proof {
        if is_password_hash_of(password.spec_bytes(), hash_to_verify@) {
            let (salt, derived) = choose|salt: Seq<u8>, derived: Seq<u8>|
                #![trigger password_hash_text(salt, derived)]
                salt.len() == SALT_LEN && derived.len() == PBKDF2_KEY_LEN && derived
                    == pbkdf2_hmac_sha1(
                    password.spec_bytes(),
                    salt,
                    PBKDF2_ITERATIONS,
                    PBKDF2_KEY_LEN as nat,
                ) && !base64_text(salt).contains('_') && !base64_text(derived).contains('_')
                    && hash_to_verify@ == password_hash_text(salt, derived);
            lemma_password_hash_fields(salt, derived);
            lemma_decimal_round_trip(PBKDF2_ITERATIONS);
            assert(split_spec(hash_to_verify@, '_').len() == 3);
            assert(views(parts@).len() == parts@.len());
        }
    }
    if parts.len() != 3 {
        return false;
    }
    assert(parts@[0]@ == split_spec(hash_to_verify@, '_')[0]);
    assert(parts@[1]@ == split_spec(hash_to_verify@, '_')[1]);
    assert(parts@[2]@ == split_spec(hash_to_verify@, '_')[2]);
    let iterations = match parse_u32(parts[0].as_str()) {
        Some(n) => n,
        None => {
            return false;
        },
    };
    let s = match base64_decode(parts[1].as_str()) {
        Ok(v) => v,
        Err(_) => {
            return false;
        },
    };
    let expected = match base64_decode(parts[2].as_str()) {
        Ok(v) => v,
        Err(_) => {
            return false;
        },
    };
    if expected.len() as u64 > PBKDF2_MAX_LEN {
        return false;
    }
    let out = pbkdf2_sha1(password.as_bytes(), &s, iterations, expected.len());
    constant_time_eq(&out, &expected)
}

/// Hashes `content`. For [`HashAlgorithm::Pbkdf2HmacSha1`] the content is read as
/// UTF-8 ([`RaError::Invalid`] if it is not) and given a passphrase hash;
/// otherwise it is salted and digested, as `b64(digest(salt ++ content))_b64(salt)`.
pub fn generate_hash(content: &[u8], algorithm: HashAlgorithm) -> (r: Result<String>)
    ensures
        algorithm != HashAlgorithm::Pbkdf2HmacSha1 ==> (r matches Ok(t) && is_salted_hash_of(
            content@,
            t@,
            algorithm,
        )),
        algorithm == HashAlgorithm::Pbkdf2HmacSha1 ==> {
            &&& valid_utf8(content@) ==> (r matches Ok(t) && is_password_hash_of(
                vstd::utf8::encode_utf8(decode_utf8(content@)),
                t@,
            ))
            &&& !valid_utf8(content@) ==> (r matches Err(RaError::Invalid(_)))
        },
{
    if algorithm == HashAlgorithm::Pbkdf2HmacSha1 {
        return match utf8_string(content) {
            Ok(text) => Ok(generate_password_hash(text.as_str())),
            Err(msg) => Err(RaError::invalid(msg)),
        };
    }
    let s = salt();
    let t = salted_with(content, &s, algorithm);
    proof {
        assert(salted_hash_text(content@, s@, algorithm) == t@);
    }
    Ok(t)
}

/// Verifies `content` against a string produced by [`generate_hash`].
///
/// For PBKDF2 the content is read as UTF-8 ([`RaError::Invalid`] if it is not)
/// and checked with [`verify_password_hash`]. Otherwise the text must hold a `_`
/// ([`RaError::Invalid`]) with base64 on both sides ([`RaError::Decode`]), and the
/// result says whether the digest of `salt ++ content` is the one recorded.
pub fn verify_hash(content: &[u8], hash_to_verify: &str, algorithm: HashAlgorithm) -> (r: Result<
    bool,
>)
    ensures
        algorithm == HashAlgorithm::Pbkdf2HmacSha1 ==> {
            &&& valid_utf8(content@) ==> r == Ok::<bool, RaError>(
                password_matches(
                    vstd::utf8::encode_utf8(decode_utf8(content@)),
                    hash_to_verify@,
                ),
            )
            &&& !valid_utf8(content@) ==> (r matches Err(RaError::Invalid(_)))
            &&& (valid_utf8(content@) && is_password_hash_of(
                vstd::utf8::encode_utf8(decode_utf8(content@)),
                hash_to_verify@,
            )) ==> r == Ok::<bool, RaError>(true)
        },
        algorithm != HashAlgorithm::Pbkdf2HmacSha1 ==> {
            &&& match split_once_spec(hash_to_verify@, '_') {
                None => r matches Err(RaError::Invalid(_)),
                Some((a, b)) => match (base64_bytes(a), base64_bytes(b)) {
                    (Some(h), Some(s)) => r == Ok::<bool, RaError>(
                        digest_of(s + content@, algorithm).unwrap() == h,
                    ),
                    _ => r matches Err(RaError::Decode(_)),
                },
            }
            &&& is_salted_hash_of(content@, hash_to_verify@, algorithm) ==> r == Ok::<
                bool,
                RaError,
            >(true)
        },
{
    if algorithm == HashAlgorithm::Pbkdf2HmacSha1 {
        return match utf8_string(content) {
            Ok(text) => Ok(verify_password_hash(text.as_str(), hash_to_verify)),
            Err(msg) => Err(RaError::invalid(msg)),
        };
    }
    proof {
        if is_salted_hash_of(content@, hash_to_verify@, algorithm) {
            let salt = choose|salt: Seq<u8>|
                #![trigger salted_hash_text(content@, salt, algorithm)]
                salt.len() == SALT_LEN && digest_of(salt + content@, algorithm) is Some
                    && !base64_text(digest_of(salt + content@, algorithm).unwrap()).contains('_')
                    && hash_to_verify@ == salted_hash_text(content@, salt, algorithm);
            let a = base64_text(digest_of(salt + content@, algorithm).unwrap());
            let b = base64_text(salt);
            assert(hash_to_verify@ =~= a + (seq!['_'] + b));
            crate::text::lemma_find_char_prefix(a, seq!['_'] + b, '_');
            assert(hash_to_verify@.take(a.len() as int) =~= a);
            assert(hash_to_verify@.skip(a.len() as int + 1) =~= b);
        }
    }
    let (h_b64, s_b64) = match split_once_char(hash_to_verify, '_') {
        Some(p) => p,
        None => {
            return Err(RaError::invalid(owned("malformed hash")));
        },
    };
    let expected = match base64_decode(h_b64.as_str()) {
        Ok(v) => v,
        Err(msg) => {
            return Err(RaError::decode(msg));
        },
    };
    let s = match base64_decode(s_b64.as_str()) {
        Ok(v) => v,
        Err(msg) => {
            return Err(RaError::decode(msg));
        },
    };
    let buf = concat_bytes(&s, content);
    let actual = digest(&buf, algorithm)?;
    Ok(constant_time_eq(&actual, &expected))
}

/// PBKDF2-HMAC-SHA1 passphrase hash: `iterations_b64(salt)_b64(derived)`, with
/// 1000 iterations, a fresh 16-byte salt and a 64-byte derived key.
pub fn generate_password_hash(password: &str) -> (r: String)
    ensures
        is_password_hash_of(password.spec_bytes(), r@),
        r@.len() == 118,
        r@.take(5) == seq!['1', '0', '0', '0', '_'],
{
    let s = salt();
    password_hash_with(password, &s)
}

} // verus!
