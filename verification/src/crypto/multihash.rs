//! A simplified multihash: a one-byte type code, a one-byte length, then the
//! digest (a fixed two-byte header, not the varint multihash format).

use crate::encoding::{
    base58_bytes,
    base58_decode,
    base58_encode,
    is_base58_char,
    base58_text,
    hex_bytes,
    hex_decode,
    hex_encode_lower,
    hex_text,
};
use crate::error::{RaError, Result};
use crate::text::owned;
use vstd::prelude::*;

verus! {

/// Known multihash digest types with their code and digest length in bytes.
#[derive(Debug, Clone, Copy, PartialEq, Eq, Hash, Structural)]
pub enum MultihashType {
    Sha1,
    Sha2_256,
    Sha2_512,
    Sha3,
    Blake2b,
    Blake2s,
}

impl MultihashType {
    /// The type code.
    pub open spec fn spec_code(self) -> u8 {
        match self {
            MultihashType::Sha1 => 0x11,
            MultihashType::Sha2_256 => 0x12,
            MultihashType::Sha2_512 => 0x13,
            MultihashType::Sha3 => 0x14,
            MultihashType::Blake2b => 0x40,
            MultihashType::Blake2s => 0x41,
        }
    }

    /// The digest length in bytes.
    pub open spec fn spec_length(self) -> nat {
        match self {
            MultihashType::Sha1 => 20,
            MultihashType::Sha2_256 => 32,
            MultihashType::Sha2_512 => 64,
            MultihashType::Sha3 => 64,
            MultihashType::Blake2b => 64,
            MultihashType::Blake2s => 32,
        }
    }

    /// The type with a given code, if any.
    pub open spec fn of_code(code: u8) -> Option<MultihashType> {
        if code == 0x11 {
            Some(MultihashType::Sha1)
        } else if code == 0x12 {
            Some(MultihashType::Sha2_256)
        } else if code == 0x13 {
            Some(MultihashType::Sha2_512)
        } else if code == 0x14 {
            Some(MultihashType::Sha3)
        } else if code == 0x40 {
            Some(MultihashType::Blake2b)
        } else if code == 0x41 {
            Some(MultihashType::Blake2s)
        } else {
            None
        }
    }

    /// The multihash type code (`0x11` for sha1, ...).
    pub fn code(&self) -> (r: u8)
        ensures
            r == self.spec_code(),
    {
        match self {
            MultihashType::Sha1 => 0x11,
            MultihashType::Sha2_256 => 0x12,
            MultihashType::Sha2_512 => 0x13,
            MultihashType::Sha3 => 0x14,
            MultihashType::Blake2b => 0x40,
            MultihashType::Blake2s => 0x41,
        }
    }

    /// The expected digest length in bytes.
    pub fn length(&self) -> (r: usize)
        ensures
            r == self.spec_length(),
    {
        match self {
            MultihashType::Sha1 => 20,
            MultihashType::Sha2_256 => 32,
            MultihashType::Sha2_512 => 64,
            MultihashType::Sha3 => 64,
            MultihashType::Blake2b => 64,
            MultihashType::Blake2s => 32,
        }
    }

    /// Looks up a type by its code; [`RaError::Invalid`] for an unknown code.
    pub fn from_code(code: u8) -> (r: Result<MultihashType>)
        ensures
            match Self::of_code(code) {
                Some(t) => r == Ok::<MultihashType, RaError>(t),
                None => r matches Err(RaError::Invalid(_)),
            },
    {
        if code == 0x11 {
            Ok(MultihashType::Sha1)
        } else if code == 0x12 {
            Ok(MultihashType::Sha2_256)
        } else if code == 0x13 {
            Ok(MultihashType::Sha2_512)
        } else if code == 0x14 {
            Ok(MultihashType::Sha3)
        } else if code == 0x40 {
            Ok(MultihashType::Blake2b)
        } else if code == 0x41 {
            Ok(MultihashType::Blake2s)
        } else {
            Err(RaError::invalid(owned("unknown multihash type")))
        }
    }
}

/// Every type is found again by its code.
pub proof fn lemma_code_round_trip(t: MultihashType)
    ensures
        MultihashType::of_code(t.spec_code()) == Some(t),
        t.spec_length() <= 127,
{
}

/// The wire form `[code, len, ...digest]`.
pub open spec fn multihash_wire(kind: MultihashType, digest: Seq<u8>) -> Seq<u8> {
    seq![kind.spec_code(), digest.len() as u8] + digest
}

/// What the wire form `b` parses to: a known code, a length byte, at least that
/// many digest bytes (extra bytes are ignored), and a length that matches the
/// type.
pub open spec fn multihash_parse(b: Seq<u8>) -> Option<(MultihashType, Seq<u8>)> {
    if b.len() < 2 {
        None
    } else {
        match MultihashType::of_code(b[0]) {
            None => None,
            Some(kind) => {
                let len = b[1] as int;
                if b.len() < 2 + len || len != kind.spec_length() {
                    None
                } else {
                    Some((kind, b.subrange(2, 2 + len)))
                }
            },
        }
    }
}

/// The multihash code table: the wire form of a digest starts with its type's
/// code (sha1 `0x11`, sha2-256 `0x12`, sha2-512 `0x13`, sha3 `0x14`, blake2b
/// `0x40`, blake2s `0x41`) and its length (20, 32, 64, 64, 64 and 32 bytes), and
/// bytes that start with a code and that length read back as that type.
pub proof fn lemma_wire_code_table(kind: MultihashType, digest: Seq<u8>, b: Seq<u8>)
    ensures
        kind == MultihashType::Sha1 ==> multihash_wire(kind, digest)[0] == 0x11,
        kind == MultihashType::Sha2_256 ==> multihash_wire(kind, digest)[0] == 0x12,
        kind == MultihashType::Sha2_512 ==> multihash_wire(kind, digest)[0] == 0x13,
        kind == MultihashType::Sha3 ==> multihash_wire(kind, digest)[0] == 0x14,
        kind == MultihashType::Blake2b ==> multihash_wire(kind, digest)[0] == 0x40,
        kind == MultihashType::Blake2s ==> multihash_wire(kind, digest)[0] == 0x41,
        multihash_wire(kind, digest)[1] == digest.len() as u8,
        b.len() >= 22 && b[0] == 0x11 && b[1] == 20 ==> multihash_parse(b) == Some(
            (MultihashType::Sha1, b.subrange(2, 22)),
        ),
        b.len() >= 34 && b[0] == 0x12 && b[1] == 32 ==> multihash_parse(b) == Some(
            (MultihashType::Sha2_256, b.subrange(2, 34)),
        ),
        b.len() >= 66 && b[0] == 0x13 && b[1] == 64 ==> multihash_parse(b) == Some(
            (MultihashType::Sha2_512, b.subrange(2, 66)),
        ),
        b.len() >= 66 && b[0] == 0x14 && b[1] == 64 ==> multihash_parse(b) == Some(
            (MultihashType::Sha3, b.subrange(2, 66)),
        ),
        b.len() >= 66 && b[0] == 0x40 && b[1] == 64 ==> multihash_parse(b) == Some(
            (MultihashType::Blake2b, b.subrange(2, 66)),
        ),
        b.len() >= 34 && b[0] == 0x41 && b[1] == 32 ==> multihash_parse(b) == Some(
            (MultihashType::Blake2s, b.subrange(2, 34)),
        ),
{
}

/// A digest tagged with its type; the digest length always matches the type.
#[derive(Debug, PartialEq, Eq, Hash)]
pub struct Multihash {
    kind: MultihashType,
    hash: Vec<u8>,
}

impl Multihash {
    /// The type and digest bytes.
    pub closed spec fn view(&self) -> (MultihashType, Seq<u8>) {
        (self.kind, self.hash@)
    }

    /// The digest is as long as its type says.
    #[verifier::type_invariant]
    closed spec fn digest_fits(&self) -> bool {
        self.hash@.len() == self.kind.spec_length()
    }

    /// Builds from a type and its digest bytes; [`RaError::Invalid`] if `hash` is
    /// longer than 127 bytes or does not match `kind`'s expected length.
    pub fn new(kind: MultihashType, hash: Vec<u8>) -> (r: Result<Multihash>)
        ensures
            hash@.len() == kind.spec_length() ==> (r matches Ok(m) && m.view() == (kind, hash@)),
            hash@.len() != kind.spec_length() ==> r matches Err(RaError::Invalid(_)),
    {
        if hash.len() > 127 {
            return Err(RaError::invalid(owned("unsupported hash size")));
        }
        if hash.len() != kind.length() {
            return Err(RaError::invalid(owned("incorrect hash length")));
        }
        Ok(Multihash { kind, hash })
    }

    /// The type.
    pub fn kind(&self) -> (r: MultihashType)
        ensures
            r == self.view().0,
    {
        self.kind
    }

    /// The digest bytes.
    pub fn digest(&self) -> (r: &[u8])
        ensures
            r@ == self.view().1,
            r@.len() == self.view().0.spec_length(),
    {
        proof {
            use_type_invariant(self);
        }
        self.hash.as_slice()
    }

    /// `[code, len, ...digest]`.
    pub fn to_bytes(&self) -> (r: Vec<u8>)
        ensures
            r@ == multihash_wire(self.view().0, self.view().1),
            self.view().1.len() == self.view().0.spec_length(),
    {
        proof {
            use_type_invariant(self);
        }
        let mut out: Vec<u8> = Vec::new();
        out.push(self.kind.code());
        out.push(self.hash.len() as u8);
        let mut i: usize = 0;
        while i < self.hash.len()
            invariant
                i <= self.hash@.len(),
                out@ == seq![self.kind.spec_code(), self.hash@.len() as u8] + self.hash@.subrange(
                    0,
                    i as int,
                ),
            decreases self.hash@.len() - i,
        {
            out.push(self.hash[i]);
            i = i + 1;
        }
        assert(self.hash@.subrange(0, self.hash@.len() as int) =~= self.hash@);
        out
    }

    /// Parses the two-byte-header wire form; [`RaError::Invalid`] on a short
    /// buffer, unknown code or length mismatch.
    pub fn from_bytes(bytes: &[u8]) -> (r: Result<Multihash>)
        ensures
            match multihash_parse(bytes@) {
                Some(v) => r matches Ok(m) && m.view() == v,
                None => r matches Err(RaError::Invalid(_)),
            },
    {
        if bytes.len() < 2 {
            return Err(RaError::invalid(owned("multihash too short")));
        }
        let kind = MultihashType::from_code(bytes[0])?;
        let len = bytes[1] as usize;
        if bytes.len() < 2 + len {
            return Err(RaError::invalid(owned("multihash truncated")));
        }
        let mut digest: Vec<u8> = Vec::new();
        let mut i: usize = 2;
        while i < 2 + len
            invariant
                len <= 255,
                2 <= i <= 2 + len <= bytes@.len(),
                digest@ == bytes@.subrange(2, i as int),
            decreases 2 + len - i,
        {
            digest.push(bytes[i]);
            i = i + 1;
        }
        Multihash::new(kind, digest)
    }

    /// Lowercase, zero-padded hex of [`Multihash::to_bytes`].
    pub fn to_hex(&self) -> (r: String)
        ensures
            r@ == hex_text(multihash_wire(self.view().0, self.view().1), false),
    {
        hex_encode_lower(&self.to_bytes())
    }

    /// Parses from hex; [`RaError::Decode`] when the text is not hexadecimal and
    /// [`RaError::Invalid`] when the bytes are not a multihash.
    pub fn from_hex(s: &str) -> (r: Result<Multihash>)
        ensures
            match hex_bytes(s@) {
                None => r matches Err(RaError::Decode(_)),
                Some(b) => match multihash_parse(b) {
                    Some(v) => r matches Ok(m) && m.view() == v,
                    None => r matches Err(RaError::Invalid(_)),
                },
            },
    {
        let bytes = match hex_decode(s) {
            Ok(b) => b,
            Err(msg) => {
                return Err(RaError::decode(msg));
            },
        };
        Multihash::from_bytes(&bytes)
    }

    /// Base58 (Bitcoin alphabet) of [`Multihash::to_bytes`].
    pub fn to_base58(&self) -> (r: String)
        ensures
            r@ == base58_text(multihash_wire(self.view().0, self.view().1)),
    {
        base58_encode(&self.to_bytes())
    }

    /// Parses from base58; [`RaError::Decode`] when the text is not base58 and
    /// [`RaError::Invalid`] when the bytes are not a multihash.
    pub fn from_base58(s: &str) -> (r: Result<Multihash>)
        ensures
            match base58_bytes(s@) {
                None => r matches Err(RaError::Decode(_)),
                Some(b) => match multihash_parse(b) {
                    Some(v) => r matches Ok(m) && m.view() == v,
                    None => r matches Err(RaError::Invalid(_)),
                },
            },
            forall|b: Seq<u8>| s@ == #[trigger] base58_text(b) ==> match multihash_parse(b) {
                Some(v) => r matches Ok(m) && m.view() == v,
                None => r matches Err(RaError::Invalid(_)),
            },
            (exists|i: int| 0 <= i < s@.len() && !is_base58_char(#[trigger] s@[i])) ==> r matches Err(
                RaError::Decode(_),
            ),
    {
        let bytes = base58_decode(s)?;
        Multihash::from_bytes(&bytes)
    }
}

impl Clone for Multihash {
    fn clone(&self) -> (r: Multihash)
        ensures
            r.view() == self.view(),
    {
        proof {
            use_type_invariant(self);
        }
        let hash = self.hash.clone();
        assert(hash@ =~= self.hash@);
        Multihash { kind: self.kind, hash }
    }
}

/// Parsing the wire form of a multihash gives back its type and digest.
pub proof fn lemma_wire_round_trip(kind: MultihashType, digest: Seq<u8>)
    requires
        digest.len() == kind.spec_length(),
    ensures
        multihash_parse(multihash_wire(kind, digest)) == Some((kind, digest)),
{
    let w = multihash_wire(kind, digest);
    assert(w.subrange(2, 2 + digest.len() as int) =~= digest);
}

/// Hex encoding is undone by hex decoding.
pub proof fn lemma_hex_round_trip(b: Seq<u8>, upper: bool)
    ensures
        hex_bytes(hex_text(b, upper)) == Some(b),
    decreases b.len(),
{
    if b.len() > 0 {
        lemma_hex_round_trip(b.drop_first(), upper);
        let t = hex_text(b, upper);
        assert(t.skip(2) =~= hex_text(b.drop_first(), upper));
        let hi = (b[0] / 16) as u8;
        let lo = (b[0] % 16) as u8;
        assert(hi * 16 + lo == b[0]);
        assert(seq![b[0]] + b.drop_first() =~= b);
    }
}

} // verus!
