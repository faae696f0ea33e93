//! A fixed 32-byte identifier, rendered as standard padded base64.

use crate::encoding::{base64_bytes, base64_decode, base64_encode, base64_text};
use crate::error::{RaError, Result};
use crate::util::random::random_bytes;
use vstd::prelude::*;

verus! {

/// Number of bytes in a [`UniqueId`].
pub const LENGTH: usize = 32;

/// A 32-byte identifier. Ordering is unsigned lexicographic over the bytes.
#[derive(Debug, Clone, Copy, PartialEq, Eq, Hash, PartialOrd, Ord)]
pub struct UniqueId {
    bytes: [u8; 32],
}

impl UniqueId {
    /// The bytes of the identifier.
    pub closed spec fn spec_bytes(&self) -> Seq<u8> {
        self.bytes@
    }

    /// Every identifier holds exactly 32 bytes.
    pub proof fn lemma_len(&self)
        ensures
            self.spec_bytes().len() == LENGTH,
    {
    }

    /// A new random identifier (not cryptographically strong).
    pub fn random() -> (r: UniqueId)
        ensures
            r.spec_bytes().len() == LENGTH,
    {
        let v = random_bytes(LENGTH);
        let mut bytes = [0u8; 32];
        let mut i: usize = 0;
        while i < LENGTH
            invariant
                v@.len() == LENGTH,
                i <= LENGTH,
            decreases LENGTH - i,
        {
            bytes[i] = v[i];
            i = i + 1;
        }
        UniqueId { bytes }
    }

    /// The 32 bytes of `src` starting at `offset`; [`RaError::Invalid`] if `src`
    /// holds fewer than `offset + 32` bytes.
    pub fn from_slice(src: &[u8], offset: usize) -> (r: Result<UniqueId>)
        ensures
            offset + LENGTH <= src@.len() ==> (r matches Ok(id) && id.spec_bytes() == src@.subrange(
                offset as int,
                offset + LENGTH,
            )),
            offset + LENGTH > src@.len() ==> r matches Err(RaError::Invalid(_)),
    {
        let n = src.len();
        if offset > usize::MAX - LENGTH {
            return Err(RaError::invalid(crate::text::owned("offset overflow")));
        }
        let end = offset + LENGTH;
        if src.len() < end {
            return Err(RaError::invalid(crate::text::owned("not enough bytes for UniqueId")));
        }
        let mut bytes = [0u8; 32];
        let mut i: usize = 0;
        while i < LENGTH
            invariant
                i <= LENGTH,
                end == offset + LENGTH,
                end <= src@.len(),
                bytes@.len() == LENGTH,
                forall|k: int| 0 <= k < i ==> bytes@[k] == src@[offset + k],
            decreases LENGTH - i,
        {
            bytes[i] = src[offset + i];
            i = i + 1;
        }
        let r = UniqueId { bytes };
        assert(r.spec_bytes() =~= src@.subrange(offset as int, offset + LENGTH));
        Ok(r)
    }

    /// The identifier made of exactly these 32 bytes.
    pub fn from_bytes(bytes: [u8; 32]) -> (r: UniqueId)
        ensures
            r.spec_bytes() == bytes@,
    {
        UniqueId { bytes }
    }

    /// Parses a base64-encoded identifier; [`RaError::Decode`] if the text is not
    /// valid base64 or does not decode to 32 bytes.
    pub fn from_base64(s: &str) -> (r: Result<UniqueId>)
        ensures
            match base64_bytes(s@) {
                Some(b) => if b.len() == LENGTH {
                    r matches Ok(id) && id.spec_bytes() == b
                } else {
                    r matches Err(RaError::Decode(_))
                },
                None => r matches Err(RaError::Decode(_)),
            },
            forall|id: UniqueId| s@ == #[trigger] base64_text(id.spec_bytes()) ==> r == Ok::<
                UniqueId,
                RaError,
            >(id),
    {
        let raw = match base64_decode(s) {
            Ok(v) => v,
            Err(msg) => {
                return Err(RaError::decode(msg));
            },
        };
        if raw.len() != LENGTH {
            return Err(RaError::decode(crate::text::owned("UniqueId must be 32 bytes")));
        }
        let mut bytes = [0u8; 32];
        let mut i: usize = 0;
        while i < LENGTH
            invariant
                i <= LENGTH,
                raw@.len() == LENGTH,
                bytes@.len() == LENGTH,
                forall|k: int| 0 <= k < i ==> bytes@[k] == raw@[k],
            decreases LENGTH - i,
        {
            bytes[i] = raw[i];
            i = i + 1;
        }
        let r = UniqueId { bytes };
        assert(r.spec_bytes() =~= raw@);
        proof {
            assert forall|id: UniqueId| s@ == #[trigger] base64_text(id.spec_bytes()) implies r
                == id by {
                assert(raw@ == id.spec_bytes());
                assert(r.bytes@ =~= id.bytes@);
                assert forall|k: int| 0 <= k < 32 implies r.bytes[k] == id.bytes[k] by {
                    assert(r.bytes@[k] == id.bytes@[k]);
                }
                assert(r.bytes =~= id.bytes);
            }
        }
        Ok(r)
    }

    /// The raw bytes.
    pub fn as_bytes(&self) -> (r: &[u8; 32])
        ensures
            r@ == self.spec_bytes(),
    {
        &self.bytes
    }

    /// Standard padded base64 encoding (44 characters).
    pub fn to_base64(&self) -> (r: String)
        ensures
            r@ == base64_text(self.spec_bytes()),
            r@.len() == 44,
    {
        base64_encode(&self.bytes)
    }
}

impl Default for UniqueId {
    /// A random identifier.
    fn default() -> (r: UniqueId)
        ensures
            r.spec_bytes().len() == LENGTH,
    {
        UniqueId::random()
    }
}

} // verus!
