//! A hash value paired with the algorithm that produced it.

use crate::error::RaError;
use crate::text::{concat2, str_eq};
use vstd::prelude::*;

verus! {

/// Digest / key-derivation algorithm.
#[derive(Debug, Clone, Copy, PartialEq, Eq, Hash, Structural)]
pub enum HashAlgorithm {
    Sha1,
    Sha256,
    Sha512,
    /// PBKDF2 with HMAC-SHA1 (used for passphrase hashing).
    Pbkdf2HmacSha1,
}

impl HashAlgorithm {
    /// The JCA-style name of the algorithm.
    pub open spec fn name(self) -> Seq<char> {
        match self {
            HashAlgorithm::Sha1 => "SHA-1"@,
            HashAlgorithm::Sha256 => "SHA-256"@,
            HashAlgorithm::Sha512 => "SHA-512"@,
            HashAlgorithm::Pbkdf2HmacSha1 => "PBKDF2WithHmacSHA1"@,
        }
    }

    /// The algorithm a name stands for: its JCA name, the name without the dash,
    /// or its variant name.
    pub open spec fn from_name(s: Seq<char>) -> Option<HashAlgorithm> {
        if s == "SHA-1"@ || s == "SHA1"@ || s == "Sha1"@ {
            Some(HashAlgorithm::Sha1)
        } else if s == "SHA-256"@ || s == "SHA256"@ || s == "Sha256"@ {
            Some(HashAlgorithm::Sha256)
        } else if s == "SHA-512"@ || s == "SHA512"@ || s == "Sha512"@ {
            Some(HashAlgorithm::Sha512)
        } else if s == "PBKDF2WithHmacSHA1"@ || s == "Pbkdf2HmacSha1"@ {
            Some(HashAlgorithm::Pbkdf2HmacSha1)
        } else {
            None
        }
    }

    /// The JCA-style name (`"SHA-256"`, `"PBKDF2WithHmacSHA1"`, ...).
    pub fn as_str(&self) -> (r: &'static str)
        ensures
            r@ == self.name(),
    {
        match self {
            HashAlgorithm::Sha1 => "SHA-1",
            HashAlgorithm::Sha256 => "SHA-256",
            HashAlgorithm::Sha512 => "SHA-512",
            HashAlgorithm::Pbkdf2HmacSha1 => "PBKDF2WithHmacSHA1",
        }
    }

    /// Parses a name; [`RaError::Invalid`] for an unknown one.
    pub fn parse(s: &str) -> (r: Result<HashAlgorithm, RaError>)
        ensures
            match Self::from_name(s@) {
                Some(a) => r == Ok::<HashAlgorithm, RaError>(a),
                None => r matches Err(RaError::Invalid(_)),
            },
    {
        if str_eq(s, "SHA-1") || str_eq(s, "SHA1") || str_eq(s, "Sha1") {
            Ok(HashAlgorithm::Sha1)
        } else if str_eq(s, "SHA-256") || str_eq(s, "SHA256") || str_eq(s, "Sha256") {
            Ok(HashAlgorithm::Sha256)
        } else if str_eq(s, "SHA-512") || str_eq(s, "SHA512") || str_eq(s, "Sha512") {
            Ok(HashAlgorithm::Sha512)
        } else if str_eq(s, "PBKDF2WithHmacSHA1") || str_eq(s, "Pbkdf2HmacSha1") {
            Ok(HashAlgorithm::Pbkdf2HmacSha1)
        } else {
            Err(RaError::invalid(concat2("unknown hash algorithm: ", s)))
        }
    }
}

impl std::str::FromStr for HashAlgorithm {
    type Err = RaError;

    fn from_str(s: &str) -> (r: Result<HashAlgorithm, RaError>)
        ensures
            match HashAlgorithm::from_name(s@) {
                Some(a) => r == Ok::<HashAlgorithm, RaError>(a),
                None => r matches Err(RaError::Invalid(_)),
            },
    {
        HashAlgorithm::parse(s)
    }
}

/// Every JCA name parses back to its algorithm.
pub proof fn lemma_hash_name_round_trip(a: HashAlgorithm)
    ensures
        HashAlgorithm::from_name(a.name()) == Some(a),
{
    reveal_strlit("SHA-1");
    reveal_strlit("SHA1");
    reveal_strlit("Sha1");
    reveal_strlit("SHA-256");
    reveal_strlit("SHA256");
    reveal_strlit("Sha256");
    reveal_strlit("SHA-512");
    reveal_strlit("SHA512");
    reveal_strlit("Sha512");
    reveal_strlit("PBKDF2WithHmacSHA1");
    reveal_strlit("Pbkdf2HmacSha1");
    assert("SHA-256"@[4] != "SHA-1"@[4] && "SHA-256"@.len() != "SHA1"@.len() && "SHA-256"@.len()
        != "Sha1"@.len());
    assert("SHA-512"@[4] != "SHA-1"@[4] && "SHA-512"@.len() != "SHA1"@.len() && "SHA-512"@.len()
        != "Sha1"@.len());
    assert("SHA-512"@[4] != "SHA-256"@[4] && "SHA-512"@[5] != "SHA256"@[5]
        && "SHA-512"@.len() != "Sha256"@.len());
    assert("PBKDF2WithHmacSHA1"@.len() > 7);
}

/// A hash string together with the algorithm used. Equality is on the hash
/// string alone.
#[derive(Debug, Clone)]
pub struct Hash {
    /// The encoded digest (hex, base64 or a composite passphrase-hash format,
    /// depending on how it was produced).
    pub hash: String,
    /// The algorithm that produced [`Hash::hash`].
    pub algorithm: HashAlgorithm,
}

impl Hash {
    /// Pairs a hash string with its algorithm.
    pub fn new(hash: String, algorithm: HashAlgorithm) -> (r: Hash)
        ensures
            r.hash@ == hash@,
            r.algorithm == algorithm,
    {
        Hash { hash, algorithm }
    }
}

impl PartialEq for Hash {
    fn eq(&self, other: &Hash) -> (r: bool) {
        str_eq(self.hash.as_str(), other.hash.as_str())
    }
}

impl vstd::std_specs::cmp::PartialEqSpecImpl for Hash {
    open spec fn obeys_eq_spec() -> bool {
        true
    }

    open spec fn eq_spec(&self, other: &Hash) -> bool {
        self.hash@ == other.hash@
    }
}

impl Eq for Hash {

}

} // verus!
