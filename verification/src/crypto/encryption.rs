//! Symmetric encryption algorithm labels.

use crate::error::RaError;
use crate::text::{concat2, str_eq};
use vstd::prelude::*;

verus! {

/// Symmetric encryption algorithm label, carried in content metadata (this
/// crate does not encrypt).
#[derive(Debug, Clone, Copy, PartialEq, Eq, Hash, Structural)]
pub enum EncryptionAlgorithm {
    /// CAST-128 / CAST5.
    Cast5,
    /// AES-256.
    Aes256,
    /// "AES-512" (a label only; not a real cipher).
    Aes512,
}

impl EncryptionAlgorithm {
    /// The display name of the algorithm.
    pub open spec fn name(self) -> Seq<char> {
        match self {
            EncryptionAlgorithm::Cast5 => "CAST-5"@,
            EncryptionAlgorithm::Aes256 => "AES-256"@,
            EncryptionAlgorithm::Aes512 => "AES-512"@,
        }
    }

    /// The algorithm a name stands for: its display name or its variant name.
    pub open spec fn from_name(s: Seq<char>) -> Option<EncryptionAlgorithm> {
        if s == "CAST-5"@ || s == "Cast5"@ {
            Some(EncryptionAlgorithm::Cast5)
        } else if s == "AES-256"@ || s == "Aes256"@ {
            Some(EncryptionAlgorithm::Aes256)
        } else if s == "AES-512"@ || s == "Aes512"@ {
            Some(EncryptionAlgorithm::Aes512)
        } else {
            None
        }
    }

    /// The wire/display name (`"CAST-5"`, `"AES-256"`, `"AES-512"`).
    pub fn as_str(&self) -> (r: &'static str)
        ensures
            r@ == self.name(),
    {
        match self {
            EncryptionAlgorithm::Cast5 => "CAST-5",
            EncryptionAlgorithm::Aes256 => "AES-256",
            EncryptionAlgorithm::Aes512 => "AES-512",
        }
    }

    /// Parses a display or variant name; [`RaError::Invalid`] for anything else.
    pub fn parse(s: &str) -> (r: Result<EncryptionAlgorithm, RaError>)
        ensures
            match Self::from_name(s@) {
                Some(a) => r == Ok::<EncryptionAlgorithm, RaError>(a),
                None => r matches Err(RaError::Invalid(_)),
            },
    {
        if str_eq(s, "CAST-5") || str_eq(s, "Cast5") {
            Ok(EncryptionAlgorithm::Cast5)
        } else if str_eq(s, "AES-256") || str_eq(s, "Aes256") {
            Ok(EncryptionAlgorithm::Aes256)
        } else if str_eq(s, "AES-512") || str_eq(s, "Aes512") {
            Ok(EncryptionAlgorithm::Aes512)
        } else {
            Err(RaError::invalid(concat2("unknown encryption algorithm: ", s)))
        }
    }
}

impl std::str::FromStr for EncryptionAlgorithm {
    type Err = RaError;

    fn from_str(s: &str) -> (r: Result<EncryptionAlgorithm, RaError>)
        ensures
            match EncryptionAlgorithm::from_name(s@) {
                Some(a) => r == Ok::<EncryptionAlgorithm, RaError>(a),
                None => r matches Err(RaError::Invalid(_)),
            },
    {
        EncryptionAlgorithm::parse(s)
    }
}

/// Every display name parses back to its algorithm.
pub proof fn lemma_encryption_name_round_trip(a: EncryptionAlgorithm)
    ensures
        EncryptionAlgorithm::from_name(a.name()) == Some(a),
{
    reveal_strlit("CAST-5");
    reveal_strlit("Cast5");
    reveal_strlit("AES-256");
    reveal_strlit("Aes256");
    reveal_strlit("AES-512");
    reveal_strlit("Aes512");
    assert("AES-256"@.len() != "CAST-5"@.len() && "AES-256"@.len() != "Cast5"@.len());
    assert("AES-512"@.len() != "CAST-5"@.len() && "AES-512"@.len() != "Cast5"@.len());
    assert("AES-512"@[4] != "AES-256"@[4] && "AES-512"@.len() != "Aes256"@.len());
}

} // verus!
