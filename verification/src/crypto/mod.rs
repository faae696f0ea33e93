//! Hashing, fingerprints, multihashes and proof-of-work tokens.

pub mod addressable;
pub mod encryption;
pub mod hash;
pub mod hash_util;
pub mod hashcash;
pub mod multihash;

pub use addressable::Addressable;
pub use encryption::EncryptionAlgorithm;
pub use hash::HashAlgorithm;
pub use hashcash::HashCash;
pub use multihash::{Multihash, MultihashType};
