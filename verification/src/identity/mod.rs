//! Identities: decentralized identifiers, public keys and signatures.

pub mod did;
pub mod pii;
pub mod public_key;
pub mod signature;

pub use did::{Did, DidStatus, DidType};
pub use pii::PiiClearable;
pub use public_key::PublicKey;
pub use signature::{Signature, Timestamp};
