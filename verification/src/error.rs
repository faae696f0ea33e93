//! The crate-wide error type.

use vstd::prelude::*;

verus! {

/// A JSON (de)serialization failure, as reported by `serde_json`.
#[verifier::external_type_specification]
#[verifier::external_body]
pub struct ExJsonError(serde_json::Error);

/// An I/O failure, as reported by the standard library.
#[verifier::external_type_specification]
#[verifier::external_body]
pub struct ExIoError(std::io::Error);

/// Everything that can go wrong in this crate.
#[derive(Debug)]
pub enum RaError {
    /// A value could not be (de)serialized to/from JSON.
    Json(serde_json::Error),
    /// An I/O operation failed.
    Io(std::io::Error),
    /// A string could not be decoded from its expected encoding.
    Decode(String),
    /// A cryptographic operation failed or a verification did not pass.
    Crypto(String),
    /// A malformed value was supplied.
    Invalid(String),
    /// A named service could not be found.
    ServiceNotFound(String),
    /// A service is registered but not reachable.
    ServiceNotAccessible(String),
    /// A service type is not supported by this runtime.
    ServiceNotSupported(String),
    /// A service with this identity is already registered.
    ServiceAlreadyRegistered(String),
    /// A file could not be created.
    FileCreationFailed(String),
    /// A file exists but is not readable.
    FileNotReadable(String),
    /// A file exists but is not writeable.
    FileNotWriteable(String),
}

impl RaError {
    /// A [`RaError::Decode`] carrying `msg`.
    pub fn decode(msg: String) -> (r: RaError)
        ensures
            r == RaError::Decode(msg),
    {
        RaError::Decode(msg)
    }

    /// A [`RaError::Crypto`] carrying `msg`.
    pub fn crypto(msg: String) -> (r: RaError)
        ensures
            r == RaError::Crypto(msg),
    {
        RaError::Crypto(msg)
    }

    /// A [`RaError::Invalid`] carrying `msg`.
    pub fn invalid(msg: String) -> (r: RaError)
        ensures
            r == RaError::Invalid(msg),
    {
        RaError::Invalid(msg)
    }
}

/// The result type used throughout this crate.
pub type Result<T> = std::result::Result<T, RaError>;

} // verus!
