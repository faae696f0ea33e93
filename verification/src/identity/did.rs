//! Decentralized identifiers.

use crate::crypto::hash::HashAlgorithm;
use crate::identity::pii::PiiClearable;
use crate::identity::public_key::PublicKey;
use vstd::prelude::*;

verus! {

/// Activation state of a [`Did`].
#[derive(Debug, Clone, Copy, PartialEq, Eq, Hash, Structural)]
pub enum DidStatus {
    Inactive,
    Active,
    Suspended,
    Private,
}

/// What a [`Did`] represents.
#[derive(Debug, Clone, Copy, PartialEq, Eq, Hash, Structural)]
pub enum DidType {
    Contact,
    Identity,
    Node,
}

/// A decentralized identity: a username, an optional passphrase (and its
/// hash), and a [`PublicKey`]. Each key is an identity of its own.
#[derive(Debug, Clone)]
pub struct Did {
    pub username: String,
    pub passphrase: Option<String>,
    pub passphrase2: Option<String>,
    pub passphrase_hash: Option<crate::crypto::hash::Hash>,
    pub passphrase_hash_algorithm: HashAlgorithm,
    pub description: String,
    pub status: DidStatus,
    pub did_type: DidType,
    pub verified: bool,
    pub authenticated: bool,
    pub public_key: PublicKey,
}

/// The settings of a fresh identity, other than its username.
pub open spec fn is_fresh_did(d: Did) -> bool {
    &&& d.passphrase is None
    &&& d.passphrase2 is None
    &&& d.passphrase_hash is None
    &&& d.passphrase_hash_algorithm == HashAlgorithm::Pbkdf2HmacSha1
    &&& d.description@.len() == 0
    &&& d.status == DidStatus::Inactive
    &&& d.did_type == DidType::Identity
    &&& !d.verified
    &&& !d.authenticated
    &&& d.public_key.address is None
    &&& d.public_key.fingerprint is None
}

impl Did {
    /// An identity with the given username, all else at its defaults.
    pub fn with_username(username: String) -> (r: Did)
        ensures
            r.username@ == username@,
            is_fresh_did(r),
    {
        Did {
            username,
            passphrase: None,
            passphrase2: None,
            passphrase_hash: None,
            passphrase_hash_algorithm: HashAlgorithm::Pbkdf2HmacSha1,
            description: String::new(),
            status: DidStatus::Inactive,
            did_type: DidType::Identity,
            verified: false,
            authenticated: false,
            public_key: PublicKey::default(),
        }
    }

    /// The passphrase-hash algorithm recorded on the stored hash, if there is
    /// one, else the configured default.
    pub fn passphrase_hash_algorithm(&self) -> (r: HashAlgorithm)
        ensures
            r == match self.passphrase_hash {
                Some(h) => h.algorithm,
                None => self.passphrase_hash_algorithm,
            },
    {
        match &self.passphrase_hash {
            Some(h) => h.algorithm,
            None => self.passphrase_hash_algorithm,
        }
    }
}

impl Default for Did {
    /// The anonymous identity: username `Anon`, all else at its defaults.
    fn default() -> (r: Did)
        ensures
            r.username@ == "Anon"@,
            is_fresh_did(r),
    {
        Did::with_username(crate::text::owned("Anon"))
    }
}

impl PiiClearable for Did {
    /// Clears the username, passphrases and description, marks the identity
    /// private, and drops its verified and authenticated flags.
    fn clear_sensitive(&mut self)
        ensures
            final(self).username@.len() == 0,
            final(self).passphrase is None,
            final(self).passphrase2 is None,
            final(self).description@.len() == 0,
            final(self).status == DidStatus::Private,
            !final(self).verified,
            !final(self).authenticated,
            final(self).passphrase_hash == old(self).passphrase_hash,
            final(self).passphrase_hash_algorithm == old(self).passphrase_hash_algorithm,
            final(self).did_type == old(self).did_type,
            final(self).public_key == old(self).public_key,
    {
        self.username = String::new();
        self.passphrase = None;
        self.passphrase2 = None;
        self.description = String::new();
        self.status = DidStatus::Private;
        self.verified = false;
        self.authenticated = false;
    }
}

} // verus!
