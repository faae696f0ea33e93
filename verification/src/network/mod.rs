//! Network identity types: transports, connection states, and peers.

use crate::identity::did::{is_fresh_did, Did};
use crate::identity::signature::{both_equal, both_present_and_equal};
use vstd::prelude::*;

verus! {

/// Transports a peer can be reached over.
#[derive(Debug, Clone, Copy, PartialEq, Eq, Hash, Structural)]
pub enum Network {
    Card,
    Nfc,
    Http,
    Tor,
    I2p,
    WiFi,
    Bluetooth,
    Satellite,
    FsRadio,
    LiFi,
}

/// Connection state of a network.
#[derive(Debug, Clone, Copy, PartialEq, Eq, Hash, Structural)]
pub enum NetworkStatus {
    NotInstalled,
    Closed,
    Error,
    PortConflict,
    Waiting,
    Warmup,
    Connecting,
    Connected,
    Verified,
    Hanging,
    Failed,
    Blocked,
    Disconnected,
}

/// A peer in a peer-to-peer network, identified by its [`Did`] and
/// [`Network`].
///
/// Two peers are equal when both have a public-key address and fingerprint and
/// both match.
#[derive(Debug, Clone)]
pub struct NetworkPeer {
    pub id: Option<String>,
    pub network: Network,
    pub did: Did,
    pub port: Option<u16>,
    pub services: Vec<String>,
}

impl NetworkPeer {
    /// A new peer on `network` with the anonymous identity.
    pub fn new(network: Network) -> (r: NetworkPeer)
        ensures
            r.id is None,
            r.network == network,
            r.did.username@ == "Anon"@,
            is_fresh_did(r.did),
            r.port is None,
            r.services@.len() == 0,
    {
        NetworkPeer { id: None, network, did: Did::default(), port: None, services: Vec::new() }
    }

    /// A new peer on `network` whose identity carries `username` and
    /// `passphrase`.
    pub fn with_credentials(network: Network, username: String, passphrase: Option<String>) -> (r:
        NetworkPeer)
        ensures
            r.id is None,
            r.network == network,
            r.did.username@ == username@,
            r.did.passphrase == passphrase,
            r.did.passphrase2 is None,
            r.did.status == crate::identity::did::DidStatus::Inactive,
            r.port is None,
            r.services@.len() == 0,
    {
        let mut did = Did::with_username(username);
        did.passphrase = passphrase;
        NetworkPeer { id: None, network, did, port: None, services: Vec::new() }
    }
}

/// Whether two peers are equal: both name an address and a fingerprint, and
/// they match.
pub open spec fn same_peer(a: NetworkPeer, b: NetworkPeer) -> bool {
    &&& both_equal(a.did.public_key.address, b.did.public_key.address)
    &&& both_equal(a.did.public_key.fingerprint, b.did.public_key.fingerprint)
}

impl PartialEq for NetworkPeer {
    fn eq(&self, other: &NetworkPeer) -> (r: bool) {
        both_present_and_equal(&self.did.public_key.address, &other.did.public_key.address)
            && both_present_and_equal(
            &self.did.public_key.fingerprint,
            &other.did.public_key.fingerprint,
        )
    }
}

impl vstd::std_specs::cmp::PartialEqSpecImpl for NetworkPeer {
    open spec fn obeys_eq_spec() -> bool {
        true
    }

    open spec fn eq_spec(&self, other: &NetworkPeer) -> bool {
        same_peer(*self, *other)
    }
}

} // verus!
