//! Status codes an external route can carry.

use vstd::prelude::*;

verus! {

/// No destination peer was given.
pub const DESTINATION_PEER_REQUIRED: i32 = 2;
/// The destination peer is on another network.
pub const DESTINATION_PEER_WRONG_NETWORK: i32 = 3;
/// The destination peer could not be found.
pub const DESTINATION_PEER_NOT_FOUND: i32 = 4;
/// No service was named.
pub const NO_SERVICE: i32 = 7;
/// No operation was named.
pub const NO_OPERATION: i32 = 8;
/// No address was given.
pub const NO_ADDRESS: i32 = 9;
/// No fingerprint was given.
pub const NO_FINGERPRINT: i32 = 10;
/// No port was given.
pub const NO_PORT: i32 = 11;

} // verus!
