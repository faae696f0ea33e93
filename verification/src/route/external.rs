//! Routes to services on remote peers.

use super::model::RouteMeta;
use crate::network::NetworkPeer;
use vstd::prelude::*;

verus! {

/// A route to a service on a remote peer.
#[derive(Debug)]
pub struct SimpleExternalRoute {
    pub meta: RouteMeta,
    pub origination: Option<NetworkPeer>,
    pub destination: Option<NetworkPeer>,
    pub send_content_only: bool,
    pub status_code: i32,
}

/// Whether `b` copies `a`: the same metadata, flags and status, and a peer
/// wherever `a` has one.
pub open spec fn same_external(a: SimpleExternalRoute, b: SimpleExternalRoute) -> bool {
    &&& b.meta == a.meta
    &&& b.send_content_only == a.send_content_only
    &&& b.status_code == a.status_code
    &&& (b.origination is Some) == (a.origination is Some)
    &&& (b.destination is Some) == (a.destination is Some)
}

impl Clone for SimpleExternalRoute {
    /// A copy: the same metadata, flags and status; peers cloned.
    fn clone(&self) -> (r: SimpleExternalRoute)
        ensures
            same_external(*self, r),
    {
        SimpleExternalRoute {
            meta: self.meta.clone(),
            origination: match &self.origination {
                Some(p) => Some(p.clone()),
                None => None,
            },
            destination: match &self.destination {
                Some(p) => Some(p.clone()),
                None => None,
            },
            send_content_only: self.send_content_only,
            status_code: self.status_code,
        }
    }
}

impl Default for SimpleExternalRoute {
    /// No peers, not content-only, status 0, default meta.
    fn default() -> (r: SimpleExternalRoute)
        ensures
            r.origination is None,
            r.destination is None,
            !r.send_content_only,
            r.status_code == 0,
            r.meta.service is None && r.meta.operation is None && !r.meta.routed,
    {
        SimpleExternalRoute {
            meta: RouteMeta::default(),
            origination: None,
            destination: None,
            send_content_only: false,
            status_code: 0,
        }
    }
}

impl SimpleExternalRoute {
    /// A content-only external route to `operation` on `service`.
    pub fn new(service: String, operation: String) -> (r: SimpleExternalRoute)
        ensures
            r.meta.service matches Some(s) && s@ == service@,
            r.meta.operation matches Some(o) && o@ == operation@,
            !r.meta.routed,
            r.origination is None,
            r.destination is None,
            r.send_content_only,
            r.status_code == 0,
    {
        SimpleExternalRoute {
            meta: RouteMeta::of(service, operation),
            origination: None,
            destination: None,
            send_content_only: true,
            status_code: 0,
        }
    }

    /// An external route with explicit origination and destination peers.
    pub fn with_peers(
        service: String,
        operation: String,
        origination: NetworkPeer,
        destination: NetworkPeer,
    ) -> (r: SimpleExternalRoute)
        ensures
            r.meta.service matches Some(s) && s@ == service@,
            r.meta.operation matches Some(o) && o@ == operation@,
            !r.meta.routed,
            r.origination == Some(origination),
            r.destination == Some(destination),
            !r.send_content_only,
            r.status_code == 0,
    {
        SimpleExternalRoute {
            meta: RouteMeta::of(service, operation),
            origination: Some(origination),
            destination: Some(destination),
            send_content_only: false,
            status_code: 0,
        }
    }
}

/// An external route relayed through intermediate peers, with delay, copy and
/// sensitivity controls.
#[derive(Debug)]
pub struct RelayedExternalRoute {
    pub base: SimpleExternalRoute,
    pub from_peer: Option<NetworkPeer>,
    pub to_peer: Option<NetworkPeer>,
    pub delayed: bool,
    pub min_delay: i64,
    pub max_delay: i64,
    pub copy: bool,
    pub min_copies: i32,
    pub max_copies: i32,
    pub sensitivity: i32,
}

impl Clone for RelayedExternalRoute {
    /// A copy: the same base route, delays, copies and sensitivity; peers
    /// cloned.
    fn clone(&self) -> (r: RelayedExternalRoute)
        ensures
            same_external(self.base, r.base),
            r.delayed == self.delayed && r.min_delay == self.min_delay && r.max_delay
                == self.max_delay,
            r.copy == self.copy && r.min_copies == self.min_copies && r.max_copies
                == self.max_copies,
            r.sensitivity == self.sensitivity,
            (r.from_peer is Some) == (self.from_peer is Some),
            (r.to_peer is Some) == (self.to_peer is Some),
    {
        RelayedExternalRoute {
            base: self.base.clone(),
            from_peer: match &self.from_peer {
                Some(p) => Some(p.clone()),
                None => None,
            },
            to_peer: match &self.to_peer {
                Some(p) => Some(p.clone()),
                None => None,
            },
            delayed: self.delayed,
            min_delay: self.min_delay,
            max_delay: self.max_delay,
            copy: self.copy,
            min_copies: self.min_copies,
            max_copies: self.max_copies,
            sensitivity: self.sensitivity,
        }
    }
}

impl Default for RelayedExternalRoute {
    /// A default base route, no peers, no delay, no copies, sensitivity 0.
    fn default() -> (r: RelayedExternalRoute)
        ensures
            r.from_peer is None && r.to_peer is None,
            !r.delayed && r.min_delay == 0 && r.max_delay == 0,
            !r.copy && r.min_copies == 0 && r.max_copies == 0,
            r.sensitivity == 0,
            r.base.origination is None && r.base.destination is None,
            !r.base.send_content_only && r.base.status_code == 0,
    {
        RelayedExternalRoute {
            base: SimpleExternalRoute::default(),
            from_peer: None,
            to_peer: None,
            delayed: false,
            min_delay: 0,
            max_delay: 0,
            copy: false,
            min_copies: 0,
            max_copies: 0,
            sensitivity: 0,
        }
    }
}

} // verus!
