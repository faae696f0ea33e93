//! Routes and their shared metadata.

use super::external::{RelayedExternalRoute, SimpleExternalRoute};
use super::slip::DynamicRoutingSlip;
use crate::identity::signature::clone_text;
use crate::util::random::next_long;
use std::collections::VecDeque;
use vstd::std_specs::vecdeque::VecDequeAdditionalSpecFns;
use vstd::prelude::*;

verus! {

/// Fields every route carries.
#[derive(Debug)]
pub struct RouteMeta {
    pub service: Option<String>,
    pub operation: Option<String>,
    pub routed: bool,
    /// Correlates the routes of a single slip; random at construction.
    pub route_id: i64,
}

impl Clone for RouteMeta {
    /// A field-for-field copy.
    fn clone(&self) -> (r: RouteMeta)
        ensures
            r == *self,
    {
        RouteMeta {
            service: clone_text(&self.service),
            operation: clone_text(&self.operation),
            routed: self.routed,
            route_id: self.route_id,
        }
    }
}

impl Default for RouteMeta {
    /// No service or operation, not routed, a random route id.
    fn default() -> (r: RouteMeta)
        ensures
            r.service is None,
            r.operation is None,
            !r.routed,
    {
        RouteMeta { service: None, operation: None, routed: false, route_id: next_long() }
    }
}

impl RouteMeta {
    /// Meta for a `service` / `operation` pair, with a random route id.
    pub fn of(service: String, operation: String) -> (r: RouteMeta)
        ensures
            r.service matches Some(s) && s@ == service@,
            r.operation matches Some(o) && o@ == operation@,
            !r.routed,
    {
        RouteMeta { service: Some(service), operation: Some(operation), routed: false, route_id: next_long() }
    }
}

/// A single in-process route: a `service` and an `operation` on it.
#[derive(Debug, Clone)]
pub struct SimpleRoute {
    pub meta: RouteMeta,
}

impl Default for SimpleRoute {
    /// A route with default meta.
    fn default() -> (r: SimpleRoute)
        ensures
            r.meta.service is None,
            r.meta.operation is None,
            !r.meta.routed,
    {
        SimpleRoute { meta: RouteMeta::default() }
    }
}

impl SimpleRoute {
    /// A route to `operation` on `service`.
    pub fn new(service: String, operation: String) -> (r: SimpleRoute)
        ensures
            r.meta.service matches Some(s) && s@ == service@,
            r.meta.operation matches Some(o) && o@ == operation@,
            !r.meta.routed,
    {
        SimpleRoute { meta: RouteMeta::of(service, operation) }
    }
}

/// Any route variant.
#[derive(Debug)]
pub enum Route {
    Simple(SimpleRoute),
    RoutingSlip(DynamicRoutingSlip),
    SimpleExternal(Box<SimpleExternalRoute>),
    RelayedExternal(Box<RelayedExternalRoute>),
}

/// The metadata of a route.
pub open spec fn route_meta(r: Route) -> RouteMeta {
    match r {
        Route::Simple(s) => s.meta,
        Route::RoutingSlip(s) => s.meta,
        Route::SimpleExternal(s) => s.meta,
        Route::RelayedExternal(s) => s.base.meta,
    }
}

/// `r` with its metadata replaced by `m`, all else kept.
pub open spec fn with_meta(r: Route, m: RouteMeta) -> Route {
    match r {
        Route::Simple(s) => Route::Simple(SimpleRoute { meta: m, ..s }),
        Route::RoutingSlip(s) => Route::RoutingSlip(s.with_meta_spec(m)),
        Route::SimpleExternal(s) => Route::SimpleExternal(Box::new(SimpleExternalRoute { meta: m, ..*s })),
        Route::RelayedExternal(s) => Route::RelayedExternal(
            Box::new(RelayedExternalRoute { base: SimpleExternalRoute { meta: m, ..s.base }, ..*s }),
        ),
    }
}

/// The service a route names, as text.
pub open spec fn route_service(r: Route) -> Option<Seq<char>> {
    match route_meta(r).service {
        Some(s) => Some(s@),
        None => None,
    }
}

impl Route {
    /// A simple route to `operation` on `service`.
    pub fn simple(service: String, operation: String) -> (r: Route)
        ensures
            r is Simple,
            route_meta(r).service matches Some(s) && s@ == service@,
            route_meta(r).operation matches Some(o) && o@ == operation@,
            !route_meta(r).routed,
    {
        Route::Simple(SimpleRoute::new(service, operation))
    }

    /// An external (content-only) route to `operation` on `service`.
    pub fn external(service: String, operation: String) -> (r: Route)
        ensures
            r matches Route::SimpleExternal(x) && x.send_content_only && x.origination is None
                && x.destination is None && x.status_code == 0,
            route_meta(r).service matches Some(s) && s@ == service@,
            route_meta(r).operation matches Some(o) && o@ == operation@,
            !route_meta(r).routed,
    {
        Route::SimpleExternal(Box::new(SimpleExternalRoute::new(service, operation)))
    }

    /// Shared metadata.
    pub fn meta(&self) -> (r: &RouteMeta)
        ensures
            *r == route_meta(*self),
    {
        match self {
            Route::Simple(r) => &r.meta,
            Route::RoutingSlip(r) => &r.meta,
            Route::SimpleExternal(r) => &r.meta,
            Route::RelayedExternal(r) => &r.base.meta,
        }
    }

    /// Target service name.
    pub fn service(&self) -> (r: Option<&str>)
        ensures
            match route_meta(*self).service {
                Some(s) => r matches Some(t) && t@ == s@,
                None => r is None,
            },
    {
        match &self.meta().service {
            Some(s) => Some(s.as_str()),
            None => None,
        }
    }

    /// Target operation name.
    pub fn operation(&self) -> (r: Option<&str>)
        ensures
            match route_meta(*self).operation {
                Some(s) => r matches Some(t) && t@ == s@,
                None => r is None,
            },
    {
        match &self.meta().operation {
            Some(s) => Some(s.as_str()),
            None => None,
        }
    }

    /// Whether this route has been consumed.
    pub fn routed(&self) -> (r: bool)
        ensures
            r == route_meta(*self).routed,
    {
        self.meta().routed
    }

    /// The slip-correlation id.
    pub fn route_id(&self) -> (r: i64)
        ensures
            r == route_meta(*self).route_id,
    {
        self.meta().route_id
    }

    /// The shared metadata, for changing it in place.
    pub fn meta_mut(&mut self) -> (r: &mut RouteMeta)
        ensures
            *r == route_meta(*old(self)),
            *final(self) == with_meta(*old(self), *final(r)),
    {
        match self {
            Route::Simple(r) => &mut r.meta,
            Route::RoutingSlip(r) => &mut r.meta,
            Route::SimpleExternal(r) => &mut r.meta,
            Route::RelayedExternal(r) => &mut r.base.meta,
        }
    }

    /// Replaces the metadata, keeping all else.
    fn replace_meta(&mut self, m: RouteMeta)
        ensures
            *final(self) == with_meta(*old(self), m),
    {
        match self {
            Route::Simple(r) => {
                r.meta = m;
            },
            Route::RoutingSlip(r) => {
                r.set_meta(m);
            },
            Route::SimpleExternal(r) => {
                r.meta = m;
            },
            Route::RelayedExternal(r) => {
                r.base.meta = m;
            },
        }
    }

    /// Sets the routed flag.
    pub fn set_routed(&mut self, routed: bool)
        ensures
            *final(self) == with_meta(*old(self), RouteMeta { routed, ..route_meta(*old(self)) }),
    {
        let mut m = self.meta().clone();
        m.routed = routed;
        self.replace_meta(m);
    }

    /// Sets the slip-correlation id.
    pub fn set_route_id(&mut self, id: i64)
        ensures
            *final(self) == with_meta(*old(self), RouteMeta { route_id: id, ..route_meta(*old(self)) }),
    {
        let mut m = self.meta().clone();
        m.route_id = id;
        self.replace_meta(m);
    }
}

/// Whether `b` copies `a` as far as routing goes: the same variant and the
/// same metadata.
pub open spec fn same_route(a: Route, b: Route) -> bool {
    &&& route_meta(b) == route_meta(a)
    &&& (a is Simple) == (b is Simple)
    &&& (a is RoutingSlip) == (b is RoutingSlip)
    &&& (a is SimpleExternal) == (b is SimpleExternal)
    &&& (a is RelayedExternal) == (b is RelayedExternal)
}

/// A copy of a route.
fn copy_route(r: &Route) -> (c: Route)
    ensures
        same_route(*r, c),
    decreases r, 0nat,
{
    match r {
        Route::Simple(s) => Route::Simple(SimpleRoute { meta: s.meta.clone() }),
        Route::RoutingSlip(s) => {
            proof {
                assert(decreases_to!(*r => (*r)->RoutingSlip_0));
            }
            Route::RoutingSlip(copy_slip(s))
        },
        Route::SimpleExternal(b) => Route::SimpleExternal(Box::new((**b).clone())),
        Route::RelayedExternal(b) => Route::RelayedExternal(Box::new((**b).clone())),
    }
}

/// A copy of a routing slip: the same metadata, and a copy of each route.
fn copy_slip(s: &DynamicRoutingSlip) -> (c: DynamicRoutingSlip)
    ensures
        c.meta == s.meta,
        c.routes@.len() == s.routes@.len(),
        forall|i: int| 0 <= i < s.routes@.len() ==> same_route(s.routes@[i], #[trigger] c.routes@[i]),
        (c.current_route is Some) == (s.current_route is Some),
        s.current_route matches Some(x) ==> same_route(*x, *c.current_route->0),
    decreases s, 1nat,
{
    let mut routes: VecDeque<Route> = VecDeque::new();
    let mut i: usize = 0;
    while i < s.routes.len()
        invariant
            i <= s.routes@.len(),
            routes@.len() == i,
            forall|j: int| 0 <= j < i ==> same_route(s.routes@[j], #[trigger] routes@[j]),
        decreases s.routes@.len() - i,
    {
        proof {
            assert(decreases_to!(*s => s.routes));
            assert(decreases_to!(s.routes => s.routes[i as int]));
        }
        let c = copy_route(&s.routes[i]);
        routes.push_back(c);
        i = i + 1;
    }
    let current_route = match &s.current_route {
        Some(b) => {
            proof {
                assert(decreases_to!(*s => s.current_route));
                assert(decreases_to!(s.current_route => s.current_route->0));
            }
            Some(Box::new(copy_route(&**b)))
        },
        None => None,
    };
    DynamicRoutingSlip { meta: s.meta.clone(), routes, current_route }
}

impl Clone for Route {
    /// A copy with the same variant and metadata.
    fn clone(&self) -> (r: Route)
        ensures
            same_route(*self, r),
    {
        copy_route(self)
    }
}

impl Clone for DynamicRoutingSlip {
    /// A copy with the same metadata and a copy of each route.
    fn clone(&self) -> (r: DynamicRoutingSlip)
        ensures
            r.meta == self.meta,
            r.routes@.len() == self.routes@.len(),
            forall|i: int|
                0 <= i < self.routes@.len() ==> same_route(self.routes@[i], #[trigger] r.routes@[i]),
    {
        copy_slip(self)
    }
}

impl From<SimpleRoute> for Route {
    fn from(r: SimpleRoute) -> (x: Route) {
        Route::Simple(r)
    }
}

impl vstd::std_specs::convert::FromSpecImpl<SimpleRoute> for Route {
    open spec fn obeys_from_spec() -> bool {
        true
    }

    open spec fn from_spec(r: SimpleRoute) -> Route {
        Route::Simple(r)
    }
}

impl From<SimpleExternalRoute> for Route {
    fn from(r: SimpleExternalRoute) -> (x: Route) {
        Route::SimpleExternal(Box::new(r))
    }
}

impl vstd::std_specs::convert::FromSpecImpl<SimpleExternalRoute> for Route {
    open spec fn obeys_from_spec() -> bool {
        true
    }

    open spec fn from_spec(r: SimpleExternalRoute) -> Route {
        Route::SimpleExternal(Box::new(r))
    }
}

impl From<RelayedExternalRoute> for Route {
    fn from(r: RelayedExternalRoute) -> (x: Route) {
        Route::RelayedExternal(Box::new(r))
    }
}

impl vstd::std_specs::convert::FromSpecImpl<RelayedExternalRoute> for Route {
    open spec fn obeys_from_spec() -> bool {
        true
    }

    open spec fn from_spec(r: RelayedExternalRoute) -> Route {
        Route::RelayedExternal(Box::new(r))
    }
}

} // verus!
