//! Routing slips: stacks of routes walked one hop at a time.

use super::model::{route_meta, with_meta, Route, RouteMeta};
use std::collections::VecDeque;
use vstd::prelude::*;

verus! {

/// A last-in-first-out stack of routes walked one hop at a time: the route
/// added last is taken next.
#[derive(Debug)]
pub struct DynamicRoutingSlip {
    /// The slip's own metadata (its route id stamps every route added).
    pub meta: RouteMeta,
    /// The routes not yet taken, the next one first.
    pub routes: VecDeque<Route>,
    /// The route taken last, if any.
    pub current_route: Option<Box<Route>>,
}

impl DynamicRoutingSlip {
    /// The routes not yet taken, the next one first.
    pub open spec fn spec_routes(self) -> Seq<Route> {
        self.routes@
    }

    /// The route taken last, if any.
    pub open spec fn spec_current(self) -> Option<Route> {
        match self.current_route {
            Some(b) => Some(*b),
            None => None,
        }
    }

    /// The slip with its metadata replaced by `m`.
    pub open spec fn with_meta_spec(self, m: RouteMeta) -> DynamicRoutingSlip {
        DynamicRoutingSlip { meta: m, ..self }
    }

    /// An empty slip, with a random route id.
    pub fn new() -> (r: DynamicRoutingSlip)
        ensures
            r.spec_routes().len() == 0,
            r.spec_current() is None,
            r.meta.service is None,
            r.meta.operation is None,
            !r.meta.routed,
    {
        DynamicRoutingSlip { meta: RouteMeta::default(), routes: VecDeque::new(), current_route: None }
    }

    /// Replaces the slip's own metadata.
    pub fn set_meta(&mut self, m: RouteMeta)
        ensures
            *final(self) == old(self).with_meta_spec(m),
            final(self).meta == m,
            final(self).spec_routes() == old(self).spec_routes(),
            final(self).spec_current() == old(self).spec_current(),
    {
        self.meta = m;
    }

    /// Pushes a route onto the stack, stamping it with this slip's route id.
    pub fn add_route(&mut self, route: Route)
        ensures
            final(self).spec_routes() == seq![
                with_meta(route, RouteMeta { route_id: old(self).meta.route_id, ..route_meta(route) }),
            ] + old(self).spec_routes(),
            final(self).spec_current() == old(self).spec_current(),
            final(self).meta == old(self).meta,
    {
        let mut route = route;
        route.set_route_id(self.meta.route_id);
        self.routes.push_front(route);
    }

    /// Number of routes not yet taken.
    pub fn number_remaining_routes(&self) -> (r: usize)
        ensures
            r == self.spec_routes().len(),
    {
        self.routes.len()
    }

    /// Takes the next route, which becomes the current one; `None` (and no
    /// current route) once the slip is exhausted.
    pub fn next_route(&mut self) -> (r: Option<&Route>)
        ensures
            old(self).spec_routes().len() > 0 ==> final(self).spec_current() == Some(
                old(self).spec_routes()[0],
            ) && final(self).spec_routes() == old(self).spec_routes().drop_first(),
            old(self).spec_routes().len() == 0 ==> final(self).spec_current() is None
                && final(self).spec_routes() == old(self).spec_routes(),
            final(self).meta == old(self).meta,
            match final(self).spec_current() {
                Some(c) => r == Some(&c),
                None => r is None,
            },
    {
        self.current_route = match self.routes.pop_front() {
            Some(next) => Some(Box::new(next)),
            None => None,
        };
        proof {
            assert(old(self).spec_routes().drop_first() =~= old(self).spec_routes().subrange(
                1,
                old(self).spec_routes().len() as int,
            ));
        }
        match &self.current_route {
            Some(b) => Some(&**b),
            None => None,
        }
    }

    /// The current route, taking the first one if none was taken yet.
    pub fn current_route(&mut self) -> (r: Option<&Route>)
        ensures
            old(self).spec_current() is Some ==> *final(self) == *old(self),
            old(self).spec_current() is None && old(self).spec_routes().len() > 0 ==> final(self).spec_current() == Some(old(self).spec_routes()[0]) && final(self).spec_routes()
                == old(self).spec_routes().drop_first(),
            old(self).spec_current() is None && old(self).spec_routes().len() == 0 ==> final(self).spec_current() is None && final(self).spec_routes() == old(self).spec_routes(),
            final(self).meta == old(self).meta,
            match final(self).spec_current() {
                Some(c) => r == Some(&c),
                None => r is None,
            },
    {
        if self.current_route.is_none() {
            self.next_route();
        }
        match &self.current_route {
            Some(b) => Some(&**b),
            None => None,
        }
    }

    /// The next route, without taking it.
    pub fn peek_at_next_route(&self) -> (r: Option<&Route>)
        ensures
            self.spec_routes().len() > 0 ==> r == Some(&self.spec_routes()[0]),
            self.spec_routes().len() == 0 ==> r is None,
    {
        if self.routes.len() > 0 {
            Some(&self.routes[0])
        } else {
            None
        }
    }
}

/// Last in, first out: a slip's routes after adding `added` start with it, so
/// it is the route taken next, and taking it leaves the routes that were there
/// before.
pub proof fn lemma_last_added_is_taken_first(routes: Seq<Route>, added: Route)
    ensures
        (seq![added] + routes)[0] == added,
        (seq![added] + routes).drop_first() == routes,
{
    assert((seq![added] + routes).drop_first() =~= routes);
}

impl Default for DynamicRoutingSlip {
    /// An empty slip, with a random route id.
    fn default() -> (r: DynamicRoutingSlip)
        ensures
            r.spec_routes().len() == 0,
            r.spec_current() is None,
    {
        DynamicRoutingSlip::new()
    }
}

} // verus!
