//! Routing: routes, routing slips and external / relayed routes.

pub mod external;
pub mod model;
pub mod slip;
pub mod status;

pub use external::{RelayedExternalRoute, SimpleExternalRoute};
pub use model::{Route, RouteMeta, SimpleRoute};
pub use slip::DynamicRoutingSlip;
