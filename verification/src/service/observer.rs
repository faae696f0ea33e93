//! Observers of service status changes.

use crate::service::status::ServiceStatus;
use vstd::prelude::*;

verus! {

/// Notified whenever a service's status changes.
pub trait ServiceStatusObserver: Send + Sync {
    /// Whether this observer has been told that the service `name` changed to
    /// `status`. An implementation may say what that means for it; by default
    /// nothing is claimed.
    closed spec fn told(&self, name: Seq<char>, status: ServiceStatus) -> bool {
        true
    }

    /// `service_full_name` changed to `status`.
    fn service_status_changed(&self, service_full_name: &str, status: ServiceStatus)
        ensures
            self.told(service_full_name@, status),
    ;
}

} // verus!
