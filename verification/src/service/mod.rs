//! The service framework: the service contract, shared state, status enums
//! and reports.

pub mod base;
pub mod message;
pub mod observer;
pub mod report;
pub mod status;

pub use base::{Service, ServiceCore, RA_SERVICE_IMPL};
pub use message::{ServiceMessage, NO_ERROR, REQUEST_REQUIRED};
pub use observer::ServiceStatusObserver;
pub use report::ServiceReport;
pub use status::{ServiceLevel, ServiceStatus};
