//! Foundational types for the Resolving Architecture ecosystem: the message
//! envelope, routing slips, identities, hashing helpers, proof-of-work tokens,
//! typed content and small utilities, each with a machine-checked contract.

pub mod config;
pub mod content;
pub mod crypto;
pub mod encoding;
pub mod envelope;
pub mod error;
pub mod file;
pub mod identity;
pub mod json;
pub mod lifecycle;
pub mod messaging;
pub mod network;
pub mod prelude;
pub mod route;
pub mod service;
pub mod tasks;
mod text;
pub mod util;

pub use crate::config::Properties;
pub use crate::envelope::Envelope;
pub use crate::error::{RaError, Result};
pub use crate::lifecycle::{Client, LifeCycle, Status};
pub use crate::messaging::Message;
pub use crate::route::Route;
pub use crate::service::{Service, ServiceCore, ServiceStatus};
