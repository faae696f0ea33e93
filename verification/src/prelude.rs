//! Common imports for working with this crate.

pub use crate::config::Properties;
pub use crate::content::{Content, ContentKind};
pub use crate::crypto::{HashAlgorithm, HashCash, Multihash};
pub use crate::envelope::{Action, Envelope, MessageType};
pub use crate::error::{RaError, Result};
pub use crate::identity::{Did, PublicKey, Signature};
pub use crate::lifecycle::{Client, LifeCycle, Status};
pub use crate::messaging::{
    Command, CommandMessage, DocumentMessage, EventMessage, EventType, Message, TextMessage,
};
pub use crate::network::{Network, NetworkPeer, NetworkStatus};
pub use crate::route::{DynamicRoutingSlip, Route, SimpleRoute};
pub use crate::service::{Service, ServiceCore, ServiceLevel, ServiceReport, ServiceStatus};
pub use crate::tasks::{Task, TaskConfig};
