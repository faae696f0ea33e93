//! Service levels and service statuses.

use vstd::prelude::*;

verus! {

/// Delivery guarantee for an envelope.
#[derive(Debug, Clone, Copy, PartialEq, Eq, Hash, Structural)]
pub enum ServiceLevel {
    /// May be lost, never duplicated or redelivered.
    AtMostOnce,
    /// Never lost, may be duplicated.
    AtLeastOnce,
    /// Processed exactly once.
    ExactlyOnce,
}

impl Default for ServiceLevel {
    /// At least once.
    fn default() -> (r: ServiceLevel)
        ensures
            r == ServiceLevel::AtLeastOnce,
    {
        ServiceLevel::AtLeastOnce
    }
}

/// Detailed lifecycle state of a service.
#[derive(Debug, Clone, Copy, PartialEq, Eq, Hash, Structural)]
pub enum ServiceStatus {
    /// Initial state.
    NotInitialized,
    /// Initializing configuration.
    Initializing,
    /// Waiting on a dependency to reach `Running`.
    Waiting,
    /// Starting up.
    Starting,
    /// Running normally.
    Running,
    /// Confirmed running by a received message.
    Verified,
    /// Running, though not everything is up (expected to be normal).
    PartiallyRunning,
    /// Running in a degraded manner; likely self-heals.
    DegradedRunning,
    /// Running but unstable; likely needs a restart.
    Unstable,
    /// Beginning to queue new requests.
    Pausing,
    /// Queueing new requests; pre-pause requests done.
    Paused,
    /// Resuming normal operation.
    Unpausing,
    /// Teardown imminent and not clean.
    ShuttingDown,
    /// Ideal clean teardown in progress.
    GracefullyShuttingDown,
    /// Was torn down forcefully; state may be corrupt.
    Shutdown,
    /// Shutdown was graceful; state is safe.
    GracefullyShutdown,
    /// Graceful shutdown then re-init.
    Restarting,
    /// No network available (not installed or off).
    Unavailable,
    /// Likely needs a restart.
    Error,
}

impl ServiceStatus {
    /// Whether a status is a usable running state.
    pub open spec fn running(self) -> bool {
        ||| self == ServiceStatus::Running
        ||| self == ServiceStatus::Verified
        ||| self == ServiceStatus::PartiallyRunning
        ||| self == ServiceStatus::DegradedRunning
    }

    /// Whether the service is in a usable running state.
    pub fn is_running(&self) -> (r: bool)
        ensures
            r == self.running(),
    {
        match self {
            ServiceStatus::Running
            | ServiceStatus::Verified
            | ServiceStatus::PartiallyRunning
            | ServiceStatus::DegradedRunning => true,
            _ => false,
        }
    }

    /// The name of the status.
    pub open spec fn name(self) -> Seq<char> {
        match self {
            ServiceStatus::NotInitialized => "NotInitialized"@,
            ServiceStatus::Initializing => "Initializing"@,
            ServiceStatus::Waiting => "Waiting"@,
            ServiceStatus::Starting => "Starting"@,
            ServiceStatus::Running => "Running"@,
            ServiceStatus::Verified => "Verified"@,
            ServiceStatus::PartiallyRunning => "PartiallyRunning"@,
            ServiceStatus::DegradedRunning => "DegradedRunning"@,
            ServiceStatus::Unstable => "Unstable"@,
            ServiceStatus::Pausing => "Pausing"@,
            ServiceStatus::Paused => "Paused"@,
            ServiceStatus::Unpausing => "Unpausing"@,
            ServiceStatus::ShuttingDown => "ShuttingDown"@,
            ServiceStatus::GracefullyShuttingDown => "GracefullyShuttingDown"@,
            ServiceStatus::Shutdown => "Shutdown"@,
            ServiceStatus::GracefullyShutdown => "GracefullyShutdown"@,
            ServiceStatus::Restarting => "Restarting"@,
            ServiceStatus::Unavailable => "Unavailable"@,
            ServiceStatus::Error => "Error"@,
        }
    }

    /// The name of the status, as it appears in reports.
    pub fn as_str(&self) -> (r: &'static str)
        ensures
            r@ == self.name(),
    {
        match self {
            ServiceStatus::NotInitialized => "NotInitialized",
            ServiceStatus::Initializing => "Initializing",
            ServiceStatus::Waiting => "Waiting",
            ServiceStatus::Starting => "Starting",
            ServiceStatus::Running => "Running",
            ServiceStatus::Verified => "Verified",
            ServiceStatus::PartiallyRunning => "PartiallyRunning",
            ServiceStatus::DegradedRunning => "DegradedRunning",
            ServiceStatus::Unstable => "Unstable",
            ServiceStatus::Pausing => "Pausing",
            ServiceStatus::Paused => "Paused",
            ServiceStatus::Unpausing => "Unpausing",
            ServiceStatus::ShuttingDown => "ShuttingDown",
            ServiceStatus::GracefullyShuttingDown => "GracefullyShuttingDown",
            ServiceStatus::Shutdown => "Shutdown",
            ServiceStatus::GracefullyShutdown => "GracefullyShutdown",
            ServiceStatus::Restarting => "Restarting",
            ServiceStatus::Unavailable => "Unavailable",
            ServiceStatus::Error => "Error",
        }
    }
}

} // verus!
