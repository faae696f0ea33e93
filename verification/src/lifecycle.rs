//! Lifecycle and status contracts shared by services and long-lived
//! components.

use crate::config::Properties;
use crate::envelope::Envelope;
use vstd::prelude::*;

verus! {

/// Coarse run state of a component.
#[derive(Debug, Clone, Copy, PartialEq, Eq, Hash, Structural)]
pub enum Status {
    Initialized,
    Starting,
    Running,
    Paused,
    Stopping,
    Stopped,
    Errored,
}

/// Start / pause / restart / shutdown contract. Every method returns `true` on
/// success.
pub trait LifeCycle: Sized {
    /// Starts the component with the given configuration.
    fn start(&mut self, properties: &Properties) -> bool;

    /// Begins queueing new work, letting in-flight work finish. Default: not
    /// supported.
    fn pause(&mut self) -> (r: bool)
        default_ensures
            !r,
    {
        false
    }

    /// Resumes normal operation after a pause. Default: not supported.
    fn unpause(&mut self) -> (r: bool)
        default_ensures
            !r,
    {
        false
    }

    /// Graceful shutdown followed by start. Default: not supported.
    fn restart(&mut self) -> (r: bool)
        default_ensures
            !r,
    {
        false
    }

    /// Teardown is imminent and may not be clean.
    fn shutdown(&mut self) -> bool;

    /// Ideal clean teardown. Default: [`LifeCycle::shutdown`].
    fn graceful_shutdown(&mut self) -> (r: bool)
        default_ensures
            exists|s: &mut Self|
                #![trigger call_ensures(Self::shutdown, (s,), r)]
                *s == *old(self) && *final(s) == *final(self) && call_ensures(
                    Self::shutdown,
                    (s,),
                    r,
                ),
    {
        self.shutdown()
    }
}

/// A caller that a service can send a reply envelope back to.
pub trait Client: Send + Sync {
    /// Delivers a reply to the client.
    fn reply(&self, envelope: Envelope);
}

} // verus!
