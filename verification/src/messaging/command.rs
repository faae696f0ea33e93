//! Command messages.

use vstd::prelude::*;

verus! {

/// A command for a service to execute.
#[derive(Debug, Clone, Copy, PartialEq, Eq, Hash, Structural)]
pub enum Command {
    Start,
    Shutdown,
    GracefullyShutdown,
    Restart,
    Pause,
    Unpause,
    NetState,
    Report,
    RegisterStateChangeListener,
    UnregisterStateChangeListener,
}

/// A message telling a service which [`Command`] to run.
#[derive(Debug, Clone)]
pub struct CommandMessage {
    pub error_messages: Vec<String>,
    pub command: Option<Command>,
}

impl Default for CommandMessage {
    /// No error messages and no command.
    fn default() -> (r: CommandMessage)
        ensures
            r.error_messages@.len() == 0,
            r.command is None,
    {
        CommandMessage { error_messages: Vec::new(), command: None }
    }
}

impl CommandMessage {
    /// A message carrying `command`.
    pub fn new(command: Command) -> (r: CommandMessage)
        ensures
            r.error_messages@.len() == 0,
            r.command == Some(command),
    {
        CommandMessage { error_messages: Vec::new(), command: Some(command) }
    }
}

} // verus!
