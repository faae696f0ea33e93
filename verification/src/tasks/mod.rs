//! Background task scheduling: task configuration, the task contract, and the
//! decisions of the runner that drives tasks on background threads.

pub mod runner;
pub mod task;

pub use runner::{PollAction, RunnerStatus, TaskSlot, WorkerAction, WorkerPhase};
pub use task::{Task, TaskConfig, TaskStatus};
