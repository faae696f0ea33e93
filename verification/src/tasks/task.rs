//! Tasks and their scheduling configuration.

use vstd::prelude::*;

verus! {

/// Lifecycle state of a task.
#[derive(Debug, Clone, Copy, PartialEq, Eq, Structural)]
pub enum TaskStatus {
    Ready,
    Running,
    Completed,
}

/// Scheduling configuration for a [`Task`].
#[derive(Debug, Clone)]
pub struct TaskConfig {
    /// Human-readable name.
    pub name: String,
    /// `0` = run once; `> 0` = re-run every N milliseconds; `-1` = disabled.
    pub periodicity_ms: i64,
    /// Whether to wait [`TaskConfig::delay_ms`] before the first run.
    pub delayed: bool,
    /// Initial delay in milliseconds when [`TaskConfig::delayed`].
    pub delay_ms: u64,
    /// `true` = wait `periodicity_ms` after each run finishes (fixed delay);
    /// `false` = aim to start every `periodicity_ms` (fixed rate). Runs are
    /// always spaced by a fixed delay; the flag is kept for callers.
    pub fixed_delay: bool,
    /// Hint that the task may run for a long time (every task gets its own
    /// thread, so this is informational).
    pub long_running: bool,
}

impl TaskConfig {
    /// A one-shot task named `name`.
    pub fn once(name: String) -> (r: TaskConfig)
        ensures
            r.name@ == name@,
            r.periodicity_ms == 0,
            !r.delayed,
            r.delay_ms == 0,
            !r.fixed_delay,
            !r.long_running,
    {
        TaskConfig {
            name,
            periodicity_ms: 0,
            delayed: false,
            delay_ms: 0,
            fixed_delay: false,
            long_running: false,
        }
    }

    /// A task that repeats every `period_ms` milliseconds (the period is kept
    /// as a signed number, as `period_ms as i64` gives it).
    pub fn periodic(name: String, period_ms: u64) -> (r: TaskConfig)
        ensures
            r.name@ == name@,
            r.periodicity_ms == period_ms as i64,
            !r.delayed,
            r.delay_ms == 0,
            !r.fixed_delay,
            !r.long_running,
    {
        let mut cfg = TaskConfig::once(name);
        cfg.periodicity_ms = period_ms as i64;
        cfg
    }

    /// The same configuration with an initial delay of `delay_ms`.
    pub fn with_delay(self, delay_ms: u64) -> (r: TaskConfig)
        ensures
            r.name == self.name,
            r.periodicity_ms == self.periodicity_ms,
            r.delayed,
            r.delay_ms == delay_ms,
            r.fixed_delay == self.fixed_delay,
            r.long_running == self.long_running,
    {
        let mut cfg = self;
        cfg.delayed = true;
        cfg.delay_ms = delay_ms;
        cfg
    }
}

/// A unit of work run by a task runner.
pub trait Task: Send {
    /// The scheduling configuration.
    fn config(&self) -> &TaskConfig;

    /// Does the work; `true` on success. Periodic tasks are called repeatedly.
    fn execute(&mut self) -> bool;

    /// Cooperative stop signal, checked before each run.
    fn should_stop(&self) -> (r: bool)
        default_ensures
            !r,
    {
        false
    }

    /// Called when a stop is requested. Default: nothing.
    fn on_stop(&mut self) {
    }
}

} // verus!
