//! The decisions of a task runner. The runner itself (threads, sleeping,
//! waking) lives with the program; it asks these functions what to do next.
//!
//! A poll pass reaps completed tasks and launches a worker for each task not
//! yet scheduled, except disabled ones (`periodicity_ms == -1`). A worker
//! waits out the initial delay, then repeatedly checks for a stop request and
//! runs the task, once for `periodicity_ms <= 0` and on a fixed delay of
//! `periodicity_ms` otherwise.

use super::task::{TaskConfig, TaskStatus};
use vstd::prelude::*;

verus! {

/// Runner status.
#[derive(Debug, Clone, Copy, PartialEq, Eq, Structural)]
pub enum RunnerStatus {
    Running,
    Stopping,
    Shutdown,
}

/// The status of a runner: shut down when it has no poll thread, running while
/// its running flag is set, stopping otherwise.
pub fn runner_status(started: bool, running: bool) -> (r: RunnerStatus)
    ensures
        !started ==> r == RunnerStatus::Shutdown,
        started && running ==> r == RunnerStatus::Running,
        started && !running ==> r == RunnerStatus::Stopping,
{
    if !started {
        RunnerStatus::Shutdown
    } else if running {
        RunnerStatus::Running
    } else {
        RunnerStatus::Stopping
    }
}

/// The poll period used for a requested one: at least one millisecond.
pub fn poll_period(ms: u64) -> (r: u64)
    ensures
        r == if ms == 0 {
            1
        } else {
            ms
        },
{
    if ms == 0 {
        1
    } else {
        ms
    }
}

/// What the runner knows of one registered task.
#[derive(Debug, Clone, Copy, PartialEq, Eq, Structural)]
pub struct TaskSlot {
    /// Whether a worker was launched for it.
    pub scheduled: bool,
    /// Its configured period (`-1` = disabled).
    pub periodicity_ms: i64,
    /// Its current status.
    pub status: TaskStatus,
}

/// What a poll pass does with one task.
#[derive(Debug, Clone, Copy, PartialEq, Eq, Structural)]
pub enum PollAction {
    /// The task completed: join its worker and drop it.
    Reap,
    /// Launch a worker for it and mark it scheduled.
    Launch,
    /// Leave it as it is.
    Leave,
}

/// The action a poll pass takes for a task.
pub open spec fn poll_action(s: TaskSlot) -> PollAction {
    if s.status == TaskStatus::Completed {
        PollAction::Reap
    } else if !s.scheduled && s.periodicity_ms != -1 {
        PollAction::Launch
    } else {
        PollAction::Leave
    }
}

/// One poll pass over the registered tasks: one action per task, in order.
pub fn plan_poll(slots: &Vec<TaskSlot>) -> (r: Vec<PollAction>)
    ensures
        r@.len() == slots@.len(),
        forall|i: int| 0 <= i < slots@.len() ==> r@[i] == poll_action(#[trigger] slots@[i]),
{
    let mut out: Vec<PollAction> = Vec::new();
    let mut i: usize = 0;
    while i < slots.len()
        invariant
            i <= slots@.len(),
            out@.len() == i,
            forall|j: int| 0 <= j < i ==> out@[j] == poll_action(#[trigger] slots@[j]),
        decreases slots@.len() - i,
    {
        let s = slots[i];
        let a = if s.status == TaskStatus::Completed {
            PollAction::Reap
        } else if !s.scheduled && s.periodicity_ms != -1 {
            PollAction::Launch
        } else {
            PollAction::Leave
        };
        out.push(a);
        i = i + 1;
    }
    out
}

/// Where a worker stands.
#[derive(Debug, Clone, Copy, PartialEq, Eq, Structural)]
pub enum WorkerPhase {
    /// Not started: the initial delay may be due.
    Start,
    /// About to check for a stop request and run.
    Check,
    /// Just ran the task.
    AfterRun,
    /// Finished; the task is completed.
    Done,
}

/// What a worker does next.
#[derive(Debug, Clone, Copy, PartialEq, Eq, Structural)]
pub enum WorkerAction {
    /// Sleep this many milliseconds (the initial delay).
    Sleep(u64),
    /// Nothing to wait for; go on.
    Proceed,
    /// Mark the task running and execute it.
    Execute,
    /// Mark the task ready and sleep this many milliseconds before the next run.
    Rest(u64),
    /// A stop was requested: tell the task, then mark it completed.
    Stop,
    /// Mark the task completed.
    Finish,
}

/// One step of a worker, as a function of its configuration (delay flag,
/// initial delay, period), its phase and whether a stop is requested.
pub open spec fn worker_spec(
    delayed: bool,
    delay_ms: u64,
    periodicity_ms: i64,
    phase: WorkerPhase,
    stop_requested: bool,
) -> (WorkerPhase, WorkerAction) {
    match phase {
        WorkerPhase::Start => if delayed && delay_ms > 0 {
            (WorkerPhase::Check, WorkerAction::Sleep(delay_ms))
        } else {
            (WorkerPhase::Check, WorkerAction::Proceed)
        },
        WorkerPhase::Check => if stop_requested {
            (WorkerPhase::Done, WorkerAction::Stop)
        } else {
            (WorkerPhase::AfterRun, WorkerAction::Execute)
        },
        WorkerPhase::AfterRun => if periodicity_ms <= 0 {
            (WorkerPhase::Done, WorkerAction::Finish)
        } else {
            (WorkerPhase::Check, WorkerAction::Rest(periodicity_ms as u64))
        },
        WorkerPhase::Done => (WorkerPhase::Done, WorkerAction::Finish),
    }
}

/// One step of a worker: from its phase and whether a stop is requested (by the
/// runner or by the task), the next phase and the action to take.
pub fn worker_step(cfg: &TaskConfig, phase: WorkerPhase, stop_requested: bool) -> (r: (
    WorkerPhase,
    WorkerAction,
))
    ensures
        r == worker_spec(cfg.delayed, cfg.delay_ms, cfg.periodicity_ms, phase, stop_requested),
{
    match phase {
        WorkerPhase::Start => {
            if cfg.delayed && cfg.delay_ms > 0 {
                (WorkerPhase::Check, WorkerAction::Sleep(cfg.delay_ms))
            } else {
                (WorkerPhase::Check, WorkerAction::Proceed)
            }
        },
        WorkerPhase::Check => {
            if stop_requested {
                (WorkerPhase::Done, WorkerAction::Stop)
            } else {
                (WorkerPhase::AfterRun, WorkerAction::Execute)
            }
        },
        WorkerPhase::AfterRun => {
            if cfg.periodicity_ms <= 0 {
                (WorkerPhase::Done, WorkerAction::Finish)
            } else {
                (WorkerPhase::Check, WorkerAction::Rest(cfg.periodicity_ms as u64))
            }
        },
        WorkerPhase::Done => (WorkerPhase::Done, WorkerAction::Finish),
    }
}

/// The status a task takes with a worker action: running while it executes,
/// ready while it rests before its next run, completed once it stops or
/// finishes; `None` where the status stays as it is.
pub open spec fn status_for(action: WorkerAction) -> Option<TaskStatus> {
    match action {
        WorkerAction::Execute => Some(TaskStatus::Running),
        WorkerAction::Rest(_) => Some(TaskStatus::Ready),
        WorkerAction::Stop | WorkerAction::Finish => Some(TaskStatus::Completed),
        WorkerAction::Sleep(_) | WorkerAction::Proceed => None,
    }
}

/// The status a task takes with a worker action (see [`status_for`]). The
/// worker sets it before executing or resting, and after telling a stopped
/// task to stop.
pub fn worker_status(action: WorkerAction) -> (r: Option<TaskStatus>)
    ensures
        r == status_for(action),
{
    match action {
        WorkerAction::Execute => Some(TaskStatus::Running),
        WorkerAction::Rest(_) => Some(TaskStatus::Ready),
        WorkerAction::Stop | WorkerAction::Finish => Some(TaskStatus::Completed),
        WorkerAction::Sleep(_) | WorkerAction::Proceed => None,
    }
}

/// Running a worker through one step per entry of `stops` (whether a stop is
/// requested at that step): how many times it executes the task, and the phase
/// it ends in.
pub open spec fn worker_run(
    delayed: bool,
    delay_ms: u64,
    periodicity_ms: i64,
    phase: WorkerPhase,
    stops: Seq<bool>,
) -> (nat, WorkerPhase)
    decreases stops.len(),
{
    if stops.len() == 0 {
        (0, phase)
    } else {
        let (next, action) = worker_spec(delayed, delay_ms, periodicity_ms, phase, stops[0]);
        let (n, last) = worker_run(delayed, delay_ms, periodicity_ms, next, stops.drop_first());
        (
            if action == WorkerAction::Execute {
                n + 1
            } else {
                n
            },
            last,
        )
    }
}

/// A finished worker stays finished and never runs its task again.
pub proof fn lemma_done_stays_done(
    delayed: bool,
    delay_ms: u64,
    periodicity_ms: i64,
    stops: Seq<bool>,
)
    ensures
        worker_run(delayed, delay_ms, periodicity_ms, WorkerPhase::Done, stops) == (
            0nat,
            WorkerPhase::Done,
        ),
    decreases stops.len(),
{
    if stops.len() > 0 {
        lemma_done_stays_done(delayed, delay_ms, periodicity_ms, stops.drop_first());
    }
}

/// A stop requested at a check ends the worker without running the task again,
/// whatever follows.
pub proof fn lemma_stop_ends_worker(
    delayed: bool,
    delay_ms: u64,
    periodicity_ms: i64,
    stops: Seq<bool>,
)
    requires
        stops.len() > 0,
        stops[0],
    ensures
        worker_run(delayed, delay_ms, periodicity_ms, WorkerPhase::Check, stops) == (
            0nat,
            WorkerPhase::Done,
        ),
{
    lemma_done_stays_done(delayed, delay_ms, periodicity_ms, stops.drop_first());
}

/// A one-shot task (`periodicity_ms <= 0`) that is never asked to stop runs
/// exactly once: after its first three steps its worker is done, and it stays
/// done.
pub proof fn lemma_one_shot_runs_once(
    delayed: bool,
    delay_ms: u64,
    periodicity_ms: i64,
    stops: Seq<bool>,
)
    requires
        periodicity_ms <= 0,
        stops.len() >= 3,
        forall|i: int| 0 <= i < stops.len() ==> !stops[i],
    ensures
        worker_run(delayed, delay_ms, periodicity_ms, WorkerPhase::Start, stops) == (
            1nat,
            WorkerPhase::Done,
        ),
{
    let s1 = stops.drop_first();
    let s2 = s1.drop_first();
    let s3 = s2.drop_first();
    assert(!stops[1] && s1[0] == stops[1]);
    assert(!stops[2] && s2[0] == stops[2]);
    lemma_done_stays_done(delayed, delay_ms, periodicity_ms, s3);
    assert(worker_run(delayed, delay_ms, periodicity_ms, WorkerPhase::AfterRun, s2) == (
        0nat,
        WorkerPhase::Done,
    ));
    assert(worker_run(delayed, delay_ms, periodicity_ms, WorkerPhase::Check, s1) == (
        1nat,
        WorkerPhase::Done,
    ));
}

/// A periodic task (`periodicity_ms > 0`) that is never asked to stop runs once
/// for every two steps after its start, and rests between runs.
pub proof fn lemma_periodic_keeps_running(
    delayed: bool,
    delay_ms: u64,
    periodicity_ms: i64,
    k: nat,
)
    requires
        periodicity_ms > 0,
    ensures
        worker_run(
            delayed,
            delay_ms,
            periodicity_ms,
            WorkerPhase::Check,
            Seq::new(2 * k, |i: int| false),
        ) == (k, WorkerPhase::Check),
    decreases k,
{
    if k > 0 {
        let s = Seq::new(2 * k, |i: int| false);
        lemma_periodic_keeps_running(delayed, delay_ms, periodicity_ms, (k - 1) as nat);
        let s1 = s.drop_first();
        assert(s1.drop_first() =~= Seq::new(2 * ((k - 1) as nat), |i: int| false));
        assert(!s[0]);
        assert(!s1[0]);
        assert(worker_run(delayed, delay_ms, periodicity_ms, WorkerPhase::AfterRun, s1) == (
            (k - 1) as nat,
            WorkerPhase::Check,
        ));
    } else {
        assert(Seq::new(0, |i: int| false).len() == 0);
    }
}

} // verus!
