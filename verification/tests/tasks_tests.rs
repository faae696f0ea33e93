use ra_common::tasks::runner::{
    plan_poll, poll_period, runner_status, worker_status, worker_step, PollAction, RunnerStatus, TaskSlot,
    WorkerAction, WorkerPhase,
};
use ra_common::tasks::task::{TaskConfig, TaskStatus};

#[test]
fn configs() {
    let once = TaskConfig::once("c".to_string());
    assert_eq!(once.periodicity_ms, 0);
    assert!(!once.delayed);
    let p = TaskConfig::periodic("p".to_string(), 10).with_delay(5);
    assert_eq!(p.periodicity_ms, 10);
    assert!(p.delayed);
    assert_eq!(p.delay_ms, 5);
}

#[test]
fn one_shot_worker_runs_once() {
    let cfg = TaskConfig::once("c".to_string());
    let (p, a) = worker_step(&cfg, WorkerPhase::Start, false);
    assert_eq!((p, a), (WorkerPhase::Check, WorkerAction::Proceed));
    let (p, a) = worker_step(&cfg, p, false);
    assert_eq!((p, a), (WorkerPhase::AfterRun, WorkerAction::Execute));
    let (p, a) = worker_step(&cfg, p, false);
    assert_eq!((p, a), (WorkerPhase::Done, WorkerAction::Finish));
}

#[test]
fn periodic_worker_rests_and_stops_on_request() {
    let cfg = TaskConfig::periodic("p".to_string(), 10).with_delay(3);
    assert_eq!(worker_step(&cfg, WorkerPhase::Start, false), (WorkerPhase::Check, WorkerAction::Sleep(3)));
    assert_eq!(
        worker_step(&cfg, WorkerPhase::AfterRun, false),
        (WorkerPhase::Check, WorkerAction::Rest(10))
    );
    assert_eq!(worker_step(&cfg, WorkerPhase::Check, true), (WorkerPhase::Done, WorkerAction::Stop));
}

#[test]
fn poll_pass_reaps_launches_and_skips() {
    let slots = vec![
        TaskSlot { scheduled: true, periodicity_ms: 0, status: TaskStatus::Completed },
        TaskSlot { scheduled: false, periodicity_ms: 0, status: TaskStatus::Ready },
        TaskSlot { scheduled: false, periodicity_ms: -1, status: TaskStatus::Ready },
        TaskSlot { scheduled: true, periodicity_ms: 5, status: TaskStatus::Running },
    ];
    assert_eq!(
        plan_poll(&slots),
        vec![PollAction::Reap, PollAction::Launch, PollAction::Leave, PollAction::Leave]
    );
}

#[test]
fn runner_statuses() {
    assert_eq!(runner_status(false, true), RunnerStatus::Shutdown);
    assert_eq!(runner_status(true, true), RunnerStatus::Running);
    assert_eq!(runner_status(true, false), RunnerStatus::Stopping);
    assert_eq!(poll_period(0), 1);
    assert_eq!(poll_period(30_000), 30_000);
}

#[test]
fn worker_actions_set_task_status() {
    assert_eq!(worker_status(WorkerAction::Execute), Some(TaskStatus::Running));
    assert_eq!(worker_status(WorkerAction::Rest(10)), Some(TaskStatus::Ready));
    assert_eq!(worker_status(WorkerAction::Stop), Some(TaskStatus::Completed));
    assert_eq!(worker_status(WorkerAction::Finish), Some(TaskStatus::Completed));
    assert_eq!(worker_status(WorkerAction::Sleep(5)), None);
    assert_eq!(worker_status(WorkerAction::Proceed), None);
}
