use tools_core::event::ChangeKind;
use tools_core::ids::{TaskId, TaskStatus};
use tools_core::polling::{AttemptConfig, PollConfig, Response};
use tools_core::runtime::supervisor::{Forward, Supervisor, SupervisorEffect, SupervisorError};
use tools_core::runtime::task_actor::{ActorCommand, ActorEffect, ActorRuntime, Desired, Phase, PollOutcome, TaskActor};
use tools_core::runtime::worker::{BuildOutcome, Generation, PollEnd, WorkerCmd, WorkerCore, WorkerReport, WorkerWait};
use tools_core::spec::TaskConfig;

fn config(limit: u64) -> TaskConfig<u32> {
    let poll = PollConfig {
        interval_ms: 10,
        limit,
        attempt: AttemptConfig { timeout_ms: 5, retries: 0, retry_delay_ms: 0 },
    };
    TaskConfig::try_new("t".to_string(), 1u32, poll, 2).unwrap()
}

#[test]
fn actor_status_follows_wish_and_work() {
    let mut a: TaskActor<u32, u32> = TaskActor::new(TaskId(1), config(0), Desired::Stopped);
    assert_eq!(a.status(), TaskStatus::Idle);
    assert_eq!(a.phase(), Phase::WaitCommand);
    let (go, e) = a.handle(ActorCommand::Start);
    assert!(go);
    assert_eq!(e, vec![ActorEffect::Emit(ChangeKind::Starting)]);
    assert_eq!(a.status(), TaskStatus::Starting);
    assert_eq!(a.phase(), Phase::Build);
    assert_eq!(a.on_built(Ok(())), vec![ActorEffect::Emit(ChangeKind::Started)]);
    assert_eq!(a.status(), TaskStatus::Active);
    assert_eq!(a.phase(), Phase::PollCycle);
    let (_, e) = a.handle(ActorCommand::Stop);
    assert_eq!(e, vec![ActorEffect::DropAdapter, ActorEffect::Emit(ChangeKind::Stopped)]);
    assert_eq!(a.status(), TaskStatus::Stopped);
    let (go, e) = a.handle(ActorCommand::Shutdown);
    assert!(!go);
    assert!(e.is_empty());
}

#[test]
fn actor_backs_off_and_restarts() {
    let mut a: TaskActor<u32, u32> = TaskActor::new(TaskId(1), config(0), Desired::Running);
    assert_eq!(a.status(), TaskStatus::Starting);
    let e = a.on_built(Err("down".to_string()));
    assert_eq!(
        e,
        vec![
            ActorEffect::BeginBackoff { delay_ms: 1000 },
            ActorEffect::Emit(ChangeKind::BuildFailed { reason: "down".to_string() }),
        ]
    );
    assert_eq!(a.status(), TaskStatus::Restarting);
    assert_eq!(a.phase(), Phase::Backoff);
    a.on_backoff_elapsed();
    assert_eq!(a.runtime(), ActorRuntime::Idle);
    let e = a.on_built(Err("down".to_string()));
    assert_eq!(e[0], ActorEffect::BeginBackoff { delay_ms: 2000 });
    a.on_backoff_elapsed();
    assert_eq!(a.on_built(Ok(())), vec![ActorEffect::Emit(ChangeKind::Restarted)]);
    let e = a.on_polled(PollOutcome::Fatal("gone".to_string()));
    assert_eq!(
        e,
        vec![
            ActorEffect::DropAdapter,
            ActorEffect::BeginBackoff { delay_ms: 1000 },
            ActorEffect::Emit(ChangeKind::Failed { reason: "poll failed: gone".to_string() }),
        ]
    );
    a.on_backoff_elapsed();
    a.on_built(Ok(()));
    let e = a.on_polled(PollOutcome::Panicked("bad".to_string()));
    assert_eq!(e[2], ActorEffect::Emit(ChangeKind::Failed { reason: "panic: bad".to_string() }));
}

#[test]
fn actor_completes_at_limit_and_restarts_on_start() {
    let mut a: TaskActor<u32, u32> = TaskActor::new(TaskId(3), config(2), Desired::Running);
    a.on_built(Ok(()));
    let ok = |v: u32| PollOutcome::Answered(Response::Success { output: v, elapsed_ms: 1 });
    assert_eq!(a.on_polled(ok(1)), vec![ActorEffect::Emit(ChangeKind::Polled)]);
    assert!(!a.limit_reached());
    assert_eq!(a.on_polled(ok(2)), vec![ActorEffect::Emit(ChangeKind::Completed)]);
    assert!(a.limit_reached());
    assert_eq!(a.status(), TaskStatus::Completed);
    assert_eq!(a.phase(), Phase::WaitCommand);
    assert_eq!(a.data().history().len(), 1);
    let (_, e) = a.handle(ActorCommand::Start);
    assert_eq!(e, vec![ActorEffect::Emit(ChangeKind::Starting)]);
    assert_eq!(a.data().metrics().total_attempts, 0);
    assert!(!a.limit_reached());
}

#[test]
fn actor_update_bumps_revision_and_rebuilds() {
    let mut a: TaskActor<u32, u32> = TaskActor::new(TaskId(3), config(0), Desired::Running);
    a.on_built(Ok(()));
    let (_, e) = a.handle(ActorCommand::Update { spec: config(5) });
    assert_eq!(e, vec![ActorEffect::DropAdapter, ActorEffect::Emit(ChangeKind::SpecUpdated)]);
    assert_eq!(a.data().spec().revision().0, 2);
    assert_eq!(a.data().spec().poll_config().limit, 5);
    assert_eq!(a.phase(), Phase::Build);
    assert!(a.can_handle(&ActorCommand::Update { spec: config(5) }));
    assert!(a.can_take_build(&Err("x".to_string())));
    assert_eq!(a.desired(), Desired::Running);
}

#[test]
fn supervisor_recreates_running_actors() {
    let mut s: Supervisor<u32> = Supervisor::new();
    let (id, e) = s.add_task(config(0));
    assert_eq!(id, TaskId(1));
    assert_eq!(e, vec![SupervisorEffect::SpawnActor { task_id: id, desired: Desired::Stopped }]);
    let e = s.start_task(id).unwrap();
    assert_eq!(e, vec![SupervisorEffect::ForwardToActor { task_id: id, cmd: Forward::Start }]);
    let e = s.on_death(id, Some("boom".to_string()));
    assert_eq!(
        e,
        vec![
            SupervisorEffect::FactCrashed { task_id: id, reason: "boom".to_string() },
            SupervisorEffect::SpawnActor { task_id: id, desired: Desired::Running },
        ]
    );
    let e = s.on_death(id, None);
    assert_eq!(e, vec![SupervisorEffect::SpawnActor { task_id: id, desired: Desired::Running }]);
}

#[test]
fn supervisor_stopped_actor_death_loses_handle() {
    let mut s: Supervisor<u32> = Supervisor::new();
    let (id, _) = s.add_task(config(0));
    assert!(s.on_death(id, None).is_empty());
    assert_eq!(s.start_task(id), Err(SupervisorError::TaskNotFound(id)));
    assert_eq!(s.remove_task(id), Err(SupervisorError::TaskNotFound(id)));
    assert!(s.spec_of(id).is_some());
}

#[test]
fn supervisor_update_remove_and_shutdown() {
    let mut s: Supervisor<u32> = Supervisor::new();
    let (a, _) = s.add_task(config(0));
    let (b, _) = s.add_task(config(0));
    let e = s.update_task(a, config(9)).unwrap();
    assert_eq!(e, vec![SupervisorEffect::ForwardToActor { task_id: a, cmd: Forward::Update }]);
    assert_eq!(s.spec_of(a).unwrap().poll_config().limit, 9);
    assert_eq!(s.stop_task(b).unwrap(), vec![SupervisorEffect::ForwardToActor { task_id: b, cmd: Forward::Stop }]);
    let e = s.remove_task(a).unwrap();
    assert_eq!(e, vec![SupervisorEffect::AbortActor { task_id: a }, SupervisorEffect::FactRemoved { task_id: a }]);
    assert!(s.spec_of(a).is_none());
    assert!(s.on_death(a, None).is_empty());
    assert_eq!(s.update_task(TaskId(99), config(0)), Err(SupervisorError::TaskNotFound(TaskId(99))));
    assert_eq!(s.shutdown(), vec![SupervisorEffect::AbortActor { task_id: b }]);
    assert!(s.can_add());
}

#[test]
fn worker_core_reports_carry_its_key() {
    let core = WorkerCore::new(TaskId(4), Generation(2));
    let (r, go): (WorkerReport<u32>, bool) = core.on_build(BuildOutcome::Built);
    assert!(go);
    assert_eq!(r.key(), (TaskId(4), Generation(2)));
    let (r, go): (WorkerReport<u32>, bool) = core.on_build(BuildOutcome::Failed("x".to_string()));
    assert!(!go);
    assert!(matches!(r, WorkerReport::BuildFailed { ref reason, .. } if reason == "x"));
    let (_, go): (WorkerReport<u32>, bool) = core.on_build(BuildOutcome::TimedOut);
    assert!(!go);
    let (r, go) = core.on_poll(PollEnd::Answered(Response::Success { output: 5u32, elapsed_ms: 1 }));
    assert!(go);
    assert!(matches!(r, WorkerReport::Polled { .. }));
    let (r, go): (WorkerReport<u32>, bool) = core.on_poll(PollEnd::Fatal("f".to_string()));
    assert!(!go);
    assert!(matches!(r, WorkerReport::PollFailed { .. }));
    let r: WorkerReport<u32> = core.on_worker_panic("p".to_string());
    assert_eq!(r.key(), (TaskId(4), Generation(2)));
}

#[test]
fn worker_core_pause_and_resume() {
    let mut core = WorkerCore::new(TaskId(1), Generation(0));
    assert_eq!(core.wait(), WorkerWait::IntervalOrCommand);
    let r: Option<WorkerReport<u32>> = core.on_cmd(WorkerCmd::Pause);
    assert!(matches!(r, Some(WorkerReport::Paused { .. })));
    assert_eq!(core.wait(), WorkerWait::CommandOnly);
    let r: Option<WorkerReport<u32>> = core.on_cmd(WorkerCmd::Pause);
    assert!(r.is_none());
    let r: Option<WorkerReport<u32>> = core.on_cmd(WorkerCmd::Resume);
    assert!(matches!(r, Some(WorkerReport::Resumed { .. })));
    let r: Option<WorkerReport<u32>> = core.on_cmd(WorkerCmd::Resume);
    assert!(r.is_none());
    assert_eq!(Generation::first().next(), Generation(1));
}
