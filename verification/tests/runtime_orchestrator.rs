use tools_core::event::ChangeKind;
use tools_core::ids::{TaskId, TaskStatus};
use tools_core::polling::{AttemptConfig, AttemptError, PollConfig, Response};
use tools_core::runtime::orchestrator::{prefixed, status, Effect, Orchestrator, OrchestratorError, TaskState};
use tools_core::runtime::worker::{Generation, WorkerCmd, WorkerReport};
use tools_core::spec::TaskConfig;

fn config(name: &str, limit: u64) -> TaskConfig<u32> {
    let poll = PollConfig {
        interval_ms: 10,
        limit,
        attempt: AttemptConfig { timeout_ms: 5, retries: 0, retry_delay_ms: 0 },
    };
    TaskConfig::try_new(name.to_string(), 7u32, poll, 2).unwrap()
}

fn ok(v: u32) -> Response<u32> {
    Response::Success { output: v, elapsed_ms: 4 }
}

fn spawn(id: TaskId, g: u64) -> Effect {
    Effect::SpawnWorker { task_id: id, generation: Generation(g) }
}

fn emit(id: TaskId, kind: ChangeKind, status: TaskStatus) -> Effect {
    Effect::Emit { task_id: id, kind, status }
}

#[test]
fn orchestrator_add_assigns_increasing_ids() {
    let mut o: Orchestrator<u32, u32> = Orchestrator::new();
    let (a, ea) = o.add_task(config("a", 0));
    let (b, _) = o.add_task(config("b", 0));
    assert_eq!(a, TaskId(1));
    assert_eq!(b, TaskId(2));
    assert_eq!(ea, vec![emit(a, ChangeKind::Added, TaskStatus::Idle)]);
    assert_eq!(o.task_ids(), vec![a, b]);
    assert_eq!(o.len(), 2);
    assert_eq!(o.get(a).unwrap().state, TaskState::Idle);
    assert!(o.get(TaskId(9)).is_none());
}

#[test]
fn orchestrator_start_build_poll_until_limit() {
    let mut o: Orchestrator<u32, u32> = Orchestrator::new();
    let (id, _) = o.add_task(config("t", 2));
    let e = o.start(id).unwrap();
    assert_eq!(e, vec![spawn(id, 0), emit(id, ChangeKind::Starting, TaskStatus::Starting)]);
    // starting again while starting does nothing
    assert!(o.start(id).unwrap().is_empty());
    let e = o.on_report(WorkerReport::Built { task_id: id, generation: Generation(0) });
    assert_eq!(e, vec![emit(id, ChangeKind::Started, TaskStatus::Active)]);
    let e = o.on_report(WorkerReport::Polled { task_id: id, generation: Generation(0), response: ok(1) });
    assert_eq!(e, vec![emit(id, ChangeKind::Polled, TaskStatus::Active)]);
    let e = o.on_report(WorkerReport::Polled { task_id: id, generation: Generation(0), response: ok(2) });
    assert_eq!(
        e,
        vec![
            Effect::AbortWorker { task_id: id, generation: Generation(0) },
            emit(id, ChangeKind::Completed, TaskStatus::Completed),
        ]
    );
    let entry = o.get(id).unwrap();
    assert_eq!(entry.state, TaskState::Completed);
    assert!(entry.worker.is_none());
    assert_eq!(entry.task.metrics().total_attempts, 2);
    assert_eq!(entry.task.history().len(), 1);
    match entry.task.last_result() {
        Some(Response::Success { output, .. }) => assert_eq!(*output, 2),
        _ => panic!("expected the last answer"),
    }
}

#[test]
fn orchestrator_ignores_reports_of_replaced_workers() {
    let mut o: Orchestrator<u32, u32> = Orchestrator::new();
    let (id, _) = o.add_task(config("t", 0));
    o.start(id).unwrap();
    let e = o.update(id, config("t2", 0)).unwrap();
    assert_eq!(
        e,
        vec![
            emit(id, ChangeKind::SpecUpdated, TaskStatus::Starting),
            Effect::AbortWorker { task_id: id, generation: Generation(0) },
            spawn(id, 1),
        ]
    );
    assert_eq!(o.get(id).unwrap().task.spec().revision().0, 2);
    // the first worker is gone: its reports change nothing
    assert!(o.on_report(WorkerReport::Built { task_id: id, generation: Generation(0) }).is_empty());
    assert_eq!(o.get(id).unwrap().state, TaskState::Starting);
    assert!(o
        .on_report(WorkerReport::Polled { task_id: TaskId(42), generation: Generation(0), response: ok(1) })
        .is_empty());
}

#[test]
fn orchestrator_failure_restarts_with_backoff() {
    let mut o: Orchestrator<u32, u32> = Orchestrator::new();
    let (id, _) = o.add_task(config("t", 0));
    o.start(id).unwrap();
    let e = o.on_report(WorkerReport::BuildFailed {
        task_id: id,
        generation: Generation(0),
        reason: "no route".to_string(),
    });
    assert_eq!(
        e,
        vec![
            emit(id, ChangeKind::BuildFailed { reason: "no route".to_string() }, TaskStatus::Restarting),
            Effect::ScheduleRespawn { task_id: id, delay_ms: 1000 },
        ]
    );
    assert_eq!(o.get(id).unwrap().attempts, 1);
    let e = o.maybe_respawn(id);
    assert_eq!(e, vec![spawn(id, 1)]);
    assert!(o.maybe_respawn(id).is_empty());
    let e = o.on_report(WorkerReport::PollPanicked {
        task_id: id,
        generation: Generation(1),
        reason: "oops".to_string(),
    });
    assert_eq!(
        e,
        vec![
            emit(id, ChangeKind::Panicked { reason: "poll: oops".to_string() }, TaskStatus::Restarting),
            Effect::ScheduleRespawn { task_id: id, delay_ms: 2000 },
        ]
    );
    o.maybe_respawn(id);
    let e = o.on_report(WorkerReport::Built { task_id: id, generation: Generation(2) });
    assert_eq!(e, vec![emit(id, ChangeKind::Restarted, TaskStatus::Active)]);
    assert_eq!(o.get(id).unwrap().attempts, 0);
}

#[test]
fn orchestrator_pause_resume_stop() {
    let mut o: Orchestrator<u32, u32> = Orchestrator::new();
    let (id, _) = o.add_task(config("t", 0));
    o.start(id).unwrap();
    o.on_report(WorkerReport::Built { task_id: id, generation: Generation(0) });
    let e = o.pause(id).unwrap();
    assert_eq!(e, vec![Effect::SendToWorker { task_id: id, generation: Generation(0), cmd: WorkerCmd::Pause }]);
    let e = o.on_report(WorkerReport::Paused { task_id: id, generation: Generation(0) });
    assert_eq!(e, vec![emit(id, ChangeKind::Paused, TaskStatus::Paused)]);
    let e = o.resume(id).unwrap();
    assert_eq!(e, vec![Effect::SendToWorker { task_id: id, generation: Generation(0), cmd: WorkerCmd::Resume }]);
    let e = o.on_report(WorkerReport::Resumed { task_id: id, generation: Generation(0) });
    assert_eq!(e, vec![emit(id, ChangeKind::Resumed, TaskStatus::Active)]);
    let e = o.stop(id).unwrap();
    assert_eq!(
        e,
        vec![
            Effect::AbortWorker { task_id: id, generation: Generation(0) },
            emit(id, ChangeKind::Stopped, TaskStatus::Stopped),
        ]
    );
    assert!(o.stop(id).unwrap().is_empty());
    assert_eq!(o.start(id).unwrap()[0], spawn(id, 1));
}

#[test]
fn orchestrator_paused_update_rebuilds_on_resume() {
    let mut o: Orchestrator<u32, u32> = Orchestrator::new();
    let (id, _) = o.add_task(config("t", 0));
    o.start(id).unwrap();
    o.on_report(WorkerReport::Paused { task_id: id, generation: Generation(0) });
    let e = o.update(id, config("u", 0)).unwrap();
    assert_eq!(
        e,
        vec![
            emit(id, ChangeKind::SpecUpdated, TaskStatus::Paused),
            Effect::AbortWorker { task_id: id, generation: Generation(0) },
        ]
    );
    assert_eq!(o.resume(id).unwrap(), vec![spawn(id, 1)]);
    assert_eq!(o.get(id).unwrap().state, TaskState::Starting);
}

#[test]
fn orchestrator_unknown_task_errors() {
    let mut o: Orchestrator<u32, u32> = Orchestrator::new();
    let missing = TaskId(5);
    assert_eq!(o.start(missing), Err(OrchestratorError::TaskNotFound(missing)));
    assert_eq!(o.pause(missing), Err(OrchestratorError::TaskNotFound(missing)));
    assert_eq!(o.resume(missing), Err(OrchestratorError::TaskNotFound(missing)));
    assert_eq!(o.stop(missing), Err(OrchestratorError::TaskNotFound(missing)));
    assert_eq!(o.update(missing, config("x", 0)), Err(OrchestratorError::TaskNotFound(missing)));
    assert!(o.remove(missing).is_err());
}

#[test]
fn orchestrator_remove_then_absent_and_shutdown_aborts() {
    let mut o: Orchestrator<u32, u32> = Orchestrator::new();
    let (a, _) = o.add_task(config("a", 0));
    let (b, _) = o.add_task(config("b", 0));
    o.start(a).unwrap();
    o.start(b).unwrap();
    let (entry, e) = o.remove(a).ok().unwrap();
    assert_eq!(entry.task.id(), a);
    assert_eq!(
        e,
        vec![
            Effect::AbortWorker { task_id: a, generation: Generation(0) },
            Effect::EmitRemoved { task_id: a, status: TaskStatus::Starting },
        ]
    );
    assert!(o.get(a).is_none());
    assert!(o.on_report(WorkerReport::Built { task_id: a, generation: Generation(0) }).is_empty());
    let e = o.shutdown();
    assert_eq!(e, vec![Effect::AbortWorker { task_id: b, generation: Generation(0) }]);
    assert_eq!(o.len(), 0);
}

#[test]
fn orchestrator_no_response_counts_as_poll() {
    let mut o: Orchestrator<u32, u32> = Orchestrator::new();
    let (id, _) = o.add_task(config("t", 0));
    o.start(id).unwrap();
    o.on_report(WorkerReport::Built { task_id: id, generation: Generation(0) });
    let failed = Response::NoResponse { errors: vec![AttemptError { message: "timeout".to_string() }] };
    let e = o.on_report(WorkerReport::Polled { task_id: id, generation: Generation(0), response: failed });
    assert_eq!(e, vec![emit(id, ChangeKind::Polled, TaskStatus::Active)]);
    let t = &o.get(id).unwrap().task;
    assert_eq!(t.metrics().errors, 1);
    assert_eq!(t.health().consecutive_no_response, 1);
    assert!(o.has_generation_room(id));
    assert!(o.has_revision_room(id));
    let again = WorkerReport::Polled { task_id: id, generation: Generation(0), response: ok(1) };
    assert!(o.can_take(&again));
    assert!(o.can_add());
}

#[test]
fn orchestrator_status_and_prefix() {
    assert_eq!(status(TaskState::Restarting), TaskStatus::Restarting);
    assert_eq!(status(TaskState::Idle), TaskStatus::Idle);
    assert_eq!(prefixed("build: ", "x".to_string()), "build: x");
}

#[test]
fn orchestrator_remove_undoes_add() {
    let mut o: Orchestrator<u32, u32> = Orchestrator::new();
    let (a, _) = o.add_task(config("a", 0));
    let before = o.task_ids();
    let (b, _) = o.add_task(config("b", 0));
    let (_, e) = o.remove(b).ok().unwrap();
    assert_eq!(e, vec![Effect::EmitRemoved { task_id: b, status: TaskStatus::Idle }]);
    assert_eq!(o.task_ids(), before);
    assert_eq!(o.get(a).unwrap().state, TaskState::Idle);
}

#[test]
fn orchestrator_spawn_worker_hands_out_fresh_generations() {
    let mut o: Orchestrator<u32, u32> = Orchestrator::new();
    let (id, _) = o.add_task(config("t", 0));
    assert_eq!(o.spawn_worker(id), vec![spawn(id, 0)]);
    assert_eq!(o.spawn_worker(id), vec![spawn(id, 1)]);
    assert_eq!(o.get(id).unwrap().worker, Some(Generation(1)));
    assert_eq!(o.get(id).unwrap().next_generation, Generation(2));
    assert!(o.on_report(WorkerReport::Built { task_id: id, generation: Generation(0) }).is_empty());
    assert!(o.spawn_worker(TaskId(99)).is_empty());
}
