use tools_core::event::ChangeKind;
use tools_core::ids::{SpecRevision, TaskId, TaskStatus};
use tools_core::orchestrator::orchestrator::{BuildEffect, Orchestrator, OrchestratorError, WorkerFinished};
use tools_core::orchestrator::supervisor::{PoolEffect, Supervisor};
use tools_core::polling::{AttemptConfig, Metrics, PollConfig, Response};
use tools_core::spec::TaskConfig;

const NOW: i64 = 1_000_000;

fn config(limit: u64) -> TaskConfig<u32> {
    let poll = PollConfig {
        interval_ms: 10,
        limit,
        attempt: AttemptConfig { timeout_ms: 5, retries: 0, retry_delay_ms: 0 },
    };
    TaskConfig::try_new("t".to_string(), 1u32, poll, 2).unwrap()
}

fn launch(id: TaskId) -> BuildEffect {
    BuildEffect::Worker(PoolEffect::Launch { task_id: id })
}

fn abort(id: TaskId) -> BuildEffect {
    BuildEffect::Worker(PoolEffect::Abort { task_id: id })
}

#[test]
fn pool_spawn_stop_and_restart_bookkeeping() {
    let mut p = Supervisor::new();
    let a = TaskId(1);
    assert_eq!(p.spawn(a), vec![PoolEffect::Launch { task_id: a }]);
    assert!(p.is_running(&a));
    assert_eq!(p.spawn(a), vec![PoolEffect::Abort { task_id: a }, PoolEffect::Launch { task_id: a }]);
    assert_eq!(p.schedule_restart(&a, NOW), Some((1, 1000)));
    assert!(!p.is_running(&a));
    assert_eq!(p.schedule_restart(&a, NOW), Some((2, 2000)));
    assert_eq!(p.schedule_restart(&TaskId(9), NOW), None);
    assert!(p.stop(&a).is_empty());
    assert!(p.attempts_below_max(&a));
    p.reset_restart(&a);
    assert!(p.due_restarts(i64::MAX).is_empty());
}

#[test]
fn pool_due_restarts_and_stop_all() {
    let mut p = Supervisor::new();
    let (a, b, c) = (TaskId(1), TaskId(2), TaskId(3));
    p.spawn(a);
    p.spawn(b);
    p.spawn(c);
    p.schedule_restart(&b, NOW);
    assert_eq!(p.due_restarts(i64::MAX), vec![b]);
    assert!(p.due_restarts(i64::MIN).is_empty());
    p.mark_building(&b);
    assert!(p.due_restarts(i64::MAX).is_empty());
    p.retry_later(&b, NOW);
    assert_eq!(p.due_restarts(i64::MAX), vec![b]);
    p.mark_stopped(&c);
    let mut aborted = p.stop_all();
    aborted.sort_by_key(|e| match e {
        PoolEffect::Abort { task_id } => task_id.0,
        PoolEffect::Launch { task_id } => task_id.0,
    });
    assert_eq!(aborted, vec![PoolEffect::Abort { task_id: a }]);
    assert!(!p.is_running(&a));
    assert!(p.due_restarts(i64::MAX).is_empty());
    p.remove(&a);
    assert!(p.stop(&a).is_empty());
}

#[test]
fn build_pipeline_start_build_poll_complete() {
    let mut o: Orchestrator<u32, u32> = Orchestrator::new();
    let (id, e) = o.add_task(config(0));
    assert_eq!(id, TaskId(0));
    assert_eq!(e, vec![BuildEffect::Emit { task_id: id, kind: ChangeKind::Added }]);
    let e = o.start(id).unwrap();
    assert_eq!(
        e,
        vec![
            BuildEffect::Build { task_id: id, revision: SpecRevision(1) },
            BuildEffect::Emit { task_id: id, kind: ChangeKind::Starting },
        ]
    );
    assert!(o.start(id).unwrap().is_empty());
    let e = o.on_built(id, SpecRevision(1), Ok(()), NOW);
    assert_eq!(e, vec![launch(id), BuildEffect::Emit { task_id: id, kind: ChangeKind::Started }]);
    assert_eq!(o.get(id).unwrap().status, TaskStatus::Active);
    assert!(o.start(id).unwrap().is_empty());
    let m = Metrics::default().with_success(3);
    let e = o.on_facts(id, Response::Success { output: 8, elapsed_ms: 3 }, m);
    assert_eq!(e, vec![BuildEffect::Emit { task_id: id, kind: ChangeKind::Polled }]);
    assert_eq!(o.get(id).unwrap().task.metrics(), m);
    let e = o.on_exit(id, WorkerFinished::Completed, NOW);
    assert_eq!(e, vec![BuildEffect::Emit { task_id: id, kind: ChangeKind::Completed }]);
    assert_eq!(o.get(id).unwrap().status, TaskStatus::RatedLimit);
}

#[test]
fn build_pipeline_failure_then_tick_rebuilds() {
    let mut o: Orchestrator<u32, u32> = Orchestrator::new();
    let (id, _) = o.add_task(config(0));
    o.start(id).unwrap();
    o.on_built(id, SpecRevision(1), Ok(()), NOW);
    let e = o.on_exit(id, WorkerFinished::Failed("lost".to_string()), NOW);
    assert_eq!(e, vec![BuildEffect::Emit { task_id: id, kind: ChangeKind::Failed { reason: "lost".to_string() } }]);
    assert_eq!(o.get(id).unwrap().status, TaskStatus::Restarting);
    assert!(o.on_tick(i64::MIN).is_empty());
    let e = o.on_tick(i64::MAX);
    assert_eq!(e, vec![BuildEffect::Build { task_id: id, revision: SpecRevision(1) }]);
    assert!(o.on_tick(i64::MAX).is_empty());
    let e = o.on_built(id, SpecRevision(1), Err("again".to_string()), NOW);
    assert_eq!(e, vec![BuildEffect::Emit { task_id: id, kind: ChangeKind::BuildFailed { reason: "again".to_string() } }]);
    let e = o.on_tick(i64::MAX);
    assert_eq!(e, vec![BuildEffect::Build { task_id: id, revision: SpecRevision(1) }]);
    let e = o.on_built(id, SpecRevision(1), Ok(()), NOW);
    assert_eq!(e, vec![launch(id), BuildEffect::Emit { task_id: id, kind: ChangeKind::Restarted }]);
}

#[test]
fn build_pipeline_stale_build_is_redone() {
    let mut o: Orchestrator<u32, u32> = Orchestrator::new();
    let (id, _) = o.add_task(config(0));
    o.start(id).unwrap();
    let e = o.update(id, config(3)).unwrap();
    assert_eq!(e, vec![BuildEffect::Emit { task_id: id, kind: ChangeKind::SpecUpdated }]);
    let e = o.on_built(id, SpecRevision(1), Ok(()), NOW);
    assert_eq!(e, vec![BuildEffect::Build { task_id: id, revision: SpecRevision(2) }]);
    let e = o.on_built(id, SpecRevision(2), Ok(()), NOW);
    assert_eq!(e, vec![launch(id), BuildEffect::Emit { task_id: id, kind: ChangeKind::Started }]);
    let e = o.update(id, config(4)).unwrap();
    assert_eq!(
        e,
        vec![
            abort(id),
            BuildEffect::Build { task_id: id, revision: SpecRevision(3) },
            BuildEffect::Emit { task_id: id, kind: ChangeKind::SpecUpdated },
        ]
    );
    assert_eq!(o.get(id).unwrap().status, TaskStatus::Restarting);
}

#[test]
fn build_pipeline_stop_remove_shutdown() {
    let mut o: Orchestrator<u32, u32> = Orchestrator::new();
    let (a, _) = o.add_task(config(0));
    let (b, _) = o.add_task(config(0));
    o.start(a).unwrap();
    o.on_built(a, SpecRevision(1), Ok(()), NOW);
    let e = o.stop(a).unwrap();
    assert_eq!(e, vec![abort(a), BuildEffect::Emit { task_id: a, kind: ChangeKind::Stopped }]);
    let e = o.stop(b).unwrap();
    assert_eq!(e, vec![BuildEffect::Emit { task_id: b, kind: ChangeKind::Stopped }]);
    assert_eq!(o.stop(TaskId(7)), Err(OrchestratorError::TaskNotFound(TaskId(7))));
    o.start(b).unwrap();
    o.on_built(b, SpecRevision(1), Ok(()), NOW);
    let (r, e) = o.remove(b);
    assert!(r.is_ok());
    assert_eq!(e, vec![abort(b), BuildEffect::EmitRemoved { task_id: b }]);
    assert!(o.get(b).is_none());
    assert!(o.on_built(b, SpecRevision(1), Ok(()), NOW).is_empty());
    let (r, e) = o.remove(b);
    assert!(matches!(r, Err(OrchestratorError::TaskNotFound(_))));
    assert!(e.is_empty());
    assert_eq!(o.task_ids(), vec![a]);
    o.start(a).unwrap();
    o.on_built(a, SpecRevision(1), Ok(()), NOW);
    assert_eq!(o.shutdown(), vec![abort(a)]);
    assert!(o.has_revision_room(a));
    assert!(o.has_poll_room(a));
    assert!(o.has_restart_room(a));
    assert!(o.can_add());
}

#[test]
fn pool_restart_is_due_after_the_backoff() {
    let mut p = Supervisor::new();
    let a = TaskId(1);
    p.spawn(a);
    assert_eq!(p.schedule_restart(&a, NOW), Some((1, 1000)));
    assert!(p.due_restarts(NOW + 999).is_empty());
    assert_eq!(p.due_restarts(NOW + 1000), vec![a]);
    p.retry_later(&a, NOW);
    assert!(p.due_restarts(NOW + 1999).is_empty());
    assert_eq!(p.due_restarts(NOW + 2000), vec![a]);
    p.retry_later(&a, i64::MAX);
    assert_eq!(p.due_restarts(i64::MAX), vec![a]);
}

#[test]
fn build_pipeline_failed_build_retries_after_backoff() {
    let mut o: Orchestrator<u32, u32> = Orchestrator::new();
    let (id, _) = o.add_task(config(0));
    o.start(id).unwrap();
    o.on_built(id, SpecRevision(1), Ok(()), NOW);
    o.on_exit(id, WorkerFinished::Failed("lost".to_string()), NOW);
    assert!(o.on_tick(NOW + 999).is_empty());
    assert_eq!(o.on_tick(NOW + 1000), vec![BuildEffect::Build { task_id: id, revision: SpecRevision(1) }]);
    o.on_built(id, SpecRevision(1), Err("down".to_string()), NOW + 1000);
    assert!(o.on_tick(NOW + 2999).is_empty());
    assert_eq!(o.on_tick(NOW + 3000), vec![BuildEffect::Build { task_id: id, revision: SpecRevision(1) }]);
}
