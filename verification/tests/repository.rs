use std::collections::HashMap;
use tools_core::entity::{
    default_task_history, PollStatus, Protocol, TaskEntity, TaskMeta, TaskSnapshot, TaskUpdateDto, TypeQuery,
};
use tools_core::history::History;
use tools_core::ids::TaskId;
use tools_core::polling::{Metrics, PollConfig, PollResult, Response, WorkerEvent, WorkerId, WorkerState};
use tools_core::repository::{RepositoryError, TaskIdGenerator, TaskRepository, TasksRepoManager, WorkerBridge};

fn meta(name: &str) -> TaskMeta {
    TaskMeta {
        protocol: Protocol::Snmp,
        type_query: TypeQuery::SnmpGet,
        name: name.to_string(),
        target: "10.0.0.1:161".to_string(),
        subject: String::new(),
    }
}

fn entity(id: u64) -> TaskEntity<u32> {
    TaskEntity::new(TaskId(id), meta("e"), TaskSnapshot::new(), PollConfig::zero(), default_task_history())
}

#[test]
fn repository_new_sorts_ids_and_continues_after_largest() {
    let mut repo = TaskRepository::new(vec![entity(7), entity(2), entity(5)]);
    assert_eq!(repo.sorted_task_ids(), vec![TaskId(2), TaskId(5), TaskId(7)]);
    let ids: Vec<TaskId> = repo.tasks().iter().map(|t| *t.id()).collect();
    assert_eq!(ids, vec![TaskId(2), TaskId(5), TaskId(7)]);
    // the generator starts one past the largest id and hands out the next value
    let id = repo.add_task(meta("n"), None, None, None);
    assert_eq!(id, TaskId(9));
}

#[test]
fn repository_duplicate_ids_keep_the_later_task() {
    let first = TaskEntity::new(TaskId(3), meta("first"), TaskSnapshot::<u32>::new(), PollConfig::zero(), default_task_history());
    let second = TaskEntity::new(TaskId(3), meta("second"), TaskSnapshot::new(), PollConfig::zero(), default_task_history());
    let repo = TaskRepository::new(vec![first, second]);
    assert_eq!(repo.sorted_task_ids(), vec![TaskId(3)]);
    assert_eq!(repo.get_task(&TaskId(3)).unwrap().meta().name, "second");
}

#[test]
fn repository_empty_id_sequences() {
    let mut repo: TaskRepository<u32> = TaskRepository::new(vec![]);
    assert_eq!(repo.add_task(meta("a"), None, None, None), TaskId(2));
    let mut empty: TaskRepository<u32> = TaskRepository::new_empty();
    assert_eq!(empty.add_task(meta("a"), None, None, None), TaskId(1));
    assert_eq!(empty.add_task(meta("b"), None, None, None), TaskId(2));
    assert!(empty.created_at() > 0);
}

#[test]
fn repository_add_get_update_remove() {
    let mut repo: TaskRepository<u32> = TaskRepository::new_empty();
    let a = repo.add_task(meta("a"), Some(PollConfig { interval_ms: 5, ..PollConfig::zero() }), None, None);
    let b = repo.add_task(meta("b"), None, None, Some(History::new(1)));
    let t = repo.get_task(&a).unwrap();
    assert_eq!(t.poll_config().interval_ms, 5);
    assert_eq!(*t.status(), PollStatus::Idle);
    assert!(matches!(t.poll_result(), PollResult::Initial));
    assert_eq!(t.history().deep(), 3);
    assert_eq!(repo.get_task(&b).unwrap().history().deep(), 1);

    let snap = TaskSnapshot::new()
        .with_poll_result(PollResult::Polled(Response::Success { output: 9, elapsed_ms: 2 }))
        .with_poll_status(PollStatus::Active)
        .with_metrics(Metrics::default().with_success(2));
    repo.update_task(&a, TaskUpdateDto { snapshot: Some(snap), poll_config: None }).unwrap();
    let t = repo.get_task(&a).unwrap();
    assert_eq!(*t.status(), PollStatus::Active);
    assert_eq!(t.metrics().successful, 1);
    assert_eq!(t.history().len(), 1);
    assert_eq!(
        repo.update_task(&TaskId(99), TaskUpdateDto { snapshot: None, poll_config: None }),
        Err(RepositoryError::TaskNotFound { task_id: TaskId(99) })
    );

    let removed = repo.remove_task(&a).ok().unwrap();
    assert_eq!(*removed.id(), a);
    assert!(repo.get_task(&a).is_none());
    assert_eq!(repo.sorted_task_ids(), vec![b]);
    assert!(matches!(repo.remove_task(&a), Err(RepositoryError::TaskNotFound { .. })));
    assert_eq!(repo.tasks_sorted_by_id().len(), 1);
}

#[test]
fn entity_update_reports_change_and_keeps_history() {
    let mut e = entity(1);
    assert!(!e.update(TaskUpdateDto { snapshot: None, poll_config: None }));
    assert!(e.history().is_empty());
    assert!(e.update(TaskUpdateDto { snapshot: None, poll_config: Some(PollConfig { limit: 4, ..PollConfig::zero() }) }));
    assert_eq!(e.poll_config().limit, 4);
    assert!(e.history().is_empty());
    for _ in 0..5 {
        assert!(e.update(TaskUpdateDto { snapshot: Some(TaskSnapshot::new()), poll_config: None }));
    }
    assert_eq!(e.history().len(), 3);
    e.update_meta(meta("renamed"));
    assert_eq!(e.meta().name, "renamed");
    assert!(e.updated_at() >= e.created_at());
}

#[test]
fn entity_poll_status_from_worker_state() {
    assert_eq!(PollStatus::from(WorkerState::Idle), PollStatus::Idle);
    assert_eq!(PollStatus::from(WorkerState::Running), PollStatus::Active);
    assert_eq!(PollStatus::from(WorkerState::Stopped), PollStatus::Paused);
    assert_eq!(PollStatus::from(WorkerState::RatedLimit), PollStatus::RatedLimit);
    let d: TaskSnapshot<u32> = TaskSnapshot::default();
    assert_eq!(*d.poll_status(), PollStatus::Idle);
    assert_eq!(*d.metrics(), Metrics::initial());
}

#[test]
fn id_generator_counts_up() {
    let mut g = TaskIdGenerator::new(10);
    assert_eq!(g.next(), TaskId(11));
    assert_eq!(g.next(), TaskId(12));
    assert_eq!(g.current, 12);
}

#[test]
fn repo_manager_applies_worker_events() {
    let mut repo: TaskRepository<u32> = TaskRepository::new_empty();
    let a = repo.add_task(meta("a"), None, None, None);
    let mut mapping = HashMap::new();
    mapping.insert(100u64, a);
    mapping.insert(200u64, TaskId(77));
    let bridge = WorkerBridge::new(mapping.clone());
    assert_eq!(bridge.task_of(100), Some(a));
    assert_eq!(bridge.task_of(300), None);
    let mut mgr = TasksRepoManager::new(repo, mapping);
    let event = |w: u64| WorkerEvent {
        id: WorkerId(w),
        poll_result: PollResult::Polled(Response::Success { output: 1u32, elapsed_ms: 1 }),
        state: WorkerState::Running,
        metrics: Metrics::default().with_success(1),
        poll_config: PollConfig { interval_ms: 250, ..PollConfig::zero() },
    };
    assert_eq!(mgr.handle_worker_event(event(100)), Some(a));
    let t = mgr.repository().get_task(&a).unwrap();
    assert_eq!(*t.status(), PollStatus::Active);
    assert_eq!(t.poll_config().interval_ms, 250);
    assert_eq!(t.metrics().total_attempts, 1);
    assert_eq!(mgr.handle_worker_event(event(200)), None);
    assert_eq!(mgr.handle_worker_event(event(300)), None);
}

#[test]
fn repository_remove_undoes_add() {
    let mut repo = TaskRepository::new(vec![entity(1), entity(4)]);
    let before = repo.sorted_task_ids();
    let id = repo.add_task(meta("x"), None, None, None);
    assert_eq!(repo.sorted_task_ids().len(), 3);
    repo.remove_task(&id).ok().unwrap();
    assert_eq!(repo.sorted_task_ids(), before);
    assert!(repo.get_task(&id).is_none());
    assert_eq!(repo.get_task(&TaskId(4)).unwrap().meta().name, "e");
}
