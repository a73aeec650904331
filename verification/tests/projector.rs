use tools_core::event::{ChangeKind, TaskFact};
use tools_core::ids::{SpecRevision, TaskId, TaskStatus};
use tools_core::polling::{copy_response, AttemptError, Metrics, Response};
use tools_core::runtime::projector::{Projector, Published};
use tools_core::view::{HistoryEntryView, TaskView};

fn view(id: u64, status: TaskStatus) -> TaskView<String> {
    TaskView {
        id: TaskId(id),
        name: format!("t-{id}"),
        revision: SpecRevision(1),
        target: String::new(),
        status,
        interval_ms: 1000,
        limit: 0,
        metrics: Metrics::default(),
        result: None,
        history: vec![],
    }
}

#[test]
fn changed_orders_by_id() {
    let mut p: Projector<String> = Projector::new();
    p.apply(TaskFact::Changed {
        task_id: TaskId(2),
        kind: ChangeKind::Added,
        view: view(2, TaskStatus::Idle),
    });
    p.apply(TaskFact::Changed {
        task_id: TaskId(1),
        kind: ChangeKind::Added,
        view: view(1, TaskStatus::Idle),
    });
    let snap = p.snapshot();
    assert_eq!(snap.tasks.len(), 2);
    assert_eq!(snap.tasks[0].id, TaskId(1));
    assert_eq!(snap.tasks[1].id, TaskId(2));
}

#[test]
fn removed_drops_view() {
    let mut p: Projector<String> = Projector::new();
    p.apply(TaskFact::Changed {
        task_id: TaskId(1),
        kind: ChangeKind::Added,
        view: view(1, TaskStatus::Idle),
    });
    p.apply(TaskFact::Removed { task_id: TaskId(1) });
    assert!(p.snapshot().tasks.is_empty());
}

#[test]
fn crashed_marks_failed() {
    let mut p: Projector<String> = Projector::new();
    p.apply(TaskFact::Changed {
        task_id: TaskId(1),
        kind: ChangeKind::Started,
        view: view(1, TaskStatus::Active),
    });
    p.apply(TaskFact::Crashed {
        task_id: TaskId(1),
        reason: "boom".into(),
    });
    assert_eq!(p.snapshot().tasks[0].status, TaskStatus::Failed);
}

#[test]
fn projector_change_replaces_view_and_publishes_kind() {
    let mut p: Projector<String> = Projector::new();
    p.apply(TaskFact::Changed { task_id: TaskId(7), kind: ChangeKind::Added, view: view(7, TaskStatus::Idle) });
    let r = p.apply(TaskFact::Changed { task_id: TaskId(7), kind: ChangeKind::Started, view: view(7, TaskStatus::Active) });
    match r {
        Some(Published::Changed { task_id, kind }) => {
            assert_eq!(task_id, TaskId(7));
            assert_eq!(kind, ChangeKind::Started);
        }
        _ => panic!("expected a change"),
    }
    assert_eq!(p.len(), 1);
    assert_eq!(p.view_of(TaskId(7)).unwrap().status, TaskStatus::Active);
}

#[test]
fn projector_unknown_removal_and_crash_publish_nothing() {
    let mut p: Projector<String> = Projector::new();
    assert!(p.apply(TaskFact::Removed { task_id: TaskId(3) }).is_none());
    assert!(p.apply(TaskFact::Crashed { task_id: TaskId(3), reason: "x".into() }).is_none());
    assert_eq!(p.len(), 0);
}

#[test]
fn projector_removal_returns_last_view() {
    let mut p: Projector<String> = Projector::new();
    p.apply(TaskFact::Changed { task_id: TaskId(4), kind: ChangeKind::Added, view: view(4, TaskStatus::Paused) });
    match p.apply(TaskFact::Removed { task_id: TaskId(4) }) {
        Some(Published::Removed { task_id, view }) => {
            assert_eq!(task_id, TaskId(4));
            assert_eq!(view.status, TaskStatus::Paused);
            assert_eq!(view.name, "t-4");
        }
        _ => panic!("expected a removal"),
    }
    assert!(p.view_of(TaskId(4)).is_none());
    assert_eq!(p.task_ids(), Vec::<TaskId>::new());
}

#[test]
fn projector_task_ids_increasing() {
    let mut p: Projector<String> = Projector::new();
    for id in [5u64, 1, 3] {
        p.apply(TaskFact::Changed { task_id: TaskId(id), kind: ChangeKind::Added, view: view(id, TaskStatus::Idle) });
    }
    assert_eq!(p.task_ids(), vec![TaskId(1), TaskId(3), TaskId(5)]);
}

#[test]
fn projector_snapshot_orders_by_view_id() {
    let mut p: Projector<String> = Projector::new();
    p.apply(TaskFact::Changed { task_id: TaskId(1), kind: ChangeKind::Added, view: view(9, TaskStatus::Idle) });
    p.apply(TaskFact::Changed { task_id: TaskId(2), kind: ChangeKind::Added, view: view(3, TaskStatus::Idle) });
    p.apply(TaskFact::Changed { task_id: TaskId(4), kind: ChangeKind::Added, view: view(6, TaskStatus::Idle) });
    let ids: Vec<TaskId> = p.snapshot().tasks.iter().map(|v| v.id).collect();
    assert_eq!(ids, vec![TaskId(3), TaskId(6), TaskId(9)]);
    assert_eq!(p.task_ids(), vec![TaskId(2), TaskId(4), TaskId(1)]);
    p.apply(TaskFact::Changed { task_id: TaskId(2), kind: ChangeKind::SpecUpdated, view: view(10, TaskStatus::Idle) });
    let ids: Vec<TaskId> = p.snapshot().tasks.iter().map(|v| v.id).collect();
    assert_eq!(ids, vec![TaskId(6), TaskId(9), TaskId(10)]);
}

#[test]
fn projector_snapshot_copies_results_and_history() {
    let mut p: Projector<String> = Projector::new();
    let mut v = view(5, TaskStatus::Active);
    v.result = Some(Response::Success { output: "up".to_string(), elapsed_ms: 7 });
    v.history = vec![
        HistoryEntryView { timestamp: 11, result: Some(Response::NoResponse { errors: vec![AttemptError { message: "timeout".to_string() }] }) },
        HistoryEntryView { timestamp: 12, result: None },
    ];
    p.apply(TaskFact::Changed { task_id: TaskId(5), kind: ChangeKind::Polled, view: v });
    let snap = p.snapshot();
    let t = &snap.tasks[0];
    assert!(matches!(&t.result, Some(Response::Success { output, elapsed_ms: 7 }) if output == "up"));
    assert_eq!(t.history.len(), 2);
    assert_eq!(t.history[0].timestamp, 11);
    match &t.history[0].result {
        Some(Response::NoResponse { errors }) => {
            assert_eq!(errors.len(), 1);
            assert_eq!(errors[0].message, "timeout");
        }
        _ => panic!("expected the failed attempts"),
    }
    assert_eq!(t.history[1].timestamp, 12);
    assert!(t.history[1].result.is_none());
}

#[test]
fn copy_response_keeps_output_and_errors() {
    let r: Response<u32> = Response::Success { output: 42, elapsed_ms: 3 };
    assert!(matches!(copy_response(&r), Response::Success { output: 42, elapsed_ms: 3 }));
    let r: Response<u32> = Response::NoResponse { errors: vec![AttemptError { message: "a".to_string() }, AttemptError { message: "b".to_string() }] };
    match copy_response(&r) {
        Response::NoResponse { errors } => {
            let m: Vec<&str> = errors.iter().map(|e| e.message.as_str()).collect();
            assert_eq!(m, vec!["a", "b"]);
        }
        _ => panic!("expected the failed attempts"),
    }
}
