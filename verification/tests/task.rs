use tools_core::ids::{SpecRevision, TaskId, TaskStatus};
use tools_core::polling::{AttemptConfig, Metrics, PollConfig, Response};
use tools_core::spec::TaskConfig;
use tools_core::task::Task;
use tools_core::view::task_view;

fn config(depth: u8) -> TaskConfig<u32> {
    let poll = PollConfig {
        interval_ms: 1500,
        limit: 10,
        attempt: AttemptConfig { timeout_ms: 5, retries: 0, retry_delay_ms: 0 },
    };
    TaskConfig::try_new("poller".to_string(), 1u32, poll, depth).unwrap()
}

fn ok(v: u32) -> Response<u32> {
    Response::Success { output: v, elapsed_ms: v as u64 }
}

#[test]
fn task_poll_moves_previous_result_into_history() {
    let mut t: Task<u32, u32> = Task::new(TaskId(3), config(2));
    assert!(t.last_result().is_none());
    assert!(t.created_at() > 0);
    for v in 1..=4 {
        let m = t.metrics().with_success(v as u64);
        t.apply_poll(ok(v), m);
    }
    assert_eq!(t.metrics().successful, 4);
    assert_eq!(t.history().len(), 2);
    assert!(matches!(t.history().get(0).result, Response::Success { output: 3, .. }));
    assert!(matches!(t.history().get(1).result, Response::Success { output: 2, .. }));
    assert!(matches!(t.last_result(), Some(Response::Success { output: 4, .. })));
    assert!(t.updated_at() >= t.created_at());
}

#[test]
fn task_update_and_reset() {
    let mut t: Task<u32, u32> = Task::new(TaskId(1), config(1));
    t.apply_poll(Response::NoResponse { errors: vec![] }, Metrics::default().with_error());
    assert_eq!(t.health().consecutive_no_response, 1);
    t.update_spec(config(1));
    assert_eq!(t.spec().revision(), SpecRevision(2));
    assert_eq!(t.health().consecutive_no_response, 1);
    t.reset_run();
    assert_eq!(t.metrics(), Metrics::initial());
    assert_eq!(t.health().consecutive_no_response, 0);
    assert!(t.last_result().is_some());
    assert_eq!(t.id(), TaskId(1));
}

#[test]
fn task_view_copies_the_task() {
    let mut t: Task<u32, u32> = Task::new(TaskId(9), config(3));
    t.apply_poll(ok(5), Metrics::default().with_success(5));
    t.apply_poll(ok(6), Metrics::default().with_success(5).with_success(6));
    let v = task_view(&t, TaskStatus::Active, "h:1".to_string());
    assert_eq!(v.id, TaskId(9));
    assert_eq!(v.name, "poller");
    assert_eq!(v.revision, SpecRevision(1));
    assert_eq!(v.target, "h:1");
    assert_eq!(v.status, TaskStatus::Active);
    assert_eq!(v.interval_ms, 1500);
    assert_eq!(v.limit, 10);
    assert_eq!(v.metrics.successful, 2);
    assert!(matches!(v.result, Some(Response::Success { output: 6, .. })));
    assert_eq!(v.history.len(), 1);
    assert!(matches!(v.history[0].result, Some(Response::Success { output: 5, .. })));
}
