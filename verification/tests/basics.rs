use tools_core::health::Health;
use tools_core::history::History;
use tools_core::polling::{AttemptError, Metrics, PollConfig, Response};
use tools_core::restart_policy::RestartPolicy;

#[test]
fn restart_delay_doubles_up_to_the_ceiling() {
    let p = RestartPolicy::default_policy();
    assert_eq!(p.backoff_base_ms, 1000);
    assert_eq!(p.backoff_max_ms, 60000);
    let got: Vec<u64> = (0..10).map(|a| p.delay(a)).collect();
    assert_eq!(got, vec![1000, 1000, 2000, 4000, 8000, 16000, 32000, 60000, 60000, 60000]);
}

#[test]
fn restart_delay_stops_growing_after_six_doublings() {
    let p = RestartPolicy { backoff_base_ms: 10, backoff_max_ms: u64::MAX };
    assert_eq!(p.delay(7), 640);
    assert_eq!(p.delay(8), 640);
    assert_eq!(p.delay(u32::MAX), 640);
}

#[test]
fn restart_delay_saturates_and_caps() {
    let p = RestartPolicy { backoff_base_ms: u64::MAX / 2, backoff_max_ms: u64::MAX };
    assert_eq!(p.delay(3), u64::MAX);
    let q = RestartPolicy { backoff_base_ms: 5000, backoff_max_ms: 3000 };
    assert_eq!(q.delay(1), 3000);
    let d = RestartPolicy::default();
    assert_eq!(d.delay(2), 2000);
}

#[test]
fn history_keeps_newest_first_and_bounded() {
    let mut h: History<u32> = History::new(3);
    assert!(h.is_empty());
    assert_eq!(h.deep(), 3);
    for v in 1..=5 {
        h.push(v);
    }
    assert_eq!(h.len(), 3);
    assert_eq!(*h.get(0), 5);
    assert_eq!(*h.get(1), 4);
    assert_eq!(*h.get(2), 3);
}

#[test]
fn history_of_depth_zero_stays_empty() {
    let mut h: History<u32> = History::new(0);
    h.push(1);
    h.push(2);
    assert!(h.is_empty());
    assert_eq!(h.len(), 0);
}

#[test]
fn history_partially_filled() {
    let mut h: History<&str> = History::new(4);
    h.push("a");
    h.push("b");
    assert_eq!(h.len(), 2);
    assert_eq!(*h.get(0), "b");
    assert_eq!(*h.get(1), "a");
}

fn failed(msgs: &[&str]) -> Response<u32> {
    Response::NoResponse {
        errors: msgs.iter().map(|m| AttemptError { message: m.to_string() }).collect(),
    }
}

#[test]
fn health_counts_consecutive_failures() {
    let mut h = Health::new();
    assert!(h.last_poll_at.is_none());
    h.record(&failed(&["timeout", "refused"]));
    assert_eq!(h.consecutive_no_response, 1);
    assert_eq!(h.last_error.as_deref(), Some("refused"));
    assert!(h.last_poll_at.is_some());
    h.record(&failed(&[]));
    assert_eq!(h.consecutive_no_response, 2);
    assert!(h.last_error.is_none());
    h.record(&Response::Success { output: 1u32, elapsed_ms: 3 });
    assert_eq!(h.consecutive_no_response, 0);
    assert!(h.last_error.is_none());
}

#[test]
fn health_default_is_initial() {
    let h = Health::default();
    assert_eq!(h.consecutive_no_response, 0);
    assert!(h.last_error.is_none());
    assert!(h.last_poll_at.is_none());
}

#[test]
fn metrics_running_statistics() {
    let m = Metrics::default();
    assert_eq!(m.min_latency_ms, u64::MAX);
    let m = m.with_success(10).with_success(20).with_error().with_success(60);
    assert_eq!(m.total_attempts, 4);
    assert_eq!(m.successful, 3);
    assert_eq!(m.errors, 1);
    assert_eq!(m.current_latency_ms, 60);
    assert_eq!(m.avg_latency_ms, 30);
    assert_eq!(m.min_latency_ms, 10);
    assert_eq!(m.max_latency_ms, 60);
}

#[test]
fn metrics_counters_saturate() {
    let m = Metrics { total_attempts: u64::MAX, errors: u64::MAX, ..Metrics::initial() };
    let e = m.with_error();
    assert_eq!(e.total_attempts, u64::MAX);
    assert_eq!(e.errors, u64::MAX);
}

#[test]
fn poll_config_default_is_zero() {
    let p = PollConfig::default();
    assert_eq!(p, PollConfig::zero());
    assert_eq!(p.interval(), 0);
    assert_eq!(p.limit(), 0);
    assert_eq!(p.attempt().retries, 0);
}
