use vstd::prelude::*;
use crate::ids::TaskId;
use crate::view::TaskView;

verus! {

/// Why a task changed; a sink filters events by it.
#[derive(Clone, Debug, PartialEq, Eq)]
pub enum ChangeKind {
    Added,
    SpecUpdated,
    Starting,
    Started,
    Restarted,
    Paused,
    Resumed,
    Stopped,
    Completed,
    Failed { reason: String },
    BuildFailed { reason: String },
    Panicked { reason: String },
    Polled,
}

/// Domain event sent outside, stamped with the time (nanoseconds since the epoch).
#[derive(Clone, Debug)]
pub enum MonitorEvent<O> {
    TaskChanged { task_id: TaskId, kind: ChangeKind, view: TaskView<O>, at: i128 },
    TaskRemoved { task_id: TaskId, view: TaskView<O>, at: i128 },
}

/// A fact reported by a task actor (or by the supervisor) to the projector.
#[derive(Debug)]
pub enum TaskFact<O> {
    Changed { task_id: TaskId, kind: ChangeKind, view: TaskView<O> },
    Removed { task_id: TaskId },
    Crashed { task_id: TaskId, reason: String },
}

} // verus!
