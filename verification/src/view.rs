use vstd::prelude::*;
use crate::ids::{SpecRevision, TaskId, TaskStatus};
use crate::polling::{copy_response, response_copied, Metrics, Response};

verus! {

/// Immutable read-model of one task.
#[derive(Clone, Debug)]
pub struct TaskView<O> {
    pub id: TaskId,
    pub name: String,
    pub revision: SpecRevision,
    pub target: String,
    pub status: TaskStatus,
    pub interval_ms: u128,
    pub limit: u64,
    pub metrics: Metrics,
    pub result: Option<Response<O>>,
    pub history: Vec<HistoryEntryView<O>>,
}

#[derive(Clone, Debug)]
pub struct HistoryEntryView<O> {
    pub timestamp: i128,
    pub result: Option<Response<O>>,
}

/// `c` is a copy of the optional response `r` (see `response_copied`).
pub open spec fn option_copied<O: Clone>(c: Option<Response<O>>, r: Option<Response<O>>) -> bool {
    match r {
        Some(x) => c matches Some(y) && response_copied(y, x),
        None => c is None,
    }
}

/// A copy of an optional response.
pub fn copy_option<O: Clone>(r: &Option<Response<O>>) -> (c: Option<Response<O>>)
    ensures
        option_copied(c, *r),
{
    match r {
        Some(x) => Some(copy_response(x)),
        None => None,
    }
}

/// Read-model of all tasks.
#[derive(Clone, Debug)]
pub struct MonitorSnapshot<O> {
    pub tasks: Vec<TaskView<O>>,
}

} // verus!

verus! {

/// Read-model of a task with the given status and target text; the results
/// are copies (see `response_copied`).
pub fn task_view<Q, O: Clone>(task: &crate::task::Task<Q, O>, status: TaskStatus, target: String) -> (v: TaskView<O>)
    ensures
        v.id == task.id_view(),
        v.name@ == task.spec_view().config_view().name_view(),
        v.revision == task.spec_view().revision_view(),
        v.target == target,
        v.status == status,
        v.interval_ms == task.spec_view().config_view().poll_config_view().interval_ms,
        v.limit == task.spec_view().config_view().poll_config_view().limit,
        v.metrics == task.metrics_view(),
        option_copied(v.result, task.last_result_view()),
        v.history@.len() == task.history_view().len(),
        forall|i: int| 0 <= i < v.history@.len() ==> (#[trigger] v.history@[i]).timestamp == task.history_view()[i].timestamp
            && option_copied(v.history@[i].result, Some(task.history_view()[i].result)),
{
    let spec = task.spec();
    let h = task.history();
    let mut history: Vec<HistoryEntryView<O>> = Vec::new();
    let n = h.len();
    for i in 0..n
        invariant
            n == h.view().len(),
            h.view() == task.history_view(),
            history@.len() == i,
            forall|j: int| 0 <= j < i ==> (#[trigger] history@[j]).timestamp == task.history_view()[j].timestamp
                && option_copied(history@[j].result, Some(task.history_view()[j].result)),
    {
        let e = h.get(i);
        history.push(HistoryEntryView { timestamp: e.timestamp, result: Some(copy_response(&e.result)) });
    }
    let result = match task.last_result() {
        Some(r) => Some(copy_response(r)),
        None => None,
    };
    TaskView {
        id: task.id(),
        name: String::from_str(spec.name()),
        revision: spec.revision(),
        target,
        status,
        interval_ms: spec.poll_config().interval_ms,
        limit: spec.poll_config().limit,
        metrics: task.metrics(),
        result,
        history,
    }
}

} // verus!
