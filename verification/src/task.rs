use vstd::prelude::*;
use crate::clock::now_nanos;
use crate::health::Health;
use crate::history::{History, pushed};
use crate::ids::TaskId;
use crate::polling::{Metrics, Response};
use crate::spec::{TaskConfig, TaskSpec};

verus! {

/// One history record: a previous poll result and when it was replaced.
#[derive(Clone, Debug)]
pub struct HistoryEntry<O> {
    pub timestamp: i128,
    pub result: Response<O>,
}

/// Data of one task: what to poll and what was received. Its status is derived
/// elsewhere from the task's run state.
pub struct Task<Q, O> {
    id: TaskId,
    spec: TaskSpec<Q>,
    last_result: Option<Response<O>>,
    history: History<HistoryEntry<O>>,
    metrics: Metrics,
    health: Health,
    created_at: i128,
    updated_at: i128,
}

impl<Q, O> Task<Q, O> {
    pub closed spec fn id_view(&self) -> TaskId {
        self.id
    }

    pub closed spec fn spec_view(&self) -> TaskSpec<Q> {
        self.spec
    }

    pub closed spec fn last_result_view(&self) -> Option<Response<O>> {
        self.last_result
    }

    pub closed spec fn history_view(&self) -> Seq<HistoryEntry<O>> {
        self.history.view()
    }

    pub closed spec fn history_depth(&self) -> nat {
        self.history.depth()
    }

    pub closed spec fn metrics_view(&self) -> Metrics {
        self.metrics
    }

    pub closed spec fn health_view(&self) -> Health {
        self.health
    }

    pub closed spec fn updated_at_view(&self) -> i128 {
        self.updated_at
    }

    pub closed spec fn created_at_view(&self) -> i128 {
        self.created_at
    }

    /// The spec revision of the task.
    pub open spec fn revision_view(&self) -> u64 {
        self.spec_view().revision_view().0
    }

    /// The poll limit of the task's current spec.
    pub open spec fn limit_view(&self) -> u64 {
        self.spec_view().config_view().poll_config_view().limit
    }

    /// Counters that must stay below their maximum for the next poll to be taken in.
    pub open spec fn can_record_poll(&self) -> bool {
        self.health_view().consecutive_no_response < u32::MAX
    }

    /// Everything but the run-time data (metrics, health, timestamps) is equal.
    pub open spec fn same_data(&self, other: &Task<Q, O>) -> bool {
        &&& self.id_view() == other.id_view()
        &&& self.spec_view() == other.spec_view()
        &&& self.last_result_view() == other.last_result_view()
        &&& self.history_view() == other.history_view()
        &&& self.history_depth() == other.history_depth()
    }

    /// `self` is `old` with its config replaced by `config` one revision later.
    pub open spec fn updated_from(&self, old: &Task<Q, O>, config: TaskConfig<Q>) -> bool {
        &&& self.spec_view().config_view() == config
        &&& self.revision_view() == old.revision_view() + 1
        &&& self.id_view() == old.id_view()
        &&& self.last_result_view() == old.last_result_view()
        &&& self.history_view() == old.history_view()
        &&& self.history_depth() == old.history_depth()
        &&& self.metrics_view() == old.metrics_view()
        &&& self.health_view() == old.health_view()
        &&& self.created_at_view() == old.created_at_view()
    }

    /// `self` is `old` after taking in `result` with replacement metrics `metrics`.
    pub open spec fn polled_from(&self, old: &Task<Q, O>, result: Response<O>, metrics: Metrics) -> bool {
        &&& self.id_view() == old.id_view()
        &&& self.spec_view() == old.spec_view()
        &&& self.last_result_view() == Some(result)
        &&& self.history_depth() == old.history_depth()
        &&& self.history_view() == match old.last_result_view() {
            Some(prev) => pushed(
                old.history_view(),
                old.history_depth(),
                HistoryEntry { timestamp: self.updated_at_view(), result: prev },
            ),
            None => old.history_view(),
        }
        &&& self.metrics_view() == metrics
        &&& Health::recorded(old.health_view(), result, self.health_view())
        &&& self.created_at_view() == old.created_at_view()
    }

    /// A fresh task: first spec revision, no result, empty history of the configured depth.
    pub fn new(id: TaskId, config: TaskConfig<Q>) -> (t: Task<Q, O>)
        ensures
            t.id_view() == id,
            t.spec_view().config_view() == config,
            t.revision_view() == 1,
            t.last_result_view() is None,
            t.history_view() == Seq::<HistoryEntry<O>>::empty(),
            t.history_depth() == config.deep_history_view(),
            t.metrics_view().is_initial(),
            t.health_view().is_initial(),
    {
        let dt = now_nanos();
        let deep_history = config.deep_history();
        let spec = TaskSpec::new(config);
        Task {
            id,
            spec,
            last_result: None,
            history: History::new(deep_history),
            metrics: Metrics::initial(),
            health: Health::new(),
            created_at: dt,
            updated_at: dt,
        }
    }

    pub fn id(&self) -> (id: TaskId)
        ensures
            id == self.id_view(),
    {
        self.id
    }

    pub fn spec(&self) -> (s: &TaskSpec<Q>)
        ensures
            *s == self.spec_view(),
    {
        &self.spec
    }

    pub fn last_result(&self) -> (r: Option<&Response<O>>)
        ensures
            r matches Some(x) ==> self.last_result_view() == Some(*x),
            r is None <==> self.last_result_view() is None,
    {
        self.last_result.as_ref()
    }

    pub fn metrics(&self) -> (m: Metrics)
        ensures
            m == self.metrics_view(),
    {
        self.metrics
    }

    pub fn created_at(&self) -> (t: i128)
        ensures
            t == self.created_at_view(),
    {
        self.created_at
    }

    pub fn updated_at(&self) -> (t: i128)
        ensures
            t == self.updated_at_view(),
    {
        self.updated_at
    }

    pub fn history(&self) -> (h: &History<HistoryEntry<O>>)
        ensures
            h.view() == self.history_view(),
            h.depth() == self.history_depth(),
    {
        &self.history
    }

    pub fn health(&self) -> (h: &Health)
        ensures
            *h == self.health_view(),
    {
        &self.health
    }

    /// A poll result arrived: the previous result moves into the history, the
    /// new one becomes current, metrics are replaced and health records it.
    pub fn apply_poll(&mut self, result: Response<O>, metrics: Metrics)
        requires
            result is NoResponse ==> old(self).can_record_poll(),
        ensures
            final(self).polled_from(old(self), result, metrics),
    {
        self.health.record(&result);
        let ts = now_nanos();
        let prev = self.last_result.take();
        self.last_result = Some(result);
        match prev {
            Some(p) => {
                self.history.push(HistoryEntry { timestamp: ts, result: p });
            },
            None => {},
        }
        self.metrics = metrics;
        self.updated_at = ts;
    }

    /// Replaces the config and raises the revision.
    pub fn update_spec(&mut self, config: TaskConfig<Q>)
        requires
            old(self).revision_view() < u64::MAX,
        ensures
            final(self).updated_from(old(self), config),
    {
        self.spec = self.spec.next(config);
        self.updated_at = now_nanos();
    }

    /// New run: accumulated metrics and health are reset; result and history stay.
    pub fn reset_run(&mut self)
        ensures
            final(self).same_data(old(self)),
            final(self).metrics_view().is_initial(),
            final(self).health_view().is_initial(),
            final(self).created_at_view() == old(self).created_at_view(),
    {
        self.metrics = Metrics::initial();
        self.health = Health::new();
        self.updated_at = now_nanos();
    }
}

} // verus!
