use vstd::prelude::*;
use crate::clock::now_nanos;
use crate::history::{History, pushed};
use crate::ids::TaskId;
use crate::polling::{Metrics, PollConfig, PollResult, WorkerState};

verus! {

#[derive(Clone, Copy, Debug, PartialEq, Eq)]
pub enum Protocol {
    Snmp,
    Http,
    Modbus,
}

#[derive(Clone, Copy, Debug, PartialEq, Eq)]
pub enum TypeQuery {
    SnmpGet,
}

/// Poll status kept in a task snapshot.
#[derive(Clone, Copy, Debug, PartialEq, Eq)]
pub enum PollStatus {
    Idle,
    Active,
    Paused,
    RatedLimit,
}

/// Poll status shown for a worker state.
pub open spec fn poll_status_of(state: WorkerState) -> PollStatus {
    match state {
        WorkerState::Idle => PollStatus::Idle,
        WorkerState::Running => PollStatus::Active,
        WorkerState::Stopped => PollStatus::Paused,
        WorkerState::RatedLimit => PollStatus::RatedLimit,
    }
}

impl From<WorkerState> for PollStatus {
    fn from(state: WorkerState) -> (s: PollStatus) {
        match state {
            WorkerState::Idle => PollStatus::Idle,
            WorkerState::Running => PollStatus::Active,
            WorkerState::Stopped => PollStatus::Paused,
            WorkerState::RatedLimit => PollStatus::RatedLimit,
        }
    }
}

impl vstd::std_specs::convert::FromSpecImpl<WorkerState> for PollStatus {
    open spec fn obeys_from_spec() -> bool {
        true
    }

    open spec fn from_spec(v: WorkerState) -> PollStatus {
        poll_status_of(v)
    }
}

/// Descriptive data of a task.
#[derive(Clone, Debug)]
pub struct TaskMeta {
    pub protocol: Protocol,
    pub type_query: TypeQuery,
    pub name: String,
    pub target: String,
    pub subject: String,
}

/// Last poll result, metrics and status of a task.
#[derive(Clone, Debug)]
pub struct TaskSnapshot<O> {
    poll_result: PollResult<O>,
    metrics: Metrics,
    poll_status: PollStatus,
}

impl<O> TaskSnapshot<O> {
    pub closed spec fn poll_result_view(&self) -> PollResult<O> {
        self.poll_result
    }

    pub closed spec fn metrics_view(&self) -> Metrics {
        self.metrics
    }

    pub closed spec fn poll_status_view(&self) -> PollStatus {
        self.poll_status
    }

    /// Nothing polled yet: idle, initial result, initial metrics.
    pub fn new() -> (s: TaskSnapshot<O>)
        ensures
            s.poll_result_view() is Initial,
            s.metrics_view().is_initial(),
            s.poll_status_view() == PollStatus::Idle,
    {
        TaskSnapshot { poll_status: PollStatus::Idle, poll_result: PollResult::Initial, metrics: Metrics::initial() }
    }

    pub fn with_poll_result(self, poll_result: PollResult<O>) -> (s: TaskSnapshot<O>)
        ensures
            s.poll_result_view() == poll_result,
            s.metrics_view() == self.metrics_view(),
            s.poll_status_view() == self.poll_status_view(),
    {
        TaskSnapshot { poll_result, ..self }
    }

    pub fn with_poll_status(self, poll_status: PollStatus) -> (s: TaskSnapshot<O>)
        ensures
            s.poll_result_view() == self.poll_result_view(),
            s.metrics_view() == self.metrics_view(),
            s.poll_status_view() == poll_status,
    {
        TaskSnapshot { poll_status, ..self }
    }

    pub fn with_metrics(self, metrics: Metrics) -> (s: TaskSnapshot<O>)
        ensures
            s.poll_result_view() == self.poll_result_view(),
            s.metrics_view() == metrics,
            s.poll_status_view() == self.poll_status_view(),
    {
        TaskSnapshot { metrics, ..self }
    }

    pub fn poll_result(&self) -> (r: &PollResult<O>)
        ensures
            *r == self.poll_result_view(),
    {
        &self.poll_result
    }

    pub fn poll_status(&self) -> (r: &PollStatus)
        ensures
            *r == self.poll_status_view(),
    {
        &self.poll_status
    }

    pub fn metrics(&self) -> (r: &Metrics)
        ensures
            *r == self.metrics_view(),
    {
        &self.metrics
    }
}

impl<O> Default for TaskSnapshot<O> {
    fn default() -> (s: TaskSnapshot<O>)
        ensures
            s.poll_result_view() is Initial,
            s.metrics_view().is_initial(),
            s.poll_status_view() == PollStatus::Idle,
    {
        TaskSnapshot::new()
    }
}

/// A replaced snapshot and when it was replaced.
#[derive(Clone, Debug)]
pub struct HistoryEntry<O> {
    pub timestamp: i128,
    pub snapshot: TaskSnapshot<O>,
}

/// History of replaced snapshots; three deep by default.
pub type TaskHistory<O> = History<HistoryEntry<O>>;

/// The default snapshot history: three entries deep.
pub fn default_task_history<O>() -> (h: TaskHistory<O>)
    ensures
        h.depth() == 3,
        h.view().len() == 0,
{
    History::new(3)
}

/// Partial update of a task: a new snapshot and/or a new poll config.
pub struct TaskUpdateDto<O> {
    pub snapshot: Option<TaskSnapshot<O>>,
    pub poll_config: Option<PollConfig>,
}

/// Stored task: metadata, current snapshot, poll config and snapshot history.
pub struct TaskEntity<O> {
    id: TaskId,
    meta: TaskMeta,
    snapshot: TaskSnapshot<O>,
    poll_config: PollConfig,
    history: TaskHistory<O>,
    created_at: i128,
    updated_at: i128,
}

impl<O> TaskEntity<O> {
    pub closed spec fn id_view(&self) -> TaskId {
        self.id
    }

    pub closed spec fn meta_view(&self) -> TaskMeta {
        self.meta
    }

    pub closed spec fn snapshot_view(&self) -> TaskSnapshot<O> {
        self.snapshot
    }

    pub closed spec fn poll_config_view(&self) -> PollConfig {
        self.poll_config
    }

    pub closed spec fn history_view(&self) -> Seq<HistoryEntry<O>> {
        self.history.view()
    }

    pub closed spec fn history_depth(&self) -> nat {
        self.history.depth()
    }

    pub closed spec fn created_at_view(&self) -> i128 {
        self.created_at
    }

    pub closed spec fn updated_at_view(&self) -> i128 {
        self.updated_at
    }

    /// How `update(dto)` turns `old` into `self`, returning `changed`.
    pub open spec fn updated_by(&self, old: &TaskEntity<O>, dto: TaskUpdateDto<O>, changed: bool) -> bool {
        &&& changed == (dto.snapshot is Some || dto.poll_config is Some)
        &&& self.id_view() == old.id_view()
        &&& self.meta_view() == old.meta_view()
        &&& self.created_at_view() == old.created_at_view()
        &&& self.history_depth() == old.history_depth()
        &&& match dto.snapshot {
            Some(s) => {
                &&& self.snapshot_view() == s
                &&& exists|ts: i128| self.history_view() == pushed(
                    old.history_view(),
                    old.history_depth(),
                    HistoryEntry { timestamp: ts, snapshot: old.snapshot_view() },
                )
            },
            None => {
                &&& self.snapshot_view() == old.snapshot_view()
                &&& self.history_view() == old.history_view()
            },
        }
        &&& self.poll_config_view() == match dto.poll_config {
            Some(p) => p,
            None => old.poll_config_view(),
        }
        &&& !changed ==> self.updated_at_view() == old.updated_at_view()
    }

    pub fn new(id: TaskId, meta: TaskMeta, snapshot: TaskSnapshot<O>, poll_config: PollConfig, history: TaskHistory<O>) -> (e: TaskEntity<O>)
        ensures
            e.id_view() == id,
            e.meta_view() == meta,
            e.snapshot_view() == snapshot,
            e.poll_config_view() == poll_config,
            e.history_view() == history.view(),
            e.history_depth() == history.depth(),
            e.created_at_view() == e.updated_at_view(),
    {
        let dt = now_nanos();
        TaskEntity { id, meta, snapshot, poll_config, history, created_at: dt, updated_at: dt }
    }

    pub fn id(&self) -> (r: &TaskId)
        ensures
            *r == self.id_view(),
    {
        &self.id
    }

    pub fn meta(&self) -> (r: &TaskMeta)
        ensures
            *r == self.meta_view(),
    {
        &self.meta
    }

    pub fn snapshot(&self) -> (r: &TaskSnapshot<O>)
        ensures
            *r == self.snapshot_view(),
    {
        &self.snapshot
    }

    pub fn poll_result(&self) -> (r: &PollResult<O>)
        ensures
            *r == self.snapshot_view().poll_result_view(),
    {
        self.snapshot.poll_result()
    }

    pub fn poll_config(&self) -> (r: &PollConfig)
        ensures
            *r == self.poll_config_view(),
    {
        &self.poll_config
    }

    pub fn status(&self) -> (r: &PollStatus)
        ensures
            *r == self.snapshot_view().poll_status_view(),
    {
        self.snapshot.poll_status()
    }

    pub fn metrics(&self) -> (r: &Metrics)
        ensures
            *r == self.snapshot_view().metrics_view(),
    {
        self.snapshot.metrics()
    }

    pub fn created_at(&self) -> (t: i128)
        ensures
            t == self.created_at_view(),
    {
        self.created_at
    }

    pub fn updated_at(&self) -> (t: i128)
        ensures
            t == self.updated_at_view(),
    {
        self.updated_at
    }

    pub fn history(&self) -> (h: &TaskHistory<O>)
        ensures
            h.view() == self.history_view(),
            h.depth() == self.history_depth(),
    {
        &self.history
    }

    /// Replaces the metadata.
    pub fn update_meta(&mut self, meta: TaskMeta)
        ensures
            final(self).meta_view() == meta,
            final(self).id_view() == old(self).id_view(),
            final(self).snapshot_view() == old(self).snapshot_view(),
            final(self).poll_config_view() == old(self).poll_config_view(),
            final(self).history_view() == old(self).history_view(),
            final(self).history_depth() == old(self).history_depth(),
            final(self).created_at_view() == old(self).created_at_view(),
    {
        self.meta = meta;
        self.updated_at = now_nanos();
    }

    /// Applies a partial update: a new snapshot pushes the old one into the
    /// history; a new poll config replaces the old one. Returns whether
    /// anything was given.
    pub fn update(&mut self, to_update: TaskUpdateDto<O>) -> (changed: bool)
        ensures
            final(self).updated_by(old(self), to_update, changed),
    {
        let mut has_update = false;
        let ts = now_nanos();
        let TaskUpdateDto { snapshot, poll_config } = to_update;
        match snapshot {
            Some(s) => {
                let mut previous = s;
                std::mem::swap(&mut previous, &mut self.snapshot);
                has_update = true;
                self.history.push(HistoryEntry { timestamp: ts, snapshot: previous });
            },
            None => {},
        }
        match poll_config {
            Some(p) => {
                self.poll_config = p;
                has_update = true;
            },
            None => {},
        }
        if has_update {
            self.updated_at = ts;
        }
        has_update
    }
}

} // verus!
