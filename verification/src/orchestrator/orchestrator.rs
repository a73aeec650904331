use vstd::prelude::*;
use crate::event::ChangeKind;
use crate::ids::{SpecRevision, TaskId, TaskStatus};
use crate::orchestrator::supervisor::{
    PoolEffect, Supervisor, fresh_restart, WorkerRuntime, building_slots, launched_slots, restarted_slots,
    retried_slots, stopped_slots,
};
use crate::polling::{Metrics, Response};
use crate::spec::TaskConfig;
use crate::task::Task;

verus! {

/// Error of building a use case (adapter) for a task.
#[derive(Clone, Debug, PartialEq, Eq)]
pub enum UseCaseBuildError {
    SnmpClientCreate,
    Other(String),
}

/// Errors of orchestrator commands.
#[derive(Clone, Debug, PartialEq, Eq)]
pub enum OrchestratorError {
    Build(UseCaseBuildError),
    TaskNotFound(TaskId),
    ChannelClosed,
}

/// How a worker ended.
#[derive(Clone, Debug, PartialEq, Eq)]
pub enum WorkerFinished {
    /// It reached its poll limit.
    Completed,
    /// It failed, with the reason.
    Failed(String),
}

/// A task with its displayed status and whether an adapter build is under way.
pub struct TaskRecord<Q, O> {
    pub task: Task<Q, O>,
    pub status: TaskStatus,
    pub pending_build: bool,
}

/// Side effects of an orchestrator step, in order.
#[derive(Clone, Debug, PartialEq, Eq)]
pub enum BuildEffect {
    /// Build an adapter for the task's current spec (outside the loop); its
    /// outcome comes back through `on_built` with this revision.
    Build { task_id: TaskId, revision: SpecRevision },
    /// Start or abort a worker (a launch uses the adapter just built and the
    /// task's poll config and metrics).
    Worker(PoolEffect),
    /// Publish a change with the task's current view.
    Emit { task_id: TaskId, kind: ChangeKind },
    /// Publish the removal of the task the command handed back.
    EmitRemoved { task_id: TaskId },
}

pub open spec fn rec_id<Q, O>(r: TaskRecord<Q, O>) -> TaskId {
    r.task.id_view()
}

pub open spec fn has_task<Q, O>(s: Seq<TaskRecord<Q, O>>, id: TaskId) -> bool {
    exists|i: int| 0 <= i < s.len() && #[trigger] rec_id(s[i]) == id
}

pub open spec fn task_index<Q, O>(s: Seq<TaskRecord<Q, O>>, id: TaskId) -> int {
    choose|i: int| 0 <= i < s.len() && #[trigger] rec_id(s[i]) == id
}

pub open spec fn recs_wf<Q, O>(s: Seq<TaskRecord<Q, O>>, next_id: u64) -> bool {
    &&& forall|i: int, j: int| 0 <= i < j < s.len() ==> rec_id(s[i]).0 < rec_id(s[j]).0
    &&& forall|i: int| 0 <= i < s.len() ==> (#[trigger] rec_id(s[i])).0 < next_id
}

pub open spec fn recs_others<Q, O>(old: Seq<TaskRecord<Q, O>>, new: Seq<TaskRecord<Q, O>>, i: int) -> bool {
    &&& new.len() == old.len()
    &&& forall|j: int| 0 <= j < old.len() && j != i ==> new[j] == old[j]
}

pub proof fn lemma_rec_index<Q, O>(s: Seq<TaskRecord<Q, O>>, next_id: u64, i: int)
    requires
        recs_wf(s, next_id),
        0 <= i < s.len(),
    ensures
        has_task(s, rec_id(s[i])),
        task_index(s, rec_id(s[i])) == i,
{
    let id = rec_id(s[i]);
    assert(has_task(s, id));
    let j = task_index(s, id);
    if j < i {
        assert(rec_id(s[j]).0 < rec_id(s[i]).0);
    } else if j > i {
        assert(rec_id(s[i]).0 < rec_id(s[j]).0);
    }
}

pub proof fn lemma_recs_replace<Q, O>(old: Seq<TaskRecord<Q, O>>, new: Seq<TaskRecord<Q, O>>, i: int, next_id: u64)
    requires
        recs_wf(old, next_id),
        0 <= i < old.len(),
        recs_others(old, new, i),
        rec_id(new[i]) == rec_id(old[i]),
    ensures
        recs_wf(new, next_id),
{
    assert forall|a: int, b: int| 0 <= a < b < new.len() implies rec_id(new[a]).0 < rec_id(new[b]).0 by {
        assert(rec_id(new[a]) == rec_id(old[a]));
        assert(rec_id(new[b]) == rec_id(old[b]));
    }
    assert forall|a: int| 0 <= a < new.len() implies (#[trigger] rec_id(new[a])).0 < next_id by {
        assert(rec_id(new[a]) == rec_id(old[a]));
    }
}

/// A build that a tick at `now` owes: for a known task with no build pending
/// whose restart is due.
pub open spec fn owed_build<Q, O>(s: Seq<TaskRecord<Q, O>>, w: Map<u64, WorkerRuntime>, now: i64, e: BuildEffect) -> bool {
    exists|i: int|
        0 <= i < s.len() && !s[i].pending_build && w.contains_key(rec_id(s[i]).0) && crate::orchestrator::supervisor::is_due(
            w[rec_id(s[i]).0],
            now,
        ) && e == (BuildEffect::Build { task_id: rec_id(#[trigger] s[i]), revision: s[i].task.spec_view().revision_view() })
}

/// Single owner of task data for the build-pipeline runtime: commands, worker
/// facts and exits, and finished builds go in; effects come out.
pub struct Orchestrator<Q, O> {
    tasks: Vec<TaskRecord<Q, O>>,
    next_id: u64,
    workers: Supervisor,
}

impl<Q, O> Orchestrator<Q, O> {
    pub closed spec fn tasks_view(&self) -> Seq<TaskRecord<Q, O>> {
        self.tasks@
    }

    pub closed spec fn next_id_view(&self) -> u64 {
        self.next_id
    }

    pub closed spec fn workers_view(&self) -> Map<u64, WorkerRuntime> {
        self.workers.view()
    }

    pub closed spec fn pool_view(&self) -> Supervisor {
        self.workers
    }

    pub open spec fn wf(&self) -> bool {
        recs_wf(self.tasks_view(), self.next_id_view())
    }

    /// The spec of the task with `id` can take one more revision.
    pub open spec fn revision_room(&self, id: TaskId) -> bool {
        forall|i: int|
            0 <= i < self.tasks_view().len() && #[trigger] rec_id(self.tasks_view()[i]) == id
                ==> self.tasks_view()[i].task.revision_view() < u64::MAX
    }

    /// The task with `id` can count one more poll without an answer in a row.
    pub open spec fn poll_room(&self, id: TaskId) -> bool {
        forall|i: int|
            0 <= i < self.tasks_view().len() && #[trigger] rec_id(self.tasks_view()[i]) == id
                ==> self.tasks_view()[i].task.can_record_poll()
    }

    /// The worker slot of `id`, if any, can count one more restart attempt.
    pub open spec fn restart_room(&self, id: TaskId) -> bool {
        self.workers_view().contains_key(id.0) ==> self.workers_view()[id.0].restart.attempts < u32::MAX
    }

    pub fn new() -> (o: Orchestrator<Q, O>)
        ensures
            o.wf(),
            o.tasks_view().len() == 0,
            o.next_id_view() == 0,
            o.workers_view() == Map::<u64, WorkerRuntime>::empty(),
    {
        Orchestrator { tasks: Vec::new(), next_id: 0, workers: Supervisor::new() }
    }

    fn find(&self, id: TaskId) -> (r: Option<usize>)
        requires
            self.wf(),
        ensures
            r matches Some(i) ==> i < self.tasks_view().len() && has_task(self.tasks_view(), id)
                && task_index(self.tasks_view(), id) == i,
            r is None ==> !has_task(self.tasks_view(), id),
    {
        let mut i: usize = 0;
        while i < self.tasks.len()
            invariant
                self.wf(),
                i <= self.tasks@.len(),
                forall|j: int| 0 <= j < i ==> rec_id(#[trigger] self.tasks@[j]) != id,
            decreases self.tasks@.len() - i,
        {
            if self.tasks[i].task.id().0 == id.0 {
                proof {
                    lemma_rec_index(self.tasks_view(), self.next_id_view(), i as int);
                }
                return Some(i);
            }
            i = i + 1;
        }
        None
    }

    /// Whether the spec of the task with `id` can take one more revision (see `revision_room`).
    pub fn has_revision_room(&self, id: TaskId) -> (b: bool)
        requires
            self.wf(),
        ensures
            b == self.revision_room(id),
    {
        match self.find(id) {
            Some(i) => {
                let ok = self.tasks[i].task.spec().revision().0 < u64::MAX;
                proof {
                    if !ok {
                        assert(rec_id(self.tasks_view()[i as int]) == id);
                    }
                }
                ok
            },
            None => true,
        }
    }

    /// Whether the task with `id` can count one more poll without an answer (see `poll_room`).
    pub fn has_poll_room(&self, id: TaskId) -> (b: bool)
        requires
            self.wf(),
        ensures
            b == self.poll_room(id),
    {
        match self.find(id) {
            Some(i) => {
                let ok = self.tasks[i].task.health().consecutive_no_response < u32::MAX;
                proof {
                    if !ok {
                        assert(rec_id(self.tasks_view()[i as int]) == id);
                    }
                }
                ok
            },
            None => true,
        }
    }

    /// Whether the worker slot of `id` can count one more restart attempt (see `restart_room`).
    pub fn has_restart_room(&self, id: TaskId) -> (b: bool)
        ensures
            b == self.restart_room(id),
    {
        self.workers.attempts_below_max(&id)
    }

    pub fn can_add(&self) -> (b: bool)
        ensures
            b == (self.next_id_view() < u64::MAX),
    {
        self.next_id < u64::MAX
    }

    /// The task with `id`, if present.
    pub fn get(&self, id: TaskId) -> (r: Option<&TaskRecord<Q, O>>)
        requires
            self.wf(),
        ensures
            r is Some <==> has_task(self.tasks_view(), id),
            r matches Some(t) ==> *t == self.tasks_view()[task_index(self.tasks_view(), id)],
    {
        match self.find(id) {
            Some(i) => Some(&self.tasks[i]),
            None => None,
        }
    }

    /// Ids of all tasks in increasing order (the order of a snapshot).
    pub fn task_ids(&self) -> (ids: Vec<TaskId>)
        requires
            self.wf(),
        ensures
            ids@.len() == self.tasks_view().len(),
            forall|i: int| 0 <= i < ids@.len() ==> ids@[i] == rec_id(self.tasks_view()[i]),
            forall|i: int, j: int| 0 <= i < j < ids@.len() ==> ids@[i].0 < ids@[j].0,
    {
        let mut ids: Vec<TaskId> = Vec::new();
        for k in 0..self.tasks.len()
            invariant
                self.wf(),
                ids@.len() == k,
                forall|i: int| 0 <= i < k ==> ids@[i] == rec_id(self.tasks_view()[i]),
        {
            ids.push(self.tasks[k].task.id());
        }
        ids
    }

    /// Starts a build for the task unless one is pending or the task is gone.
    fn schedule_build(&mut self, task_id: TaskId, effects: &mut Vec<BuildEffect>)
        requires
            old(self).wf(),
        ensures
            final(self).wf(),
            final(self).next_id_view() == old(self).next_id_view(),
            ({
                let s = old(self).tasks_view();
                let i = task_index(s, task_id);
                if has_task(s, task_id) && !s[i].pending_build {
                    &&& recs_others(s, final(self).tasks_view(), i)
                    &&& final(self).tasks_view()[i] == TaskRecord { pending_build: true, ..s[i] }
                    &&& final(self).workers_view() == if old(self).workers_view().contains_key(task_id.0) {
                        old(self).workers_view().insert(
                            task_id.0,
                            WorkerRuntime {
                                restart: crate::orchestrator::supervisor::RestartState { next_at: None, ..old(self).workers_view()[task_id.0].restart },
                                ..old(self).workers_view()[task_id.0]
                            },
                        )
                    } else {
                        old(self).workers_view()
                    }
                    &&& final(effects)@ == old(effects)@.push(
                        BuildEffect::Build { task_id, revision: s[i].task.spec_view().revision_view() },
                    )
                } else {
                    &&& final(self).tasks_view() == s
                    &&& final(self).workers_view() == old(self).workers_view()
                    &&& final(effects)@ == old(effects)@
                }
            }),
    {
        let i = match self.find(task_id) {
            Some(i) => i,
            None => return,
        };
        if self.tasks[i].pending_build {
            return;
        }
        let revision = self.tasks[i].task.spec().revision();
        self.tasks[i].pending_build = true;
        proof {
            lemma_recs_replace(old(self).tasks_view(), self.tasks_view(), i as int, self.next_id_view());
        }
        self.workers.mark_building(&task_id);
        effects.push(BuildEffect::Build { task_id, revision });
    }

    /// Registers an idle task under the next id.
    pub fn add_task(&mut self, spec: TaskConfig<Q>) -> (r: (TaskId, Vec<BuildEffect>))
        requires
            old(self).wf(),
            old(self).next_id_view() < u64::MAX,
        ensures
            final(self).wf(),
            r.0.0 == old(self).next_id_view(),
            !has_task(old(self).tasks_view(), r.0),
            final(self).next_id_view() == old(self).next_id_view() + 1,
            final(self).workers_view() == old(self).workers_view(),
            final(self).tasks_view().drop_last() == old(self).tasks_view(),
            final(self).tasks_view().len() == old(self).tasks_view().len() + 1,
            ({
                let t = final(self).tasks_view().last();
                &&& rec_id(t) == r.0
                &&& t.task.spec_view().config_view() == spec
                &&& t.task.revision_view() == 1
                &&& t.task.last_result_view() is None
                &&& t.task.metrics_view().is_initial()
                &&& t.status == TaskStatus::Idle
                &&& !t.pending_build
            }),
            r.1@ == seq![BuildEffect::Emit { task_id: r.0, kind: ChangeKind::Added }],
    {
        let id = TaskId(self.next_id);
        self.next_id = self.next_id + 1;
        self.tasks.push(TaskRecord { task: Task::new(id, spec), status: TaskStatus::Idle, pending_build: false });
        proof {
            let s = self.tasks_view();
            let o = old(self).tasks_view();
            assert(s.drop_last() =~= o);
            assert forall|a: int, b: int| 0 <= a < b < s.len() implies rec_id(s[a]).0 < rec_id(s[b]).0 by {
                assert(s[a] == o[a]);
                if b < o.len() {
                    assert(s[b] == o[b]);
                }
            }
            assert forall|a: int| 0 <= a < s.len() implies (#[trigger] rec_id(s[a])).0 < self.next_id_view() by {
                if a < o.len() {
                    assert(s[a] == o[a]);
                }
            }
            assert forall|a: int| 0 <= a < o.len() implies #[trigger] rec_id(o[a]) != id by {}
        }
        let mut effects: Vec<BuildEffect> = Vec::new();
        effects.push(BuildEffect::Emit { task_id: id, kind: ChangeKind::Added });
        (id, effects)
    }

    /// Starts a task: idempotent while its worker runs or a build is pending;
    /// otherwise the task is starting with fresh metrics, its restart state is
    /// cleared and an adapter build begins.
    pub fn start(&mut self, id: TaskId) -> (r: Result<Vec<BuildEffect>, OrchestratorError>)
        requires
            old(self).wf(),
        ensures
            final(self).wf(),
            final(self).next_id_view() == old(self).next_id_view(),
            ({
                let s = old(self).tasks_view();
                let i = task_index(s, id);
                let busy = old(self).pool_view().running(id) || (has_task(s, id) && s[i].pending_build);
                if busy {
                    &&& r matches Ok(e) && e@.len() == 0
                    &&& final(self).tasks_view() == s
                    &&& final(self).workers_view() == old(self).workers_view()
                } else if !has_task(s, id) {
                    &&& r == Err::<Vec<BuildEffect>, OrchestratorError>(OrchestratorError::TaskNotFound(id))
                    &&& final(self).tasks_view() == s
                    &&& final(self).workers_view() == old(self).workers_view()
                } else {
                    let n = final(self).tasks_view()[i];
                    &&& recs_others(s, final(self).tasks_view(), i)
                    &&& n.status == TaskStatus::Starting
                    &&& n.pending_build
                    &&& n.task.same_data(&s[i].task)
                    &&& n.task.metrics_view().is_initial()
                    &&& n.task.health_view().is_initial()
                    &&& final(self).workers_view().dom() == old(self).workers_view().dom()
                    &&& (final(self).workers_view().contains_key(id.0) ==> final(self).workers_view()[id.0].restart == fresh_restart())
                    &&& r matches Ok(e) && e@ == seq![
                        BuildEffect::Build { task_id: id, revision: s[i].task.spec_view().revision_view() },
                        BuildEffect::Emit { task_id: id, kind: ChangeKind::Starting },
                    ]
                }
            }),
    {
        let running = self.workers.is_running(&id);
        let found = self.find(id);
        let pending = match found {
            Some(i) => self.tasks[i].pending_build,
            None => false,
        };
        if running || pending {
            return Ok(Vec::new());
        }
        let i = match found {
            Some(i) => i,
            None => return Err(OrchestratorError::TaskNotFound(id)),
        };
        proof {
            assert(rec_id(self.tasks_view()[i as int]) == id);
        }
        self.tasks[i].status = TaskStatus::Starting;
        self.tasks[i].task.reset_run();
        proof {
            lemma_recs_replace(old(self).tasks_view(), self.tasks_view(), i as int, self.next_id_view());
        }
        self.workers.reset_restart(&id);
        let ghost mid = self.tasks_view();
        let ghost mid_w = self.workers_view();
        let mut effects: Vec<BuildEffect> = Vec::new();
        self.schedule_build(id, &mut effects);
        proof {
            lemma_rec_index(mid, self.next_id_view(), i as int);
        }
        effects.push(BuildEffect::Emit { task_id: id, kind: ChangeKind::Starting });
        Ok(effects)
    }

    /// Stops a task: status stopped, its worker aborted if running.
    pub fn stop(&mut self, id: TaskId) -> (r: Result<Vec<BuildEffect>, OrchestratorError>)
        requires
            old(self).wf(),
        ensures
            final(self).wf(),
            final(self).next_id_view() == old(self).next_id_view(),
            !has_task(old(self).tasks_view(), id) ==> r == Err::<Vec<BuildEffect>, OrchestratorError>(OrchestratorError::TaskNotFound(id))
                && final(self).tasks_view() == old(self).tasks_view() && final(self).workers_view() == old(self).workers_view(),
            has_task(old(self).tasks_view(), id) ==> ({
                let s = old(self).tasks_view();
                let i = task_index(s, id);
                &&& recs_others(s, final(self).tasks_view(), i)
                &&& final(self).tasks_view()[i] == TaskRecord { status: TaskStatus::Stopped, ..s[i] }
                &&& !final(self).pool_view().running(id)
                &&& final(self).workers_view().dom() == old(self).workers_view().dom()
                &&& r matches Ok(e) && e@ == if old(self).pool_view().running(id) {
                    seq![BuildEffect::Worker(PoolEffect::Abort { task_id: id }), BuildEffect::Emit { task_id: id, kind: ChangeKind::Stopped }]
                } else {
                    seq![BuildEffect::Emit { task_id: id, kind: ChangeKind::Stopped }]
                }
            }),
    {
        let i = match self.find(id) {
            Some(i) => i,
            None => return Err(OrchestratorError::TaskNotFound(id)),
        };
        proof {
            assert(rec_id(self.tasks_view()[i as int]) == id);
        }
        self.tasks[i].status = TaskStatus::Stopped;
        proof {
            lemma_recs_replace(old(self).tasks_view(), self.tasks_view(), i as int, self.next_id_view());
        }
        let pool_effects = self.workers.stop(&id);
        let mut effects: Vec<BuildEffect> = Vec::new();
        if pool_effects.len() > 0 {
            effects.push(BuildEffect::Worker(PoolEffect::Abort { task_id: id }));
        }
        effects.push(BuildEffect::Emit { task_id: id, kind: ChangeKind::Stopped });
        proof {
            assert(self.workers_view().dom() =~= old(self).workers_view().dom());
        }
        Ok(effects)
    }

    /// Replaces the spec of a task. A task whose worker runs is restarting: its
    /// worker is aborted and a build for the new spec begins.
    pub fn update(&mut self, id: TaskId, spec: TaskConfig<Q>) -> (r: Result<Vec<BuildEffect>, OrchestratorError>)
        requires
            old(self).wf(),
            old(self).revision_room(id),
        ensures
            final(self).wf(),
            final(self).next_id_view() == old(self).next_id_view(),
            !has_task(old(self).tasks_view(), id) ==> r == Err::<Vec<BuildEffect>, OrchestratorError>(OrchestratorError::TaskNotFound(id))
                && final(self).tasks_view() == old(self).tasks_view() && final(self).workers_view() == old(self).workers_view(),
            has_task(old(self).tasks_view(), id) ==> ({
                let s = old(self).tasks_view();
                let i = task_index(s, id);
                let n = final(self).tasks_view()[i];
                let was_running = old(self).pool_view().running(id);
                &&& recs_others(s, final(self).tasks_view(), i)
                &&& n.task.updated_from(&s[i].task, spec)
                &&& n.status == if was_running { TaskStatus::Restarting } else { s[i].status }
                &&& if was_running {
                    &&& !final(self).pool_view().running(id)
                    &&& n.pending_build
                    &&& r matches Ok(e) && e@.len() >= 2 && e@[0] == BuildEffect::Worker(PoolEffect::Abort { task_id: id })
                        && e@.last() == BuildEffect::Emit { task_id: id, kind: ChangeKind::SpecUpdated }
                        && (s[i].pending_build ==> e@.len() == 2)
                        && (!s[i].pending_build ==> e@.len() == 3 && e@[1] == BuildEffect::Build { task_id: id, revision: n.task.spec_view().revision_view() })
                } else {
                    &&& n.pending_build == s[i].pending_build
                    &&& final(self).workers_view() == old(self).workers_view()
                    &&& r matches Ok(e) && e@ == seq![BuildEffect::Emit { task_id: id, kind: ChangeKind::SpecUpdated }]
                }
            }),
    {
        let was_running = self.workers.is_running(&id);
        let i = match self.find(id) {
            Some(i) => i,
            None => return Err(OrchestratorError::TaskNotFound(id)),
        };
        proof {
            assert(rec_id(self.tasks_view()[i as int]) == id);
        }
        self.tasks[i].task.update_spec(spec);
        if was_running {
            self.tasks[i].status = TaskStatus::Restarting;
        }
        proof {
            lemma_recs_replace(old(self).tasks_view(), self.tasks_view(), i as int, self.next_id_view());
        }
        let mut effects: Vec<BuildEffect> = Vec::new();
        if was_running {
            let _ = self.workers.stop(&id);
            effects.push(BuildEffect::Worker(PoolEffect::Abort { task_id: id }));
            let ghost mid = self.tasks_view();
            proof {
                lemma_rec_index(mid, self.next_id_view(), i as int);
            }
            self.schedule_build(id, &mut effects);
            proof {
                if !mid[i as int].pending_build {
                    assert(self.tasks_view()[i as int].pending_build);
                }
                assert(!self.pool_view().running(id));
            }
        }
        effects.push(BuildEffect::Emit { task_id: id, kind: ChangeKind::SpecUpdated });
        Ok(effects)
    }

    /// Removes a task: its worker is aborted and its worker slot and pending
    /// build forgotten (even when the task itself is not found).
    pub fn remove(&mut self, id: TaskId) -> (r: (Result<TaskRecord<Q, O>, OrchestratorError>, Vec<BuildEffect>))
        requires
            old(self).wf(),
        ensures
            final(self).wf(),
            final(self).next_id_view() == old(self).next_id_view(),
            final(self).workers_view() == old(self).workers_view().remove(id.0),
            !has_task(final(self).tasks_view(), id),
            !has_task(old(self).tasks_view(), id) ==> r.0 == Err::<TaskRecord<Q, O>, OrchestratorError>(OrchestratorError::TaskNotFound(id))
                && final(self).tasks_view() == old(self).tasks_view(),
            has_task(old(self).tasks_view(), id) ==> {
                let i = task_index(old(self).tasks_view(), id);
                &&& r.0 matches Ok(t) && t == old(self).tasks_view()[i]
                &&& final(self).tasks_view() == old(self).tasks_view().remove(i)
            },
            r.1@ == if old(self).pool_view().running(id) {
                if has_task(old(self).tasks_view(), id) {
                    seq![BuildEffect::Worker(PoolEffect::Abort { task_id: id }), BuildEffect::EmitRemoved { task_id: id }]
                } else {
                    seq![BuildEffect::Worker(PoolEffect::Abort { task_id: id })]
                }
            } else {
                if has_task(old(self).tasks_view(), id) {
                    seq![BuildEffect::EmitRemoved { task_id: id }]
                } else {
                    Seq::empty()
                }
            },
    {
        let mut effects: Vec<BuildEffect> = Vec::new();
        let pool_effects = self.workers.stop(&id);
        if pool_effects.len() > 0 {
            effects.push(BuildEffect::Worker(PoolEffect::Abort { task_id: id }));
        }
        self.workers.remove(&id);
        proof {
            assert(self.workers_view() =~= old(self).workers_view().remove(id.0));
        }
        let i = match self.find(id) {
            Some(i) => i,
            None => return (Err(OrchestratorError::TaskNotFound(id)), effects),
        };
        let rec = self.tasks.remove(i);
        proof {
            let o = old(self).tasks_view();
            let s = self.tasks_view();
            assert(s =~= o.remove(i as int));
            assert forall|a: int, b: int| 0 <= a < b < s.len() implies rec_id(s[a]).0 < rec_id(s[b]).0 by {
                let a2 = if a < i { a } else { a + 1 };
                let b2 = if b < i { b } else { b + 1 };
                assert(s[a] == o[a2]);
                assert(s[b] == o[b2]);
            }
            assert forall|a: int| 0 <= a < s.len() implies (#[trigger] rec_id(s[a])).0 < self.next_id_view() by {
                let a2 = if a < i { a } else { a + 1 };
                assert(s[a] == o[a2]);
            }
            assert(rec_id(o[i as int]) == id);
            assert forall|a: int| 0 <= a < s.len() implies #[trigger] rec_id(s[a]) != id by {
                let a2 = if a < i { a } else { a + 1 };
                assert(s[a] == o[a2]);
                if a < i {
                    assert(rec_id(o[a2]).0 < rec_id(o[i as int]).0);
                } else {
                    assert(rec_id(o[i as int]).0 < rec_id(o[a2]).0);
                }
            }
        }
        effects.push(BuildEffect::EmitRemoved { task_id: id });
        (Ok(rec), effects)
    }

    /// A poll result from a worker: its restart state is cleared (it survived a
    /// poll), the task takes the result in and is active.
    pub fn on_facts(&mut self, id: TaskId, result: Response<O>, metrics: Metrics) -> (effects: Vec<BuildEffect>)
        requires
            old(self).wf(),
            result is NoResponse ==> old(self).poll_room(id),
        ensures
            final(self).wf(),
            final(self).next_id_view() == old(self).next_id_view(),
            old(self).workers_view().contains_key(id.0) ==> final(self).workers_view() == old(self).workers_view().insert(
                id.0,
                WorkerRuntime { restart: fresh_restart(), ..old(self).workers_view()[id.0] },
            ),
            !old(self).workers_view().contains_key(id.0) ==> final(self).workers_view() == old(self).workers_view(),
            !has_task(old(self).tasks_view(), id) ==> final(self).tasks_view() == old(self).tasks_view() && effects@.len() == 0,
            has_task(old(self).tasks_view(), id) ==> ({
                let s = old(self).tasks_view();
                let i = task_index(s, id);
                let n = final(self).tasks_view()[i];
                &&& recs_others(s, final(self).tasks_view(), i)
                &&& n.task.polled_from(&s[i].task, result, metrics)
                &&& n.status == TaskStatus::Active
                &&& n.pending_build == s[i].pending_build
                &&& effects@ == seq![BuildEffect::Emit { task_id: id, kind: ChangeKind::Polled }]
            }),
    {
        self.workers.reset_restart(&id);
        let mut effects: Vec<BuildEffect> = Vec::new();
        let i = match self.find(id) {
            Some(i) => i,
            None => return effects,
        };
        proof {
            assert(rec_id(self.tasks_view()[i as int]) == id);
        }
        self.tasks[i].task.apply_poll(result, metrics);
        self.tasks[i].status = TaskStatus::Active;
        proof {
            lemma_recs_replace(old(self).tasks_view(), self.tasks_view(), i as int, self.next_id_view());
        }
        effects.push(BuildEffect::Emit { task_id: id, kind: ChangeKind::Polled });
        effects
    }

    /// A worker ended at time `now`. After reaching its limit the task is
    /// rate-limited; after a failure a restart is scheduled for the backoff
    /// delay after `now` and the task is restarting (nothing happens for a
    /// task without a worker slot).
    pub fn on_exit(&mut self, id: TaskId, finished: WorkerFinished, now: i64) -> (effects: Vec<BuildEffect>)
        requires
            old(self).wf(),
            finished is Failed ==> old(self).restart_room(id),
        ensures
            final(self).wf(),
            final(self).next_id_view() == old(self).next_id_view(),
            ({
                let s = old(self).tasks_view();
                let i = task_index(s, id);
                match finished {
                    WorkerFinished::Completed => {
                        &&& final(self).workers_view() == stopped_slots(old(self).workers_view(), id.0)
                        &&& if has_task(s, id) {
                            &&& recs_others(s, final(self).tasks_view(), i)
                            &&& final(self).tasks_view()[i] == TaskRecord { status: TaskStatus::RatedLimit, ..s[i] }
                            &&& effects@ == seq![BuildEffect::Emit { task_id: id, kind: ChangeKind::Completed }]
                        } else {
                            &&& final(self).tasks_view() == s
                            &&& effects@.len() == 0
                        }
                    },
                    WorkerFinished::Failed(reason) => if !old(self).workers_view().contains_key(id.0) {
                        &&& final(self).tasks_view() == s
                        &&& final(self).workers_view() == old(self).workers_view()
                        &&& effects@.len() == 0
                    } else {
                        &&& final(self).workers_view() == restarted_slots(
                            old(self).workers_view(),
                            id.0,
                            old(self).pool_view().policy_view(),
                            now,
                        )
                        &&& if has_task(s, id) {
                            &&& recs_others(s, final(self).tasks_view(), i)
                            &&& final(self).tasks_view()[i] == TaskRecord { status: TaskStatus::Restarting, ..s[i] }
                            &&& effects@ == seq![BuildEffect::Emit { task_id: id, kind: ChangeKind::Failed { reason } }]
                        } else {
                            &&& final(self).tasks_view() == s
                            &&& effects@.len() == 0
                        }
                    },
                }
            }),
    {
        let mut effects: Vec<BuildEffect> = Vec::new();
        match finished {
            WorkerFinished::Completed => {
                self.workers.mark_stopped(&id);
                proof {
                    assert(self.workers_view().dom() =~= old(self).workers_view().dom());
                }
                let i = match self.find(id) {
                    Some(i) => i,
                    None => return effects,
                };
                proof {
                    assert(rec_id(self.tasks_view()[i as int]) == id);
                }
                self.tasks[i].status = TaskStatus::RatedLimit;
                proof {
                    lemma_recs_replace(old(self).tasks_view(), self.tasks_view(), i as int, self.next_id_view());
                }
                effects.push(BuildEffect::Emit { task_id: id, kind: ChangeKind::Completed });
                effects
            },
            WorkerFinished::Failed(reason) => {
                match self.workers.schedule_restart(&id, now) {
                    Some(_) => {},
                    None => return effects,
                }
                let i = match self.find(id) {
                    Some(i) => i,
                    None => return effects,
                };
                proof {
                    assert(rec_id(self.tasks_view()[i as int]) == id);
                }
                self.tasks[i].status = TaskStatus::Restarting;
                proof {
                    lemma_recs_replace(old(self).tasks_view(), self.tasks_view(), i as int, self.next_id_view());
                }
                effects.push(BuildEffect::Emit { task_id: id, kind: ChangeKind::Failed { reason } });
                effects
            },
        }
    }

    /// An adapter build finished. The pending build is cleared. A removed task
    /// drops the result; a task whose spec changed meanwhile is rebuilt once.
    /// On success the worker starts and the task is active (announced as a
    /// restart if it was restarting); on a failure at time `now` the task is
    /// restarting and the build is retried once the backoff delay after `now`
    /// has passed.
    pub fn on_built(&mut self, task_id: TaskId, revision: SpecRevision, result: Result<(), String>, now: i64) -> (effects: Vec<BuildEffect>)
        requires
            old(self).wf(),
            result is Err ==> old(self).restart_room(task_id),
        ensures
            final(self).wf(),
            final(self).next_id_view() == old(self).next_id_view(),
            ({
                let s = old(self).tasks_view();
                let i = task_index(s, task_id);
                let n = final(self).tasks_view()[i];
                if !has_task(s, task_id) {
                    &&& final(self).tasks_view() == s
                    &&& final(self).workers_view() == old(self).workers_view()
                    &&& effects@.len() == 0
                } else if revision != s[i].task.spec_view().revision_view() {
                    &&& recs_others(s, final(self).tasks_view(), i)
                    &&& n == TaskRecord { pending_build: true, ..s[i] }
                    &&& final(self).workers_view() == building_slots(old(self).workers_view(), task_id.0)
                    &&& effects@ == seq![BuildEffect::Build { task_id, revision: s[i].task.spec_view().revision_view() }]
                } else {
                    &&& recs_others(s, final(self).tasks_view(), i)
                    &&& n.task == s[i].task
                    &&& !n.pending_build
                    &&& match result {
                        Ok(()) => {
                            &&& n.status == TaskStatus::Active
                            &&& final(self).workers_view() == launched_slots(old(self).workers_view(), task_id.0)
                            &&& effects@ == (if old(self).pool_view().running(task_id) {
                                seq![BuildEffect::Worker(PoolEffect::Abort { task_id })]
                            } else {
                                Seq::empty()
                            }) + seq![
                                BuildEffect::Worker(PoolEffect::Launch { task_id }),
                                BuildEffect::Emit {
                                    task_id,
                                    kind: if s[i].status == TaskStatus::Restarting { ChangeKind::Restarted } else { ChangeKind::Started },
                                },
                            ]
                        },
                        Err(reason) => {
                            &&& n.status == TaskStatus::Restarting
                            &&& final(self).workers_view() == retried_slots(
                                old(self).workers_view(),
                                task_id.0,
                                old(self).pool_view().policy_view(),
                                now,
                            )
                            &&& effects@ == seq![BuildEffect::Emit { task_id, kind: ChangeKind::BuildFailed { reason } }]
                        },
                    }
                }
            }),
    {
        let mut effects: Vec<BuildEffect> = Vec::new();
        let i = match self.find(task_id) {
            Some(i) => i,
            None => return effects,
        };
        proof {
            assert(rec_id(self.tasks_view()[i as int]) == task_id);
        }
        self.tasks[i].pending_build = false;
        proof {
            lemma_recs_replace(old(self).tasks_view(), self.tasks_view(), i as int, self.next_id_view());
            lemma_rec_index(self.tasks_view(), self.next_id_view(), i as int);
        }
        let current = self.tasks[i].task.spec().revision();
        if revision.0 != current.0 {
            self.schedule_build(task_id, &mut effects);
            return effects;
        }
        match result {
            Ok(()) => {
                let pool_effects = self.workers.spawn(task_id);
                if pool_effects.len() == 2 {
                    effects.push(BuildEffect::Worker(PoolEffect::Abort { task_id }));
                }
                effects.push(BuildEffect::Worker(PoolEffect::Launch { task_id }));
                let kind = match self.tasks[i].status {
                    TaskStatus::Restarting => ChangeKind::Restarted,
                    _ => ChangeKind::Started,
                };
                self.tasks[i].status = TaskStatus::Active;
                proof {
                    lemma_recs_replace(old(self).tasks_view(), self.tasks_view(), i as int, self.next_id_view());
                }
                effects.push(BuildEffect::Emit { task_id, kind });
                proof {
                    let pre = if old(self).pool_view().running(task_id) {
                        seq![BuildEffect::Worker(PoolEffect::Abort { task_id })]
                    } else {
                        Seq::empty()
                    };
                    assert(effects@ =~= pre + seq![
                        BuildEffect::Worker(PoolEffect::Launch { task_id }),
                        BuildEffect::Emit { task_id, kind },
                    ]);
                }
                effects
            },
            Err(reason) => {
                self.tasks[i].status = TaskStatus::Restarting;
                proof {
                    lemma_recs_replace(old(self).tasks_view(), self.tasks_view(), i as int, self.next_id_view());
                }
                self.workers.retry_later(&task_id, now);
                effects.push(BuildEffect::Emit { task_id, kind: ChangeKind::BuildFailed { reason } });
                effects
            },
        }
    }

    /// Periodic tick: every task whose backoff expired at `now` gets a build
    /// (unless one is pending or the task is gone).
    pub fn on_tick(&mut self, now: i64) -> (effects: Vec<BuildEffect>)
        requires
            old(self).wf(),
        ensures
            final(self).wf(),
            final(self).next_id_view() == old(self).next_id_view(),
            final(self).tasks_view().len() == old(self).tasks_view().len(),
            forall|i: int| 0 <= i < final(self).tasks_view().len() ==> {
                let o = #[trigger] old(self).tasks_view()[i];
                let n = final(self).tasks_view()[i];
                let due = old(self).workers_view().contains_key(rec_id(o).0)
                    && crate::orchestrator::supervisor::is_due(old(self).workers_view()[rec_id(o).0], now);
                &&& n.task == o.task
                &&& n.status == o.status
                &&& n.pending_build == (o.pending_build || due)
            },
            effects@.no_duplicates(),
            forall|k: int| 0 <= k < effects@.len() ==> owed_build(old(self).tasks_view(), old(self).workers_view(), now, #[trigger] effects@[k]),
            forall|i: int|
                0 <= i < old(self).tasks_view().len() && !(#[trigger] old(self).tasks_view()[i]).pending_build
                    && old(self).workers_view().contains_key(rec_id(old(self).tasks_view()[i]).0)
                    && crate::orchestrator::supervisor::is_due(old(self).workers_view()[rec_id(old(self).tasks_view()[i]).0], now)
                    ==> effects@.contains(BuildEffect::Build {
                        task_id: rec_id(old(self).tasks_view()[i]),
                        revision: old(self).tasks_view()[i].task.spec_view().revision_view(),
                    }),
    {
        let due = self.workers.due_restarts(now);
        let mut effects: Vec<BuildEffect> = Vec::new();
        for k in 0..due.len()
            invariant
                self.wf(),
                self.next_id_view() == old(self).next_id_view(),
                self.tasks_view().len() == old(self).tasks_view().len(),
                forall|j: int| 0 <= j < self.tasks_view().len() ==> rec_id(#[trigger] self.tasks_view()[j]) == rec_id(old(self).tasks_view()[j]),
                forall|x: u64| #[trigger] due@.contains(TaskId(x)) <==> (old(self).workers_view().contains_key(x)
                    && crate::orchestrator::supervisor::is_due(old(self).workers_view()[x], now)),
                forall|i: int| 0 <= i < self.tasks_view().len() ==> {
                    let o = #[trigger] old(self).tasks_view()[i];
                    let n = self.tasks_view()[i];
                    let seen = exists|j: int| 0 <= j < k && due@[j] == rec_id(o);
                    &&& n.task == o.task
                    &&& n.status == o.status
                    &&& n.pending_build == (o.pending_build || seen)
                },
                due@.no_duplicates(),
                effects@.no_duplicates(),
                forall|q: int| 0 <= q < effects@.len() ==> owed_build(old(self).tasks_view(), old(self).workers_view(), now, #[trigger] effects@[q]),
                forall|q: int| 0 <= q < effects@.len() ==> (#[trigger] effects@[q] matches BuildEffect::Build { task_id, .. }
                    && exists|j: int| 0 <= j < k && due@[j] == task_id),
                forall|i: int|
                    0 <= i < old(self).tasks_view().len() && !(#[trigger] old(self).tasks_view()[i]).pending_build
                        && (exists|j: int| 0 <= j < k && due@[j] == rec_id(old(self).tasks_view()[i]))
                        ==> effects@.contains(BuildEffect::Build {
                            task_id: rec_id(old(self).tasks_view()[i]),
                            revision: old(self).tasks_view()[i].task.spec_view().revision_view(),
                        }),
        {
            let id = due[k];
            let ghost before = self.tasks_view();
            let ghost before_eff = effects@;
            self.schedule_build(id, &mut effects);
            proof {
                let s = self.tasks_view();
                assert forall|i: int| 0 <= i < s.len() implies {
                    let o = #[trigger] old(self).tasks_view()[i];
                    let n = s[i];
                    let seen = exists|j: int| 0 <= j < k + 1 && due@[j] == rec_id(o);
                    &&& n.task == o.task
                    &&& n.status == o.status
                    &&& n.pending_build == (o.pending_build || seen)
                } by {
                    let o = old(self).tasks_view()[i];
                    let seen_before = exists|j: int| 0 <= j < k && due@[j] == rec_id(o);
                    assert(rec_id(before[i]) == rec_id(o));
                    if rec_id(o) == id {
                        lemma_rec_index(before, self.next_id_view(), i);
                        assert(due@[k as int] == rec_id(o));
                    } else {
                        if has_task(before, id) {
                            let t = task_index(before, id);
                            assert(t != i);
                        }
                        if exists|j: int| 0 <= j < k + 1 && due@[j] == rec_id(o) {
                            let j = choose|j: int| 0 <= j < k + 1 && due@[j] == rec_id(o);
                            assert(j != k);
                        }
                    }
                }
                assert forall|j: int| 0 <= j < s.len() implies rec_id(#[trigger] s[j]) == rec_id(old(self).tasks_view()[j]) by {
                    assert(rec_id(before[j]) == rec_id(old(self).tasks_view()[j]));
                }
                assert(!(exists|j: int| 0 <= j < k && due@[j] == id)) by {
                    if exists|j: int| 0 <= j < k && due@[j] == id {
                        let j = choose|j: int| 0 <= j < k && due@[j] == id;
                        assert(due@[j] == due@[k as int]);
                    }
                }
                assert forall|q: int| 0 <= q < effects@.len() implies owed_build(
                    old(self).tasks_view(),
                    old(self).workers_view(),
                    now,
                    #[trigger] effects@[q],
                ) by {
                    if q >= before_eff.len() {
                        let t = task_index(before, id);
                        assert(rec_id(before[t]) == id);
                        assert(rec_id(old(self).tasks_view()[t]) == id);
                        assert(due@.contains(TaskId(id.0))) by {
                            assert(due@[k as int] == TaskId(id.0));
                        }
                    } else {
                        assert(effects@[q] == before_eff[q]);
                    }
                }
                assert forall|i: int|
                    0 <= i < old(self).tasks_view().len() && !(#[trigger] old(self).tasks_view()[i]).pending_build
                        && (exists|j: int| 0 <= j < k + 1 && due@[j] == rec_id(old(self).tasks_view()[i]))
                        implies effects@.contains(BuildEffect::Build {
                            task_id: rec_id(old(self).tasks_view()[i]),
                            revision: old(self).tasks_view()[i].task.spec_view().revision_view(),
                        }) by {
                    let o = old(self).tasks_view()[i];
                    let b = BuildEffect::Build { task_id: rec_id(o), revision: o.task.spec_view().revision_view() };
                    let j = choose|j: int| 0 <= j < k + 1 && due@[j] == rec_id(o);
                    if j < k {
                        assert(before_eff.contains(b));
                        let w = choose|w: int| 0 <= w < before_eff.len() && before_eff[w] == b;
                        assert(effects@[w] == b);
                    } else {
                        assert(rec_id(before[i]) == id);
                        lemma_rec_index(before, self.next_id_view(), i);
                        assert(!before[i].pending_build);
                        assert(effects@[effects@.len() - 1] == b);
                    }
                }
            }
        }
        proof {
            assert forall|i: int| 0 <= i < self.tasks_view().len() implies {
                let o = #[trigger] old(self).tasks_view()[i];
                let n = self.tasks_view()[i];
                let due_now = old(self).workers_view().contains_key(rec_id(o).0)
                    && crate::orchestrator::supervisor::is_due(old(self).workers_view()[rec_id(o).0], now);
                n.pending_build == (o.pending_build || due_now)
            } by {
                let o = old(self).tasks_view()[i];
                if due@.contains(TaskId(rec_id(o).0)) {
                    let j = choose|j: int| 0 <= j < due@.len() && due@[j] == TaskId(rec_id(o).0);
                    assert(due@[j] == rec_id(o));
                }
            }
        }
        effects
    }

    /// Stops every worker and drops every pending restart; the loop then ends.
    pub fn shutdown(&mut self) -> (effects: Vec<BuildEffect>)
        requires
            old(self).wf(),
        ensures
            final(self).wf(),
            final(self).tasks_view() == old(self).tasks_view(),
            final(self).next_id_view() == old(self).next_id_view(),
            final(self).workers_view().dom() == old(self).workers_view().dom(),
            forall|k: u64| #[trigger] final(self).workers_view().contains_key(k) ==> final(self).workers_view()[k]
                == crate::orchestrator::supervisor::fresh_runtime(),
            forall|k: u64| #[trigger] effects@.contains(BuildEffect::Worker(PoolEffect::Abort { task_id: TaskId(k) }))
                <==> old(self).pool_view().running(TaskId(k)),
            forall|i: int| 0 <= i < effects@.len() ==> (#[trigger] effects@[i]) matches BuildEffect::Worker(PoolEffect::Abort { .. }),
    {
        let pool_effects = self.workers.stop_all();
        let mut effects: Vec<BuildEffect> = Vec::new();
        for k in 0..pool_effects.len()
            invariant
                effects@.len() == k,
                forall|i: int| 0 <= i < k ==> effects@[i] == BuildEffect::Worker(#[trigger] pool_effects@[i]),
        {
            effects.push(BuildEffect::Worker(pool_effects[k]));
        }
        proof {
            assert forall|x: u64| #[trigger] effects@.contains(BuildEffect::Worker(PoolEffect::Abort { task_id: TaskId(x) }))
                <==> pool_effects@.contains(PoolEffect::Abort { task_id: TaskId(x) }) by {
                if effects@.contains(BuildEffect::Worker(PoolEffect::Abort { task_id: TaskId(x) })) {
                    let w = choose|w: int| 0 <= w < effects@.len() && effects@[w] == BuildEffect::Worker(PoolEffect::Abort { task_id: TaskId(x) });
                    assert(pool_effects@[w] == PoolEffect::Abort { task_id: TaskId(x) });
                }
                if pool_effects@.contains(PoolEffect::Abort { task_id: TaskId(x) }) {
                    let w = choose|w: int| 0 <= w < pool_effects@.len() && pool_effects@[w] == PoolEffect::Abort { task_id: TaskId(x) };
                    assert(effects@[w] == BuildEffect::Worker(PoolEffect::Abort { task_id: TaskId(x) }));
                }
            }
            assert forall|i: int| 0 <= i < effects@.len() implies (#[trigger] effects@[i]) matches BuildEffect::Worker(PoolEffect::Abort { .. }) by {
                assert(pool_effects@[i] is Abort);
            }
        }
        effects
    }
}

} // verus!
