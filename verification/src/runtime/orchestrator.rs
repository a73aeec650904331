use vstd::prelude::*;
use crate::event::ChangeKind;
use crate::ids::{TaskId, TaskStatus};
use crate::polling::{Metrics, Response};
use crate::restart_policy::RestartPolicy;
use crate::spec::TaskConfig;
use crate::task::Task;
use crate::runtime::worker::{Generation, WorkerCmd, WorkerReport, report_key};

verus! {

/// Run state of a task inside the orchestrator.
#[derive(Clone, Copy, Debug, PartialEq, Eq, Structural)]
pub enum TaskState {
    Idle,
    Starting,
    Active,
    Paused,
    Restarting,
    Completed,
    Stopped,
}

/// Errors of orchestrator commands.
#[derive(Clone, Debug, PartialEq, Eq)]
pub enum OrchestratorError {
    TaskNotFound(TaskId),
    ChannelClosed,
}

/// One task with its run state. `worker` is the generation of the live worker, if any.
pub struct TaskEntry<Q, O> {
    pub task: Task<Q, O>,
    pub state: TaskState,
    pub attempts: u32,
    pub next_generation: Generation,
    pub worker: Option<Generation>,
}

/// What the caller must carry out after a decision, in order.
#[derive(Clone, Debug, PartialEq, Eq)]
pub enum Effect {
    /// Start a worker for the task's current spec, tagged with `generation`.
    SpawnWorker { task_id: TaskId, generation: Generation },
    /// Abort the worker of that generation.
    AbortWorker { task_id: TaskId, generation: Generation },
    /// Forward a pace command to the live worker.
    SendToWorker { task_id: TaskId, generation: Generation, cmd: WorkerCmd },
    /// Publish a change of the task; the view shows `status` and the task's data.
    Emit { task_id: TaskId, kind: ChangeKind, status: TaskStatus },
    /// Publish the removal of the task that the command handed back.
    EmitRemoved { task_id: TaskId, status: TaskStatus },
    /// After `delay_ms`, feed `maybe_respawn(task_id)` back in.
    ScheduleRespawn { task_id: TaskId, delay_ms: u64 },
}

/// Status shown for a run state.
pub open spec fn status_of(s: TaskState) -> TaskStatus {
    match s {
        TaskState::Idle => TaskStatus::Idle,
        TaskState::Starting => TaskStatus::Starting,
        TaskState::Active => TaskStatus::Active,
        TaskState::Paused => TaskStatus::Paused,
        TaskState::Restarting => TaskStatus::Restarting,
        TaskState::Completed => TaskStatus::Completed,
        TaskState::Stopped => TaskStatus::Stopped,
    }
}

/// Distinct run states are shown as distinct statuses, and a task is shown
/// active, completed or restarting exactly in the state of that name.
pub proof fn lemma_status_tells_state(a: TaskState, b: TaskState)
    ensures
        a != b ==> status_of(a) != status_of(b),
        (status_of(a) == TaskStatus::Active) <==> (a == TaskState::Active),
        (status_of(a) == TaskStatus::Completed) <==> (a == TaskState::Completed),
        (status_of(a) == TaskStatus::Restarting) <==> (a == TaskState::Restarting),
{
}

pub fn status(state: TaskState) -> (s: TaskStatus)
    ensures
        s == status_of(state),
{
    match state {
        TaskState::Idle => TaskStatus::Idle,
        TaskState::Starting => TaskStatus::Starting,
        TaskState::Active => TaskStatus::Active,
        TaskState::Paused => TaskStatus::Paused,
        TaskState::Restarting => TaskStatus::Restarting,
        TaskState::Completed => TaskStatus::Completed,
        TaskState::Stopped => TaskStatus::Stopped,
    }
}

pub open spec fn entry_id<Q, O>(e: TaskEntry<Q, O>) -> TaskId {
    e.task.id_view()
}

pub open spec fn has_id<Q, O>(s: Seq<TaskEntry<Q, O>>, id: TaskId) -> bool {
    exists|i: int| 0 <= i < s.len() && #[trigger] entry_id(s[i]) == id
}

pub open spec fn index_of<Q, O>(s: Seq<TaskEntry<Q, O>>, id: TaskId) -> int {
    choose|i: int| 0 <= i < s.len() && #[trigger] entry_id(s[i]) == id
}

/// Ids strictly increase along the sequence.
pub open spec fn ids_increasing<Q, O>(s: Seq<TaskEntry<Q, O>>) -> bool {
    forall|i: int, j: int| 0 <= i < j < s.len() ==> entry_id(s[i]).0 < entry_id(s[j]).0
}

/// All entries but number `i` are unchanged.
pub open spec fn others_unchanged<Q, O>(
    old: Seq<TaskEntry<Q, O>>,
    new: Seq<TaskEntry<Q, O>>,
    i: int,
) -> bool {
    &&& new.len() == old.len()
    &&& forall|j: int| 0 <= j < old.len() && j != i ==> new[j] == old[j]
}

/// The poll limit is set and reached.
pub open spec fn limit_reached_spec<Q, O>(e: TaskEntry<Q, O>) -> bool {
    e.task.limit_view() > 0 && e.task.metrics_view().total_attempts >= e.task.limit_view()
}

/// `new` is `old` with a fresh worker spawned.
pub open spec fn spawned<Q, O>(old: TaskEntry<Q, O>, new: TaskEntry<Q, O>) -> bool {
    &&& new.worker == Some(old.next_generation)
    &&& new.next_generation.0 == old.next_generation.0 + 1
}

/// A spawn hands out a generation never handed out before: the entry's next
/// generation, which lies above every generation given to an earlier worker
/// of the task (the live one included, by the entries' invariant) and below
/// the new next generation, so the next spawn is above it in turn.
pub proof fn lemma_spawn_fresh_generation<Q, O>(old: TaskEntry<Q, O>, new: TaskEntry<Q, O>, earlier: Generation)
    requires
        spawned(old, new),
        earlier.0 < old.next_generation.0,
    ensures
        new.worker == Some(old.next_generation),
        earlier.0 < old.next_generation.0 < new.next_generation.0,
        new.worker != Some(earlier),
{
}

/// Task data (spec, result, history, metrics, health) is untouched.
pub open spec fn same_task<Q, O>(old: TaskEntry<Q, O>, new: TaskEntry<Q, O>) -> bool {
    new.task == old.task
}

/// Run states from which `start` launches a worker.
pub open spec fn startable(s: TaskState) -> bool {
    s == TaskState::Idle || s == TaskState::Stopped || s == TaskState::Completed
}

/// Run states in which a spec update relaunches the worker.
pub open spec fn respawn_on_update(s: TaskState) -> bool {
    s == TaskState::Starting || s == TaskState::Active || s == TaskState::Restarting
}

/// `start` launches a worker exactly for a task that is idle, stopped or
/// completed: a finished task can be started again, a running, restarting or
/// paused one is left as it is.
pub proof fn lemma_start_launches_finished_tasks(s: TaskState)
    ensures
        s == TaskState::Idle ==> startable(s),
        s == TaskState::Stopped ==> startable(s),
        s == TaskState::Completed ==> startable(s),
        s == TaskState::Starting ==> !startable(s),
        s == TaskState::Active ==> !startable(s),
        s == TaskState::Restarting ==> !startable(s),
        s == TaskState::Paused ==> !startable(s),
{
}

/// A spec update relaunches the worker exactly of a task that is starting,
/// active or restarting, so a running task never keeps polling with the old
/// spec; an idle, stopped, completed or paused task gets no new worker.
pub proof fn lemma_update_relaunches_running_tasks(s: TaskState)
    ensures
        s == TaskState::Starting ==> respawn_on_update(s),
        s == TaskState::Active ==> respawn_on_update(s),
        s == TaskState::Restarting ==> respawn_on_update(s),
        s == TaskState::Idle ==> !respawn_on_update(s),
        s == TaskState::Stopped ==> !respawn_on_update(s),
        s == TaskState::Completed ==> !respawn_on_update(s),
        s == TaskState::Paused ==> !respawn_on_update(s),
{
}

/// Every poll counts toward the limit, answered or not: it adds one to the
/// total attempts (saturating), so a task whose limit is `k > 0` reaches it
/// after `k` polls from fresh metrics, whatever their outcomes.
pub proof fn lemma_every_poll_counts<O>(m: Metrics, r: Response<O>)
    ensures
        metrics_after(m, r).total_attempts == if m.total_attempts == u64::MAX {
            u64::MAX as int
        } else {
            m.total_attempts + 1
        },
        m.total_attempts < u64::MAX ==> metrics_after(m, r).total_attempts > m.total_attempts,
{
}

/// The limit is reached exactly when it is set and the total attempts, which
/// count every poll, are at least the limit.
pub proof fn lemma_limit_counts_every_poll<Q, O>(e: TaskEntry<Q, O>)
    ensures
        limit_reached_spec(e) <==> (e.task.limit_view() > 0 && e.task.metrics_view().total_attempts
            >= e.task.limit_view()),
        e.task.limit_view() > 0 && e.task.metrics_view().successful == 0 && e.task.metrics_view().total_attempts
            >= e.task.limit_view() ==> limit_reached_spec(e),
{
}

/// Abort effects for an optional worker, as a sequence.
pub open spec fn abort_of(id: TaskId, w: Option<Generation>) -> Seq<Effect> {
    match w {
        Some(g) => seq![Effect::AbortWorker { task_id: id, generation: g }],
        None => Seq::empty(),
    }
}

pub open spec fn metrics_after<O>(m: Metrics, r: Response<O>) -> Metrics {
    match r {
        Response::Success { elapsed_ms, .. } => m.success_spec(elapsed_ms),
        Response::NoResponse { .. } => m.error_spec(),
    }
}

pub open spec fn entries_wf<Q, O>(s: Seq<TaskEntry<Q, O>>, next_id: u64) -> bool {
    &&& ids_increasing(s)
    &&& forall|i: int| 0 <= i < s.len() ==> (#[trigger] entry_id(s[i])).0 < next_id
    &&& forall|i: int|
        0 <= i < s.len() ==> (#[trigger] s[i].worker matches Some(g) ==> g.0
            < s[i].next_generation.0)
}

/// Replacing entry `i` by one with the same id and a consistent worker keeps the entries well formed.
pub proof fn lemma_wf_replace<Q, O>(
    old: Seq<TaskEntry<Q, O>>,
    new: Seq<TaskEntry<Q, O>>,
    i: int,
    next_id: u64,
)
    requires
        entries_wf(old, next_id),
        0 <= i < old.len(),
        others_unchanged(old, new, i),
        entry_id(new[i]) == entry_id(old[i]),
        new[i].worker matches Some(g) ==> g.0 < new[i].next_generation.0,
    ensures
        entries_wf(new, next_id),
{
    assert forall|a: int, b: int| 0 <= a < b < new.len() implies entry_id(new[a]).0 < entry_id(
        new[b],
    ).0 by {
        assert(entry_id(new[a]) == entry_id(old[a]));
        assert(entry_id(new[b]) == entry_id(old[b]));
    }
    assert forall|a: int| 0 <= a < new.len() implies (#[trigger] entry_id(new[a])).0 < next_id by {
        assert(entry_id(new[a]) == entry_id(old[a]));
    }
    assert forall|a: int| 0 <= a < new.len() implies (#[trigger] new[a].worker matches Some(g)
        ==> g.0 < new[a].next_generation.0) by {
        if a != i {
            assert(new[a] == old[a]);
        }
    }
}

/// Abort effects for every live worker, in entry order.
pub open spec fn aborts_of<Q, O>(s: Seq<TaskEntry<Q, O>>) -> Seq<Effect>
    decreases s.len(),
{
    if s.len() == 0 {
        Seq::empty()
    } else {
        aborts_of(s.drop_last()) + abort_of(entry_id(s.last()), s.last().worker)
    }
}

/// The report comes from the live worker of a known task.
pub open spec fn report_applies<Q, O>(s: Seq<TaskEntry<Q, O>>, rep: WorkerReport<O>) -> bool {
    let (id, g) = report_key(rep);
    has_id(s, id) && s[index_of(s, id)].worker == Some(g)
}

/// Reports after which the worker is gone and the task backs off before a restart.
pub open spec fn is_failure<O>(rep: WorkerReport<O>) -> bool {
    match rep {
        WorkerReport::BuildFailed { .. } | WorkerReport::BuildTimeout { .. }
        | WorkerReport::BuildPanicked { .. } | WorkerReport::PollFailed { .. }
        | WorkerReport::PollPanicked { .. } | WorkerReport::WorkerPanicked { .. } => true,
        _ => false,
    }
}

/// Reports that grow a counter of their task when they apply: a failure
/// counts an attempt, a poll result feeds the health record.
pub open spec fn report_counts<O>(rep: WorkerReport<O>) -> bool {
    is_failure(rep) || rep is Polled
}

/// Whether a report grows a counter of its task when it applies (see `report_counts`).
pub fn counts<O>(rep: &WorkerReport<O>) -> (b: bool)
    ensures
        b == report_counts(*rep),
{
    match rep {
        WorkerReport::Built { .. } | WorkerReport::Paused { .. } | WorkerReport::Resumed { .. } => false,
        _ => true,
    }
}

/// The change announced for a failure report.
pub open spec fn failure_kind<O>(k: ChangeKind, rep: WorkerReport<O>) -> bool {
    match rep {
        WorkerReport::BuildFailed { reason, .. } => k == ChangeKind::BuildFailed { reason },
        WorkerReport::BuildTimeout { .. } => k matches ChangeKind::BuildFailed { reason } && reason@
            == "build timeout"@,
        WorkerReport::BuildPanicked { reason: why, .. } => k matches ChangeKind::Panicked { reason }
            && reason@ == "build: "@ + why@,
        WorkerReport::PollFailed { reason, .. } => k == ChangeKind::Failed { reason },
        WorkerReport::PollPanicked { reason: why, .. } => k matches ChangeKind::Panicked { reason }
            && reason@ == "poll: "@ + why@,
        WorkerReport::WorkerPanicked { reason: why, .. } => k matches ChangeKind::Panicked { reason }
            && reason@ == "worker: "@ + why@,
        _ => false,
    }
}

/// `prefix` followed by `reason`.
pub fn prefixed(prefix: &str, reason: String) -> (s: String)
    ensures
        s@ == prefix@ + reason@,
{
    let mut s = String::from_str(prefix);
    s.append(reason.as_str());
    s
}

/// In well-formed entries, the entry at `i` is the one found for its id.
pub proof fn lemma_index_of_entry<Q, O>(s: Seq<TaskEntry<Q, O>>, i: int)
    requires
        ids_increasing(s),
        0 <= i < s.len(),
    ensures
        has_id(s, entry_id(s[i])),
        index_of(s, entry_id(s[i])) == i,
{
    let id = entry_id(s[i]);
    assert(has_id(s, id));
    let j = index_of(s, id);
    if j < i {
        assert(entry_id(s[j]).0 < entry_id(s[i]).0);
    } else if j > i {
        assert(entry_id(s[i]).0 < entry_id(s[j]).0);
    }
}

/// Removing the task that was just added gives back the tasks as they were
/// before the addition.
pub proof fn lemma_remove_undoes_add<Q, O>(before: Seq<TaskEntry<Q, O>>, after_add: Seq<TaskEntry<Q, O>>, id: TaskId)
    requires
        ids_increasing(after_add),
        after_add.len() == before.len() + 1,
        after_add.drop_last() == before,
        entry_id(after_add.last()) == id,
    ensures
        has_id(after_add, id),
        after_add.remove(index_of(after_add, id)) == before,
{
    lemma_index_of_entry(after_add, after_add.len() - 1);
    assert(after_add.remove(after_add.len() - 1) =~= after_add.drop_last());
}

/// Once a task's worker is replaced by a new spawn, no report of the replaced
/// worker is ever applied: it carries a generation that is no longer live.
pub proof fn lemma_replaced_worker_ignored<Q, O>(
    old: Seq<TaskEntry<Q, O>>,
    new: Seq<TaskEntry<Q, O>>,
    next_id: u64,
    i: int,
    rep: WorkerReport<O>,
)
    requires
        entries_wf(old, next_id),
        entries_wf(new, next_id),
        0 <= i < old.len(),
        others_unchanged(old, new, i),
        entry_id(new[i]) == entry_id(old[i]),
        spawned(old[i], new[i]),
        old[i].worker is Some,
        report_key(rep) == (entry_id(old[i]), old[i].worker->0),
    ensures
        !report_applies(new, rep),
{
    lemma_index_of_entry(new, i);
}

/// A report applies only to the task's live worker: any report whose
/// generation differs from the live one leaves the orchestrator unchanged.
pub proof fn lemma_report_needs_live_generation<Q, O>(s: Seq<TaskEntry<Q, O>>, next_id: u64, i: int, rep: WorkerReport<O>)
    requires
        entries_wf(s, next_id),
        0 <= i < s.len(),
        report_key(rep).0 == entry_id(s[i]),
        s[i].worker != Some(report_key(rep).1),
    ensures
        !report_applies(s, rep),
{
    lemma_index_of_entry(s, i);
}

/// The task state machine of the orchestrator: single owner of task data and
/// run state. Commands and worker reports go in; effects come out.
pub struct Orchestrator<Q, O> {
    next_id: u64,
    entries: Vec<TaskEntry<Q, O>>,
    policy: RestartPolicy,
}

impl<Q, O> Orchestrator<Q, O> {
    pub closed spec fn entries_view(&self) -> Seq<TaskEntry<Q, O>> {
        self.entries@
    }

    pub closed spec fn next_id_view(&self) -> u64 {
        self.next_id
    }

    pub closed spec fn policy_view(&self) -> RestartPolicy {
        self.policy
    }

    /// Ids increase along the entries and lie below the next id; a live
    /// worker's generation lies below the entry's next generation.
    pub open spec fn wf(&self) -> bool {
        entries_wf(self.entries_view(), self.next_id_view())
    }

    /// A new worker of the task with `id` can get a generation.
    pub open spec fn generation_room(&self, id: TaskId) -> bool {
        let s = self.entries_view();
        forall|i: int| 0 <= i < s.len() && #[trigger] entry_id(s[i]) == id ==> s[i].next_generation.0 < u64::MAX
    }

    /// The spec of the task with `id` can take one more revision.
    pub open spec fn revision_room(&self, id: TaskId) -> bool {
        let s = self.entries_view();
        forall|i: int| 0 <= i < s.len() && #[trigger] entry_id(s[i]) == id ==> s[i].task.revision_view() < u64::MAX
    }

    /// The counter that `rep` grows, if it applies, can still grow: the
    /// restart attempts for a failure, the count of polls without an answer
    /// in a row for such a poll.
    pub open spec fn report_room(&self, rep: WorkerReport<O>) -> bool {
        let s = self.entries_view();
        let e = s[index_of(s, report_key(rep).0)];
        report_applies(s, rep) ==> {
            &&& is_failure(rep) ==> e.attempts < u32::MAX
            &&& (rep matches WorkerReport::Polled { response, .. } && response is NoResponse) ==> e.task.can_record_poll()
        }
    }

    pub fn new() -> (o: Orchestrator<Q, O>)
        ensures
            o.wf(),
            o.entries_view().len() == 0,
            o.next_id_view() == 1,
            o.policy_view() == RestartPolicy::default_spec(),
    {
        Orchestrator { next_id: 1, entries: Vec::new(), policy: RestartPolicy::default_policy() }
    }

    proof fn lemma_index_unique(&self, i: int, id: TaskId)
        requires
            self.wf(),
            0 <= i < self.entries_view().len(),
            entry_id(self.entries_view()[i]) == id,
        ensures
            has_id(self.entries_view(), id),
            index_of(self.entries_view(), id) == i,
    {
        let s = self.entries_view();
        assert(has_id(s, id));
        let j = index_of(s, id);
        if j < i {
            assert(entry_id(s[j]).0 < entry_id(s[i]).0);
        } else if j > i {
            assert(entry_id(s[i]).0 < entry_id(s[j]).0);
        }
    }

    /// Position of the task with `id`.
    fn find(&self, id: TaskId) -> (r: Option<usize>)
        requires
            self.wf(),
        ensures
            r matches Some(i) ==> i < self.entries_view().len() && index_of(
                self.entries_view(),
                id,
            ) == i && has_id(self.entries_view(), id),
            r is None ==> !has_id(self.entries_view(), id),
    {
        let mut i: usize = 0;
        while i < self.entries.len()
            invariant
                self.wf(),
                i <= self.entries@.len(),
                forall|j: int| 0 <= j < i ==> entry_id(#[trigger] self.entries@[j]) != id,
            decreases self.entries@.len() - i,
        {
            if self.entries[i].task.id().0 == id.0 {
                proof {
                    self.lemma_index_unique(i as int, id);
                }
                return Some(i);
            }
            i = i + 1;
        }
        None
    }

    /// The next task id is still below its maximum.
    pub fn can_add(&self) -> (b: bool)
        ensures
            b == (self.next_id_view() < u64::MAX),
    {
        self.next_id < u64::MAX
    }

    /// Number of tasks.
    pub fn len(&self) -> (n: usize)
        ensures
            n == self.entries_view().len(),
    {
        self.entries.len()
    }

    /// Task number `i` in id order.
    pub fn entry(&self, i: usize) -> (e: &TaskEntry<Q, O>)
        requires
            i < self.entries_view().len(),
        ensures
            *e == self.entries_view()[i as int],
    {
        &self.entries[i]
    }

    /// The task with `id`, if present.
    pub fn get(&self, id: TaskId) -> (r: Option<&TaskEntry<Q, O>>)
        requires
            self.wf(),
        ensures
            r is Some <==> has_id(self.entries_view(), id),
            r matches Some(e) ==> *e == self.entries_view()[index_of(self.entries_view(), id)],
    {
        match self.find(id) {
            Some(i) => Some(&self.entries[i]),
            None => None,
        }
    }

    /// Ids of all tasks in increasing order (the order of a snapshot).
    pub fn task_ids(&self) -> (ids: Vec<TaskId>)
        requires
            self.wf(),
        ensures
            ids@.len() == self.entries_view().len(),
            forall|i: int| 0 <= i < ids@.len() ==> ids@[i] == entry_id(self.entries_view()[i]),
            forall|i: int, j: int| 0 <= i < j < ids@.len() ==> ids@[i].0 < ids@[j].0,
    {
        let mut ids: Vec<TaskId> = Vec::new();
        for k in 0..self.entries.len()
            invariant
                self.wf(),
                ids@.len() == k,
                forall|i: int| 0 <= i < k ==> ids@[i] == entry_id(self.entries_view()[i]),
        {
            ids.push(self.entries[k].task.id());
        }
        ids
    }

    /// Whether a new worker of the task with `id` can get a generation (see `generation_room`).
    pub fn has_generation_room(&self, id: TaskId) -> (b: bool)
        requires
            self.wf(),
        ensures
            b == self.generation_room(id),
    {
        match self.find(id) {
            None => true,
            Some(i) => {
                let ok = self.entries[i].next_generation.0 < u64::MAX;
                proof {
                    if !ok {
                        assert(entry_id(self.entries_view()[i as int]) == id);
                    }
                }
                ok
            },
        }
    }

    /// Whether the spec of the task with `id` can take one more revision (see `revision_room`).
    pub fn has_revision_room(&self, id: TaskId) -> (b: bool)
        requires
            self.wf(),
        ensures
            b == self.revision_room(id),
    {
        match self.find(id) {
            None => true,
            Some(i) => {
                let ok = self.entries[i].task.spec().revision().0 < u64::MAX;
                proof {
                    if !ok {
                        assert(entry_id(self.entries_view()[i as int]) == id);
                    }
                }
                ok
            },
        }
    }

    /// Whether the counter that `rep` grows can still grow (see `report_room`).
    pub fn can_take(&self, rep: &WorkerReport<O>) -> (b: bool)
        requires
            self.wf(),
        ensures
            b == self.report_room(*rep),
    {
        let (task_id, generation) = rep.key();
        let i = match self.find(task_id) {
            Some(i) => i,
            None => return true,
        };
        let live = match self.entries[i].worker {
            Some(g) => g.0 == generation.0,
            None => false,
        };
        if !live {
            return true;
        }
        let e = &self.entries[i];
        let failure_ok = !counts(rep) || e.attempts < u32::MAX || match rep {
            WorkerReport::Polled { .. } => true,
            _ => false,
        };
        let poll_ok = match rep {
            WorkerReport::Polled { response: Response::NoResponse { .. }, .. } => e.task.health().consecutive_no_response < u32::MAX,
            _ => true,
        };
        failure_ok && poll_ok
    }

    /// Gives the task with `task_id` a worker of its next generation and hands
    /// out its spawn; an unknown task gets none.
    pub fn spawn_worker(&mut self, task_id: TaskId) -> (effects: Vec<Effect>)
        requires
            old(self).wf(),
            old(self).generation_room(task_id),
        ensures
            final(self).wf(),
            final(self).next_id_view() == old(self).next_id_view(),
            final(self).policy_view() == old(self).policy_view(),
            !has_id(old(self).entries_view(), task_id) ==> final(self).entries_view() == old(self).entries_view()
                && effects@.len() == 0,
            has_id(old(self).entries_view(), task_id) ==> ({
                let i = index_of(old(self).entries_view(), task_id);
                let o = old(self).entries_view()[i];
                let n = final(self).entries_view()[i];
                &&& others_unchanged(old(self).entries_view(), final(self).entries_view(), i)
                &&& spawned(o, n)
                &&& n.task == o.task
                &&& n.state == o.state
                &&& n.attempts == o.attempts
                &&& effects@ == seq![Effect::SpawnWorker { task_id, generation: o.next_generation }]
            }),
    {
        let mut effects: Vec<Effect> = Vec::new();
        let i = match self.find(task_id) {
            Some(i) => i,
            None => return effects,
        };
        proof {
            assert(entry_id(self.entries_view()[i as int]) == task_id);
        }
        let g = self.spawn_at(i);
        effects.push(Effect::SpawnWorker { task_id, generation: g });
        effects
    }

    /// Marks a worker of the next generation as live for entry `i`.
    fn spawn_at(&mut self, i: usize) -> (g: Generation)
        requires
            old(self).wf(),
            i < old(self).entries_view().len(),
            old(self).entries_view()[i as int].next_generation.0 < u64::MAX,
        ensures
            final(self).wf(),
            final(self).next_id_view() == old(self).next_id_view(),
            final(self).policy_view() == old(self).policy_view(),
            others_unchanged(old(self).entries_view(), final(self).entries_view(), i as int),
            g == old(self).entries_view()[i as int].next_generation,
            ({
                let o = old(self).entries_view()[i as int];
                let n = final(self).entries_view()[i as int];
                &&& spawned(o, n)
                &&& n.task == o.task
                &&& n.state == o.state
                &&& n.attempts == o.attempts
            }),
    {
        let g = self.entries[i].next_generation;
        self.entries[i].next_generation = g.next();
        self.entries[i].worker = Some(g);
        proof {
            lemma_wf_replace(
                old(self).entries_view(),
                self.entries_view(),
                i as int,
                self.next_id_view(),
            );
        }
        g
    }

    /// Registers a task in run state `Idle` under the next id.
    pub fn add_task(&mut self, config: TaskConfig<Q>) -> (r: (TaskId, Vec<Effect>))
        requires
            old(self).wf(),
            old(self).next_id_view() < u64::MAX,
        ensures
            final(self).wf(),
            final(self).policy_view() == old(self).policy_view(),
            r.0.0 == old(self).next_id_view(),
            !has_id(old(self).entries_view(), r.0),
            has_id(final(self).entries_view(), r.0),
            final(self).next_id_view() == old(self).next_id_view() + 1,
            final(self).entries_view().len() == old(self).entries_view().len() + 1,
            final(self).entries_view().drop_last() == old(self).entries_view(),
            ({
                let e = final(self).entries_view().last();
                &&& entry_id(e) == r.0
                &&& e.task.spec_view().config_view() == config
                &&& e.task.revision_view() == 1
                &&& e.task.last_result_view() is None
                &&& e.task.history_view().len() == 0
                &&& e.task.history_depth() == config.deep_history_view()
                &&& e.task.metrics_view().is_initial()
                &&& e.task.health_view().is_initial()
                &&& e.state == TaskState::Idle
                &&& e.attempts == 0
                &&& e.next_generation.0 == 0
                &&& e.worker is None
            }),
            r.1@ == seq![Effect::Emit { task_id: r.0, kind: ChangeKind::Added, status: TaskStatus::Idle }],
    {
        let id = TaskId(self.next_id);
        self.next_id = self.next_id + 1;
        let entry = TaskEntry {
            task: Task::new(id, config),
            state: TaskState::Idle,
            attempts: 0,
            next_generation: Generation::first(),
            worker: None,
        };
        self.entries.push(entry);
        proof {
            let s = self.entries_view();
            assert(s.drop_last() =~= old(self).entries_view());
            assert forall|a: int, b: int| 0 <= a < b < s.len() implies entry_id(s[a]).0 < entry_id(s[b]).0 by {
                if b == s.len() - 1 {
                    assert(entry_id(s[a]) == entry_id(old(self).entries_view()[a]));
                } else {
                    assert(s[a] == old(self).entries_view()[a]);
                    assert(s[b] == old(self).entries_view()[b]);
                }
            }
            assert forall|a: int| 0 <= a < s.len() implies (#[trigger] entry_id(s[a])).0 < self.next_id_view() by {
                if a < s.len() - 1 {
                    assert(s[a] == old(self).entries_view()[a]);
                }
            }
            assert forall|a: int| 0 <= a < s.len() implies (#[trigger] s[a].worker matches Some(g) ==> g.0 < s[a].next_generation.0) by {
                if a < s.len() - 1 {
                    assert(s[a] == old(self).entries_view()[a]);
                }
            }
        }
        proof {
            let s = self.entries_view();
            assert(entry_id(s[s.len() - 1]) == id);
            assert forall|a: int| 0 <= a < old(self).entries_view().len() implies #[trigger] entry_id(old(self).entries_view()[a]) != id by {}
        }
        let mut effects: Vec<Effect> = Vec::new();
        effects.push(Effect::Emit { task_id: id, kind: ChangeKind::Added, status: TaskStatus::Idle });
        (id, effects)
    }

    /// Starts a task that is idle, stopped or completed: fresh metrics and
    /// health, attempts cleared, a new worker. Otherwise nothing happens.
    pub fn start(&mut self, id: TaskId) -> (r: Result<Vec<Effect>, OrchestratorError>)
        requires
            old(self).wf(),
            old(self).generation_room(id),
        ensures
            final(self).wf(),
            final(self).next_id_view() == old(self).next_id_view(),
            final(self).policy_view() == old(self).policy_view(),
            !has_id(old(self).entries_view(), id) ==> r == Err::<Vec<Effect>, OrchestratorError>(
                OrchestratorError::TaskNotFound(id),
            ) && final(self).entries_view() == old(self).entries_view(),
            has_id(old(self).entries_view(), id) ==> r is Ok && ({
                let i = index_of(old(self).entries_view(), id);
                let o = old(self).entries_view()[i];
                let n = final(self).entries_view()[i];
                if o.state == TaskState::Idle || o.state == TaskState::Stopped || o.state == TaskState::Completed {
                    &&& others_unchanged(old(self).entries_view(), final(self).entries_view(), i)
                    &&& n.task.same_data(&o.task)
                    &&& n.task.metrics_view().is_initial()
                    &&& n.task.health_view().is_initial()
                    &&& n.state == TaskState::Starting
                    &&& n.attempts == 0
                    &&& spawned(o, n)
                    &&& r->Ok_0@ == seq![
                        Effect::SpawnWorker { task_id: id, generation: o.next_generation },
                        Effect::Emit { task_id: id, kind: ChangeKind::Starting, status: TaskStatus::Starting },
                    ]
                } else {
                    &&& final(self).entries_view() == old(self).entries_view()
                    &&& r->Ok_0@.len() == 0
                }
            }),
    {
        let i = match self.find(id) {
            Some(i) => i,
            None => return Err(OrchestratorError::TaskNotFound(id)),
        };
        let should_start = match self.entries[i].state {
            TaskState::Idle | TaskState::Stopped | TaskState::Completed => true,
            _ => false,
        };
        if !should_start {
            return Ok(Vec::new());
        }
        proof {
            assert(entry_id(self.entries_view()[i as int]) == id);
        }
        self.entries[i].task.reset_run();
        self.entries[i].attempts = 0;
        self.entries[i].state = TaskState::Starting;
        proof {
            lemma_wf_replace(old(self).entries_view(), self.entries_view(), i as int, self.next_id_view());
        }
        let g = self.spawn_at(i);
        let mut effects: Vec<Effect> = Vec::new();
        effects.push(Effect::SpawnWorker { task_id: id, generation: g });
        effects.push(Effect::Emit { task_id: id, kind: ChangeKind::Starting, status: TaskStatus::Starting });
        Ok(effects)
    }

    /// Pauses a task. A starting or active task with a live worker is asked to
    /// pause (the worker confirms with a report); without a worker, and for a
    /// restarting task, the task is paused at once. Other states: nothing.
    pub fn pause(&mut self, id: TaskId) -> (r: Result<Vec<Effect>, OrchestratorError>)
        requires
            old(self).wf(),
        ensures
            final(self).wf(),
            final(self).next_id_view() == old(self).next_id_view(),
            final(self).policy_view() == old(self).policy_view(),
            !has_id(old(self).entries_view(), id) ==> r == Err::<Vec<Effect>, OrchestratorError>(
                OrchestratorError::TaskNotFound(id),
            ) && final(self).entries_view() == old(self).entries_view(),
            has_id(old(self).entries_view(), id) ==> r is Ok && ({
                let i = index_of(old(self).entries_view(), id);
                let o = old(self).entries_view()[i];
                let n = final(self).entries_view()[i];
                let forward = (o.state == TaskState::Starting || o.state == TaskState::Active)
                    && o.worker is Some;
                let pause_now = ((o.state == TaskState::Starting || o.state == TaskState::Active)
                    && o.worker is None) || o.state == TaskState::Restarting;
                if forward {
                    &&& final(self).entries_view() == old(self).entries_view()
                    &&& r->Ok_0@ == seq![
                        Effect::SendToWorker { task_id: id, generation: o.worker->0, cmd: WorkerCmd::Pause },
                    ]
                } else if pause_now {
                    &&& others_unchanged(old(self).entries_view(), final(self).entries_view(), i)
                    &&& n == TaskEntry { state: TaskState::Paused, ..o }
                    &&& r->Ok_0@ == seq![
                        Effect::Emit { task_id: id, kind: ChangeKind::Paused, status: TaskStatus::Paused },
                    ]
                } else {
                    &&& final(self).entries_view() == old(self).entries_view()
                    &&& r->Ok_0@.len() == 0
                }
            }),
    {
        let i = match self.find(id) {
            Some(i) => i,
            None => return Err(OrchestratorError::TaskNotFound(id)),
        };
        let (forward, set_state) = match self.entries[i].state {
            TaskState::Starting | TaskState::Active => (
                self.entries[i].worker.is_some(),
                self.entries[i].worker.is_none(),
            ),
            TaskState::Restarting => (false, true),
            _ => (false, false),
        };
        let mut effects: Vec<Effect> = Vec::new();
        if forward {
            let g = self.entries[i].worker.unwrap();
            effects.push(Effect::SendToWorker { task_id: id, generation: g, cmd: WorkerCmd::Pause });
        }
        if set_state {
            proof {
                assert(entry_id(self.entries_view()[i as int]) == id);
            }
            self.entries[i].state = TaskState::Paused;
            proof {
                lemma_wf_replace(old(self).entries_view(), self.entries_view(), i as int, self.next_id_view());
            }
            effects.push(Effect::Emit { task_id: id, kind: ChangeKind::Paused, status: TaskStatus::Paused });
        }
        Ok(effects)
    }

    /// Resumes a paused task: a live worker is asked to resume; without one, a
    /// new worker is started and the task is starting again. Other states: nothing.
    pub fn resume(&mut self, id: TaskId) -> (r: Result<Vec<Effect>, OrchestratorError>)
        requires
            old(self).wf(),
            old(self).generation_room(id),
        ensures
            final(self).wf(),
            final(self).next_id_view() == old(self).next_id_view(),
            final(self).policy_view() == old(self).policy_view(),
            !has_id(old(self).entries_view(), id) ==> r == Err::<Vec<Effect>, OrchestratorError>(
                OrchestratorError::TaskNotFound(id),
            ) && final(self).entries_view() == old(self).entries_view(),
            has_id(old(self).entries_view(), id) ==> r is Ok && ({
                let i = index_of(old(self).entries_view(), id);
                let o = old(self).entries_view()[i];
                let n = final(self).entries_view()[i];
                if o.state == TaskState::Paused && o.worker is Some {
                    &&& final(self).entries_view() == old(self).entries_view()
                    &&& r->Ok_0@ == seq![
                        Effect::SendToWorker { task_id: id, generation: o.worker->0, cmd: WorkerCmd::Resume },
                    ]
                } else if o.state == TaskState::Paused {
                    &&& others_unchanged(old(self).entries_view(), final(self).entries_view(), i)
                    &&& n.task == o.task
                    &&& n.state == TaskState::Starting
                    &&& n.attempts == o.attempts
                    &&& spawned(o, n)
                    &&& r->Ok_0@ == seq![Effect::SpawnWorker { task_id: id, generation: o.next_generation }]
                } else {
                    &&& final(self).entries_view() == old(self).entries_view()
                    &&& r->Ok_0@.len() == 0
                }
            }),
    {
        let i = match self.find(id) {
            Some(i) => i,
            None => return Err(OrchestratorError::TaskNotFound(id)),
        };
        let (forward, spawn) = match self.entries[i].state {
            TaskState::Paused => (self.entries[i].worker.is_some(), self.entries[i].worker.is_none()),
            _ => (false, false),
        };
        let mut effects: Vec<Effect> = Vec::new();
        if forward {
            let g = self.entries[i].worker.unwrap();
            effects.push(Effect::SendToWorker { task_id: id, generation: g, cmd: WorkerCmd::Resume });
        }
        if spawn {
            proof {
                assert(entry_id(self.entries_view()[i as int]) == id);
            }
            self.entries[i].state = TaskState::Starting;
            proof {
                lemma_wf_replace(old(self).entries_view(), self.entries_view(), i as int, self.next_id_view());
            }
            let g = self.spawn_at(i);
            effects.push(Effect::SpawnWorker { task_id: id, generation: g });
        }
        Ok(effects)
    }

    /// Stops a task unless it is idle or already stopped: its worker is
    /// aborted, attempts are cleared and the task is stopped.
    pub fn stop(&mut self, id: TaskId) -> (r: Result<Vec<Effect>, OrchestratorError>)
        requires
            old(self).wf(),
        ensures
            final(self).wf(),
            final(self).next_id_view() == old(self).next_id_view(),
            final(self).policy_view() == old(self).policy_view(),
            !has_id(old(self).entries_view(), id) ==> r == Err::<Vec<Effect>, OrchestratorError>(
                OrchestratorError::TaskNotFound(id),
            ) && final(self).entries_view() == old(self).entries_view(),
            has_id(old(self).entries_view(), id) ==> r is Ok && ({
                let i = index_of(old(self).entries_view(), id);
                let o = old(self).entries_view()[i];
                let n = final(self).entries_view()[i];
                if o.state == TaskState::Idle || o.state == TaskState::Stopped {
                    &&& final(self).entries_view() == old(self).entries_view()
                    &&& r->Ok_0@.len() == 0
                } else {
                    &&& others_unchanged(old(self).entries_view(), final(self).entries_view(), i)
                    &&& n == TaskEntry { state: TaskState::Stopped, attempts: 0, worker: None, ..o }
                    &&& r->Ok_0@ == abort_of(id, o.worker) + seq![
                        Effect::Emit { task_id: id, kind: ChangeKind::Stopped, status: TaskStatus::Stopped },
                    ]
                }
            }),
    {
        let i = match self.find(id) {
            Some(i) => i,
            None => return Err(OrchestratorError::TaskNotFound(id)),
        };
        let nothing = match self.entries[i].state {
            TaskState::Idle | TaskState::Stopped => true,
            _ => false,
        };
        let mut effects: Vec<Effect> = Vec::new();
        if nothing {
            return Ok(effects);
        }
        proof {
            assert(entry_id(self.entries_view()[i as int]) == id);
        }
        match self.entries[i].worker {
            Some(g) => effects.push(Effect::AbortWorker { task_id: id, generation: g }),
            None => {},
        }
        self.entries[i].worker = None;
        self.entries[i].attempts = 0;
        self.entries[i].state = TaskState::Stopped;
        proof {
            lemma_wf_replace(old(self).entries_view(), self.entries_view(), i as int, self.next_id_view());
        }
        effects.push(Effect::Emit { task_id: id, kind: ChangeKind::Stopped, status: TaskStatus::Stopped });
        proof {
            let o = old(self).entries_view()[i as int];
            assert(effects@ =~= abort_of(id, o.worker) + seq![
                Effect::Emit { task_id: id, kind: ChangeKind::Stopped, status: TaskStatus::Stopped },
            ]);
        }
        Ok(effects)
    }

    /// Replaces the config of a task (one revision up) and announces it. A
    /// starting, active or restarting task gets a new worker; a paused task
    /// loses its worker and stays paused, to be rebuilt on resume.
    pub fn update(&mut self, id: TaskId, config: TaskConfig<Q>) -> (r: Result<Vec<Effect>, OrchestratorError>)
        requires
            old(self).wf(),
            old(self).generation_room(id),
            old(self).revision_room(id),
        ensures
            final(self).wf(),
            final(self).next_id_view() == old(self).next_id_view(),
            final(self).policy_view() == old(self).policy_view(),
            !has_id(old(self).entries_view(), id) ==> r == Err::<Vec<Effect>, OrchestratorError>(
                OrchestratorError::TaskNotFound(id),
            ) && final(self).entries_view() == old(self).entries_view(),
            has_id(old(self).entries_view(), id) ==> r is Ok && ({
                let i = index_of(old(self).entries_view(), id);
                let o = old(self).entries_view()[i];
                let n = final(self).entries_view()[i];
                let announced = seq![
                    Effect::Emit { task_id: id, kind: ChangeKind::SpecUpdated, status: status_of(o.state) },
                ];
                &&& others_unchanged(old(self).entries_view(), final(self).entries_view(), i)
                &&& n.task.updated_from(&o.task, config)
                &&& n.attempts == o.attempts
                &&& if o.state == TaskState::Starting || o.state == TaskState::Active || o.state == TaskState::Restarting {
                    &&& n.state == TaskState::Starting
                    &&& spawned(o, n)
                    &&& r->Ok_0@ == announced + abort_of(id, o.worker) + seq![
                        Effect::SpawnWorker { task_id: id, generation: o.next_generation },
                    ]
                } else if o.state == TaskState::Paused {
                    &&& n.state == TaskState::Paused
                    &&& n.worker is None
                    &&& n.next_generation == o.next_generation
                    &&& r->Ok_0@ == announced + abort_of(id, o.worker)
                } else {
                    &&& n.state == o.state
                    &&& n.worker == o.worker
                    &&& n.next_generation == o.next_generation
                    &&& r->Ok_0@ == announced
                }
            }),
    {
        let i = match self.find(id) {
            Some(i) => i,
            None => return Err(OrchestratorError::TaskNotFound(id)),
        };
        proof {
            assert(entry_id(self.entries_view()[i as int]) == id);
        }
        self.entries[i].task.update_spec(config);
        proof {
            lemma_wf_replace(old(self).entries_view(), self.entries_view(), i as int, self.next_id_view());
        }
        let st = self.entries[i].state;
        let respawn = match st {
            TaskState::Starting | TaskState::Active | TaskState::Restarting => true,
            _ => false,
        };
        let paused = match st {
            TaskState::Paused => true,
            _ => false,
        };
        let mut effects: Vec<Effect> = Vec::new();
        effects.push(Effect::Emit { task_id: id, kind: ChangeKind::SpecUpdated, status: status(st) });
        if respawn || paused {
            let ghost mid = self.entries_view();
            match self.entries[i].worker {
                Some(g) => effects.push(Effect::AbortWorker { task_id: id, generation: g }),
                None => {},
            }
            self.entries[i].worker = None;
            if respawn {
                self.entries[i].state = TaskState::Starting;
            }
            proof {
                lemma_wf_replace(mid, self.entries_view(), i as int, self.next_id_view());
            }
            if respawn {
                let g = self.spawn_at(i);
                effects.push(Effect::SpawnWorker { task_id: id, generation: g });
            }
        }
        proof {
            let o = old(self).entries_view()[i as int];
            let announced = seq![
                Effect::Emit { task_id: id, kind: ChangeKind::SpecUpdated, status: status_of(o.state) },
            ];
            if respawn {
                assert(effects@ =~= announced + abort_of(id, o.worker) + seq![
                    Effect::SpawnWorker { task_id: id, generation: o.next_generation },
                ]);
            } else if paused {
                assert(effects@ =~= announced + abort_of(id, o.worker));
            }
        }
        Ok(effects)
    }

    /// Removes a task, aborting its worker; hands the removed entry back for the
    /// removal event.
    pub fn remove(&mut self, id: TaskId) -> (r: Result<(TaskEntry<Q, O>, Vec<Effect>), OrchestratorError>)
        requires
            old(self).wf(),
        ensures
            final(self).wf(),
            final(self).next_id_view() == old(self).next_id_view(),
            final(self).policy_view() == old(self).policy_view(),
            !has_id(old(self).entries_view(), id) ==> r is Err && r->Err_0 == OrchestratorError::TaskNotFound(id)
                && final(self).entries_view() == old(self).entries_view(),
            has_id(old(self).entries_view(), id) ==> r is Ok && ({
                let i = index_of(old(self).entries_view(), id);
                let o = old(self).entries_view()[i];
                &&& final(self).entries_view() == old(self).entries_view().remove(i)
                &&& r->Ok_0.0 == o
                &&& r->Ok_0.1@ == abort_of(id, o.worker) + seq![
                    Effect::EmitRemoved { task_id: id, status: status_of(o.state) },
                ]
            }),
            !has_id(final(self).entries_view(), id),
    {
        let i = match self.find(id) {
            Some(i) => i,
            None => return Err(OrchestratorError::TaskNotFound(id)),
        };
        let entry = self.entries.remove(i);
        proof {
            let old_s = old(self).entries_view();
            let s = self.entries_view();
            assert(s =~= old_s.remove(i as int));
            assert forall|a: int, b: int| 0 <= a < b < s.len() implies entry_id(s[a]).0 < entry_id(s[b]).0 by {
                let a2 = if a < i { a } else { a + 1 };
                let b2 = if b < i { b } else { b + 1 };
                assert(s[a] == old_s[a2]);
                assert(s[b] == old_s[b2]);
            }
            assert forall|a: int| 0 <= a < s.len() implies (#[trigger] entry_id(s[a])).0 < self.next_id_view() by {
                let a2 = if a < i { a } else { a + 1 };
                assert(s[a] == old_s[a2]);
            }
            assert forall|a: int| 0 <= a < s.len() implies (#[trigger] s[a].worker matches Some(g) ==> g.0 < s[a].next_generation.0) by {
                let a2 = if a < i { a } else { a + 1 };
                assert(s[a] == old_s[a2]);
            }
            assert(entry_id(old_s[i as int]) == id);
            assert forall|a: int| 0 <= a < s.len() implies #[trigger] entry_id(s[a]) != id by {
                let a2 = if a < i { a } else { a + 1 };
                assert(s[a] == old_s[a2]);
                if a < i {
                    assert(entry_id(old_s[a2]).0 < entry_id(old_s[i as int]).0);
                } else {
                    assert(entry_id(old_s[i as int]).0 < entry_id(old_s[a2]).0);
                }
            }
        }
        let mut effects: Vec<Effect> = Vec::new();
        match entry.worker {
            Some(g) => effects.push(Effect::AbortWorker { task_id: id, generation: g }),
            None => {},
        }
        effects.push(Effect::EmitRemoved { task_id: id, status: status(entry.state) });
        proof {
            assert(effects@ =~= abort_of(id, entry.worker) + seq![
                Effect::EmitRemoved { task_id: id, status: status_of(entry.state) },
            ]);
        }
        Ok((entry, effects))
    }

    /// After a backoff: a restarting task without a worker gets a new one and is
    /// starting again. Anything else (removed, stopped, already running): nothing.
    pub fn maybe_respawn(&mut self, id: TaskId) -> (effects: Vec<Effect>)
        requires
            old(self).wf(),
            old(self).generation_room(id),
        ensures
            final(self).wf(),
            final(self).next_id_view() == old(self).next_id_view(),
            final(self).policy_view() == old(self).policy_view(),
            ({
                let s = old(self).entries_view();
                let i = index_of(s, id);
                if has_id(s, id) && s[i].state == TaskState::Restarting && s[i].worker is None {
                    let o = s[i];
                    let n = final(self).entries_view()[i];
                    &&& others_unchanged(s, final(self).entries_view(), i)
                    &&& n.task == o.task
                    &&& n.attempts == o.attempts
                    &&& n.state == TaskState::Starting
                    &&& spawned(o, n)
                    &&& effects@ == seq![Effect::SpawnWorker { task_id: id, generation: o.next_generation }]
                } else {
                    &&& final(self).entries_view() == s
                    &&& effects@.len() == 0
                }
            }),
    {
        let mut effects: Vec<Effect> = Vec::new();
        let i = match self.find(id) {
            Some(i) => i,
            None => return effects,
        };
        let should = match self.entries[i].state {
            TaskState::Restarting => self.entries[i].worker.is_none(),
            _ => false,
        };
        if should {
            proof {
                assert(entry_id(self.entries_view()[i as int]) == id);
            }
            self.entries[i].state = TaskState::Starting;
            proof {
                lemma_wf_replace(old(self).entries_view(), self.entries_view(), i as int, self.next_id_view());
            }
            let g = self.spawn_at(i);
            effects.push(Effect::SpawnWorker { task_id: id, generation: g });
        }
        effects
    }

    /// Aborts every live worker and forgets all tasks.
    pub fn shutdown(&mut self) -> (effects: Vec<Effect>)
        requires
            old(self).wf(),
        ensures
            final(self).wf(),
            final(self).next_id_view() == old(self).next_id_view(),
            final(self).policy_view() == old(self).policy_view(),
            final(self).entries_view().len() == 0,
            effects@ == aborts_of(old(self).entries_view()),
    {
        let mut effects: Vec<Effect> = Vec::new();
        for k in 0..self.entries.len()
            invariant
                self.entries_view() == old(self).entries_view(),
                effects@ == aborts_of(self.entries_view().take(k as int)),
        {
            proof {
                let t = self.entries_view().take(k as int + 1);
                assert(t.drop_last() =~= self.entries_view().take(k as int));
            }
            match self.entries[k].worker {
                Some(g) => effects.push(Effect::AbortWorker { task_id: self.entries[k].task.id(), generation: g }),
                None => {},
            }
            proof {
                let t = self.entries_view().take(k as int + 1);
                let e = self.entries_view()[k as int];
                assert(effects@ =~= aborts_of(t.drop_last()) + abort_of(entry_id(e), e.worker));
            }
        }
        proof {
            assert(self.entries_view().take(self.entries_view().len() as int) =~= self.entries_view());
        }
        self.entries.clear();
        effects
    }

    /// Worker `i` failed: it is gone, one more attempt is counted, the task is
    /// restarting and a respawn is scheduled after the backoff delay.
    fn fail_at(&mut self, i: usize, kind: ChangeKind) -> (effects: Vec<Effect>)
        requires
            old(self).wf(),
            i < old(self).entries_view().len(),
            old(self).entries_view()[i as int].attempts < u32::MAX,
        ensures
            final(self).wf(),
            final(self).next_id_view() == old(self).next_id_view(),
            final(self).policy_view() == old(self).policy_view(),
            others_unchanged(old(self).entries_view(), final(self).entries_view(), i as int),
            ({
                let o = old(self).entries_view()[i as int];
                let n = final(self).entries_view()[i as int];
                &&& n == TaskEntry { worker: None, attempts: (o.attempts + 1) as u32, state: TaskState::Restarting, ..o }
                &&& effects@ == seq![
                    Effect::Emit { task_id: entry_id(o), kind, status: TaskStatus::Restarting },
                    Effect::ScheduleRespawn {
                        task_id: entry_id(o),
                        delay_ms: old(self).policy_view().delay_spec((o.attempts + 1) as u32) as u64,
                    },
                ]
            }),
    {
        let id = self.entries[i].task.id();
        self.entries[i].worker = None;
        self.entries[i].attempts = self.entries[i].attempts + 1;
        self.entries[i].state = TaskState::Restarting;
        proof {
            lemma_wf_replace(old(self).entries_view(), self.entries_view(), i as int, self.next_id_view());
        }
        let delay = self.policy.delay(self.entries[i].attempts);
        let mut effects: Vec<Effect> = Vec::new();
        effects.push(Effect::Emit { task_id: id, kind, status: TaskStatus::Restarting });
        effects.push(Effect::ScheduleRespawn { task_id: id, delay_ms: delay });
        effects
    }

    /// Takes in a worker report. Reports from a worker that is not the task's
    /// live one (replaced, aborted, or the task removed) change nothing.
    pub fn on_report(&mut self, rep: WorkerReport<O>) -> (effects: Vec<Effect>)
        requires
            old(self).wf(),
            old(self).report_room(rep),
        ensures
            final(self).wf(),
            final(self).next_id_view() == old(self).next_id_view(),
            final(self).policy_view() == old(self).policy_view(),
            !report_applies(old(self).entries_view(), rep) ==> final(self).entries_view() == old(
                self,
            ).entries_view() && effects@.len() == 0,
            report_applies(old(self).entries_view(), rep) ==> ({
                let id = report_key(rep).0;
                let i = index_of(old(self).entries_view(), id);
                let o = old(self).entries_view()[i];
                let n = final(self).entries_view()[i];
                &&& others_unchanged(old(self).entries_view(), final(self).entries_view(), i)
                &&& match rep {
                    WorkerReport::Built { .. } => {
                        &&& n == TaskEntry { attempts: 0, state: TaskState::Active, ..o }
                        &&& effects@ == seq![
                            Effect::Emit {
                                task_id: id,
                                kind: if o.attempts > 0 { ChangeKind::Restarted } else { ChangeKind::Started },
                                status: TaskStatus::Active,
                            },
                        ]
                    },
                    WorkerReport::Polled { response, .. } => {
                        &&& n.task.polled_from(&o.task, response, metrics_after(o.task.metrics_view(), response))
                        &&& n.attempts == o.attempts
                        &&& n.next_generation == o.next_generation
                        &&& if n.task.limit_view() > 0 && n.task.metrics_view().total_attempts >= n.task.limit_view() {
                            &&& n.state == TaskState::Completed
                            &&& n.worker is None
                            &&& effects@ == abort_of(id, o.worker) + seq![
                                Effect::Emit { task_id: id, kind: ChangeKind::Completed, status: TaskStatus::Completed },
                            ]
                        } else {
                            &&& n.state == o.state
                            &&& n.worker == o.worker
                            &&& effects@ == seq![
                                Effect::Emit { task_id: id, kind: ChangeKind::Polled, status: status_of(o.state) },
                            ]
                        }
                    },
                    WorkerReport::Paused { .. } => {
                        &&& n == TaskEntry { state: TaskState::Paused, ..o }
                        &&& effects@ == seq![
                            Effect::Emit { task_id: id, kind: ChangeKind::Paused, status: TaskStatus::Paused },
                        ]
                    },
                    WorkerReport::Resumed { .. } => {
                        &&& n == TaskEntry { state: TaskState::Active, ..o }
                        &&& effects@ == seq![
                            Effect::Emit { task_id: id, kind: ChangeKind::Resumed, status: TaskStatus::Active },
                        ]
                    },
                    _ => {
                        &&& is_failure(rep)
                        &&& n == TaskEntry { worker: None, attempts: (o.attempts + 1) as u32, state: TaskState::Restarting, ..o }
                        &&& effects@.len() == 2
                        &&& effects@[0] matches Effect::Emit { task_id, kind, status }
                            && task_id == id && status == TaskStatus::Restarting && failure_kind(kind, rep)
                        &&& effects@[1] == Effect::ScheduleRespawn {
                            task_id: id,
                            delay_ms: old(self).policy_view().delay_spec((o.attempts + 1) as u32) as u64,
                        }
                    },
                }
            }),
    {
        let (task_id, generation) = rep.key();
        let i = match self.find(task_id) {
            Some(i) => i,
            None => return Vec::new(),
        };
        let live = match self.entries[i].worker {
            Some(g) => g.0 == generation.0,
            None => false,
        };
        if !live {
            return Vec::new();
        }
        proof {
            assert(entry_id(self.entries_view()[i as int]) == task_id);
        }
        match rep {
            WorkerReport::Built { .. } => {
                let was_restart = self.entries[i].attempts > 0;
                self.entries[i].attempts = 0;
                self.entries[i].state = TaskState::Active;
                proof {
                    lemma_wf_replace(old(self).entries_view(), self.entries_view(), i as int, self.next_id_view());
                }
                let kind = if was_restart {
                    ChangeKind::Restarted
                } else {
                    ChangeKind::Started
                };
                let mut effects: Vec<Effect> = Vec::new();
                effects.push(Effect::Emit { task_id, kind, status: TaskStatus::Active });
                effects
            },
            WorkerReport::BuildFailed { reason, .. } => {
                self.fail_at(i, ChangeKind::BuildFailed { reason })
            },
            WorkerReport::BuildTimeout { .. } => {
                self.fail_at(i, ChangeKind::BuildFailed { reason: String::from_str("build timeout") })
            },
            WorkerReport::BuildPanicked { reason, .. } => {
                self.fail_at(i, ChangeKind::Panicked { reason: prefixed("build: ", reason) })
            },
            WorkerReport::Polled { response, .. } => {
                let m = self.entries[i].task.metrics();
                let new_metrics = match &response {
                    Response::Success { elapsed_ms, .. } => m.with_success(*elapsed_ms),
                    Response::NoResponse { .. } => m.with_error(),
                };
                self.entries[i].task.apply_poll(response, new_metrics);
                let limit = self.entries[i].task.spec().poll_config().limit;
                let reached = limit > 0 && self.entries[i].task.metrics().total_attempts >= limit;
                let mut effects: Vec<Effect> = Vec::new();
                if reached {
                    match self.entries[i].worker {
                        Some(g) => effects.push(Effect::AbortWorker { task_id, generation: g }),
                        None => {},
                    }
                    self.entries[i].worker = None;
                    self.entries[i].state = TaskState::Completed;
                    effects.push(Effect::Emit { task_id, kind: ChangeKind::Completed, status: TaskStatus::Completed });
                } else {
                    let st = status(self.entries[i].state);
                    effects.push(Effect::Emit { task_id, kind: ChangeKind::Polled, status: st });
                }
                proof {
                    lemma_wf_replace(old(self).entries_view(), self.entries_view(), i as int, self.next_id_view());
                    let o = old(self).entries_view()[i as int];
                    if reached {
                        assert(effects@ =~= abort_of(task_id, o.worker) + seq![
                            Effect::Emit { task_id, kind: ChangeKind::Completed, status: TaskStatus::Completed },
                        ]);
                    }
                }
                effects
            },
            WorkerReport::PollFailed { reason, .. } => {
                self.fail_at(i, ChangeKind::Failed { reason })
            },
            WorkerReport::PollPanicked { reason, .. } => {
                self.fail_at(i, ChangeKind::Panicked { reason: prefixed("poll: ", reason) })
            },
            WorkerReport::WorkerPanicked { reason, .. } => {
                self.fail_at(i, ChangeKind::Panicked { reason: prefixed("worker: ", reason) })
            },
            WorkerReport::Paused { .. } => {
                self.entries[i].state = TaskState::Paused;
                proof {
                    lemma_wf_replace(old(self).entries_view(), self.entries_view(), i as int, self.next_id_view());
                }
                let mut effects: Vec<Effect> = Vec::new();
                effects.push(Effect::Emit { task_id, kind: ChangeKind::Paused, status: TaskStatus::Paused });
                effects
            },
            WorkerReport::Resumed { .. } => {
                self.entries[i].state = TaskState::Active;
                proof {
                    lemma_wf_replace(old(self).entries_view(), self.entries_view(), i as int, self.next_id_view());
                }
                let mut effects: Vec<Effect> = Vec::new();
                effects.push(Effect::Emit { task_id, kind: ChangeKind::Resumed, status: TaskStatus::Active });
                effects
            },
        }
    }
}

} // verus!
