use vstd::prelude::*;
use std::collections::HashMap;
use crate::ids::TaskId;
use crate::restart_policy::{backoff_shift, lemma_delay_shape, pow2, RestartPolicy};

verus! {

broadcast use vstd::std_specs::hash::group_hash_axioms;

/// Restart bookkeeping of one task: failed attempts so far and, if a restart
/// is pending, the time (milliseconds since the epoch) it is due.
#[derive(Clone, Copy, Debug, PartialEq, Eq)]
pub struct RestartState {
    pub attempts: u32,
    pub next_at: Option<i64>,
}

/// One task's worker slot: whether a worker runs, and its restart state.
#[derive(Clone, Copy, Debug, PartialEq, Eq)]
pub struct WorkerRuntime {
    pub has_worker: bool,
    pub restart: RestartState,
}

/// Side effect of a pool step.
#[derive(Clone, Copy, Debug, PartialEq, Eq)]
pub enum PoolEffect {
    /// Start the worker of the task.
    Launch { task_id: TaskId },
    /// Abort the worker of the task.
    Abort { task_id: TaskId },
}

pub open spec fn fresh_restart() -> RestartState {
    RestartState { attempts: 0, next_at: None }
}

pub open spec fn fresh_runtime() -> WorkerRuntime {
    WorkerRuntime { has_worker: false, restart: fresh_restart() }
}

/// A restart is pending and its time has come.
pub open spec fn is_due(rt: WorkerRuntime, now: i64) -> bool {
    match rt.restart.next_at {
        Some(t) => t <= now,
        None => false,
    }
}

/// `t + d`, clamped to the range of `i64`.
pub open spec fn deadline(t: i64, d: u64) -> i64 {
    if t + d > i64::MAX {
        i64::MAX
    } else {
        (t + d) as i64
    }
}

/// The slot after a failed build at `now`: one more attempt, due again once
/// the backoff delay for that attempt has passed; the running flag is kept.
pub open spec fn retried(rt: WorkerRuntime, policy: RestartPolicy, now: i64) -> WorkerRuntime {
    let a = (rt.restart.attempts + 1) as u32;
    WorkerRuntime {
        restart: RestartState { attempts: a, next_at: Some(deadline(now, policy.delay_spec(a) as u64)) },
        ..rt
    }
}

/// The slots after a failed build of `id` at `now` (see `retry_later`).
pub open spec fn retried_slots(w: Map<u64, WorkerRuntime>, id: u64, policy: RestartPolicy, now: i64) -> Map<u64, WorkerRuntime> {
    if w.contains_key(id) {
        w.insert(id, retried(w[id], policy, now))
    } else {
        w
    }
}

/// The slots after the worker of `id` failed at `now` (see `schedule_restart`):
/// no worker, one more attempt, due once the backoff delay for it has passed.
pub open spec fn restarted_slots(w: Map<u64, WorkerRuntime>, id: u64, policy: RestartPolicy, now: i64) -> Map<u64, WorkerRuntime> {
    if w.contains_key(id) {
        let a = (w[id].restart.attempts + 1) as u32;
        w.insert(
            id,
            WorkerRuntime {
                has_worker: false,
                restart: RestartState { attempts: a, next_at: Some(deadline(now, policy.delay_spec(a) as u64)) },
            },
        )
    } else {
        w
    }
}

/// The slots after the worker of `id` is launched (see `spawn`).
pub open spec fn launched_slots(w: Map<u64, WorkerRuntime>, id: u64) -> Map<u64, WorkerRuntime> {
    w.insert(
        id,
        WorkerRuntime {
            has_worker: true,
            restart: RestartState {
                attempts: if w.contains_key(id) {
                    w[id].restart.attempts
                } else {
                    0
                },
                next_at: None,
            },
        },
    )
}

/// The slots after a build of `id` begins (see `mark_building`).
pub open spec fn building_slots(w: Map<u64, WorkerRuntime>, id: u64) -> Map<u64, WorkerRuntime> {
    if w.contains_key(id) {
        w.insert(id, WorkerRuntime { restart: RestartState { next_at: None, ..w[id].restart }, ..w[id] })
    } else {
        w
    }
}

/// The slots after the worker of `id` ended normally (see `mark_stopped`).
pub open spec fn stopped_slots(w: Map<u64, WorkerRuntime>, id: u64) -> Map<u64, WorkerRuntime> {
    if w.contains_key(id) {
        w.insert(id, WorkerRuntime { has_worker: false, ..w[id] })
    } else {
        w
    }
}

/// Every failed build counts: a retry adds one attempt to the slot, so that
/// its backoff delay grows with each failure in a row; the slot's due time
/// is the delay of the new attempt after `now`, and its worker flag is kept.
/// Two retries in a row count two attempts.
pub proof fn lemma_retry_counts_attempt(w: Map<u64, WorkerRuntime>, id: u64, policy: RestartPolicy, now: i64, later: i64)
    requires
        w.contains_key(id),
        w[id].restart.attempts < u32::MAX - 1,
    ensures
        retried_slots(w, id, policy, now).contains_key(id),
        retried_slots(w, id, policy, now)[id].restart.attempts == w[id].restart.attempts + 1,
        retried_slots(w, id, policy, now)[id].restart.next_at == Some(
            deadline(now, policy.delay_spec((w[id].restart.attempts + 1) as u32) as u64),
        ),
        retried_slots(w, id, policy, now)[id].has_worker == w[id].has_worker,
        retried_slots(retried_slots(w, id, policy, now), id, policy, later)[id].restart.attempts
            == w[id].restart.attempts + 2,
        forall|k: u64| k != id ==> #[trigger] retried_slots(w, id, policy, now).contains_key(k) == w.contains_key(k)
            && (w.contains_key(k) ==> retried_slots(w, id, policy, now)[k] == w[k]),
{
}

/// Repeated failed builds back off longer and longer: under any policy a
/// second retry at the same time is due no earlier than the first, and under
/// the default policy (one second, doubling, capped at a minute) the first
/// failures in a row are due 1 s, 2 s, 4 s, ... after the failure.
pub proof fn lemma_retries_back_off_longer(w: Map<u64, WorkerRuntime>, id: u64, policy: RestartPolicy, now: i64)
    requires
        w.contains_key(id),
        w[id].restart.attempts < u32::MAX - 1,
    ensures
        ({
            let w1 = retried_slots(w, id, policy, now);
            let w2 = retried_slots(w1, id, policy, now);
            &&& w1[id].restart.next_at matches Some(d1) && w2[id].restart.next_at matches Some(d2) && d1 <= d2
        }),
        policy == RestartPolicy::default_spec() && w[id].restart.attempts <= 4 && now <= i64::MAX - 60000 ==> ({
            let a = w[id].restart.attempts;
            let w1 = retried_slots(w, id, policy, now);
            let w2 = retried_slots(w1, id, policy, now);
            &&& w1[id].restart.next_at == Some((now + 1000 * pow2(backoff_shift((a + 1) as u32))) as i64)
            &&& w2[id].restart.next_at == Some((now + 2000 * pow2(backoff_shift((a + 1) as u32))) as i64)
        }),
{
    let a1 = (w[id].restart.attempts + 1) as u32;
    let a2 = (w[id].restart.attempts + 2) as u32;
    lemma_delay_shape(policy.backoff_base_ms, policy.backoff_max_ms, a1, a2);
    if policy == RestartPolicy::default_spec() && w[id].restart.attempts <= 4 && now <= i64::MAX - 60000 {
        reveal_with_fuel(pow2, 7);
        assert(pow2(backoff_shift(a1)) <= 16);
        assert(pow2(backoff_shift(a2)) == 2 * pow2(backoff_shift(a1)));
    }
}

/// After a failure at `now` (of the worker or of a build), the restart of the
/// task is due at time `t` exactly when the backoff delay for the new attempt
/// has passed since `now`; the due time is never before `now`.
pub proof fn lemma_restart_due_after_delay(w: Map<u64, WorkerRuntime>, id: u64, policy: RestartPolicy, now: i64, t: i64)
    requires
        w.contains_key(id),
        w[id].restart.attempts < u32::MAX,
    ensures
        ({
            let a = (w[id].restart.attempts + 1) as u32;
            let due = deadline(now, policy.delay_spec(a) as u64);
            &&& now <= due
            &&& now + policy.delay_spec(a) <= i64::MAX ==> due == now + policy.delay_spec(a)
            &&& is_due(restarted_slots(w, id, policy, now)[id], t) <==> due <= t
            &&& is_due(retried_slots(w, id, policy, now)[id], t) <==> due <= t
        }),
{
    let a = (w[id].restart.attempts + 1) as u32;
    crate::restart_policy::lemma_delay_shape(policy.backoff_base_ms, policy.backoff_max_ms, a, a);
}

fn add_delay(t: i64, d: u64) -> (r: i64)
    ensures
        r == deadline(t, d),
{
    let wide: i128 = (t as i128) + (d as i128);
    if wide > (i64::MAX as i128) {
        i64::MAX
    } else {
        wide as i64
    }
}

/// Worker slots of all tasks and the backoff policy: which task has a running
/// worker and which restarts are pending.
pub struct Supervisor {
    runtimes: HashMap<u64, WorkerRuntime>,
    policy: RestartPolicy,
}

impl Supervisor {
    pub closed spec fn view(&self) -> Map<u64, WorkerRuntime> {
        self.runtimes@
    }

    pub closed spec fn policy_view(&self) -> RestartPolicy {
        self.policy
    }

    /// Running flag of a task; a task without a slot runs nothing.
    pub open spec fn running(&self, id: TaskId) -> bool {
        self.view().contains_key(id.0) && self.view()[id.0].has_worker
    }

    pub fn new() -> (p: Supervisor)
        ensures
            p.view() == Map::<u64, WorkerRuntime>::empty(),
            p.policy_view() == RestartPolicy::default_spec(),
    {
        Supervisor { runtimes: HashMap::new(), policy: RestartPolicy::default_policy() }
    }

    /// Starts the worker of a task. A worker already running for it is aborted
    /// first; the pending restart is used up, the attempt count is kept.
    pub fn spawn(&mut self, task_id: TaskId) -> (effects: Vec<PoolEffect>)
        ensures
            final(self).policy_view() == old(self).policy_view(),
            final(self).view() == old(self).view().insert(
                task_id.0,
                WorkerRuntime {
                    has_worker: true,
                    restart: RestartState {
                        attempts: if old(self).view().contains_key(task_id.0) {
                            old(self).view()[task_id.0].restart.attempts
                        } else {
                            0
                        },
                        next_at: None,
                    },
                },
            ),
            effects@ == if old(self).running(task_id) {
                seq![PoolEffect::Abort { task_id }, PoolEffect::Launch { task_id }]
            } else {
                seq![PoolEffect::Launch { task_id }]
            },
    {
        let mut effects: Vec<PoolEffect> = Vec::new();
        let rt = match self.runtimes.get(&task_id.0) {
            Some(r) => *r,
            None => WorkerRuntime { has_worker: false, restart: RestartState { attempts: 0, next_at: None } },
        };
        if rt.has_worker {
            effects.push(PoolEffect::Abort { task_id });
        }
        effects.push(PoolEffect::Launch { task_id });
        self.runtimes.insert(
            task_id.0,
            WorkerRuntime { has_worker: true, restart: RestartState { attempts: rt.restart.attempts, next_at: None } },
        );
        effects
    }

    /// Aborts the running worker of a task, if any.
    pub fn stop(&mut self, task_id: &TaskId) -> (effects: Vec<PoolEffect>)
        ensures
            final(self).policy_view() == old(self).policy_view(),
            old(self).running(*task_id) ==> final(self).view() == old(self).view().insert(
                task_id.0,
                WorkerRuntime { has_worker: false, ..old(self).view()[task_id.0] },
            ) && effects@ == seq![PoolEffect::Abort { task_id: *task_id }],
            !old(self).running(*task_id) ==> final(self).view() == old(self).view() && effects@.len() == 0,
    {
        let mut effects: Vec<PoolEffect> = Vec::new();
        match self.runtimes.get(&task_id.0) {
            Some(r) => {
                let rt = *r;
                if rt.has_worker {
                    self.runtimes.insert(task_id.0, WorkerRuntime { has_worker: false, ..rt });
                    effects.push(PoolEffect::Abort { task_id: *task_id });
                }
            },
            None => {},
        }
        effects
    }

    /// Forgets the slot of a task.
    pub fn remove(&mut self, task_id: &TaskId)
        ensures
            final(self).policy_view() == old(self).policy_view(),
            final(self).view() == old(self).view().remove(task_id.0),
    {
        self.runtimes.remove(&task_id.0);
    }

    pub fn is_running(&self, task_id: &TaskId) -> (b: bool)
        ensures
            b == self.running(*task_id),
    {
        match self.runtimes.get(&task_id.0) {
            Some(rt) => rt.has_worker,
            None => false,
        }
    }

    /// A worker failed at time `now`: it is gone, one more attempt is counted
    /// and a restart is due once the backoff delay after `now` has passed.
    /// Returns (attempt, delay); a task without a slot gets nothing.
    pub fn schedule_restart(&mut self, task_id: &TaskId, now: i64) -> (r: Option<(u32, u64)>)
        requires
            old(self).view().contains_key(task_id.0) ==> old(self).view()[task_id.0].restart.attempts < u32::MAX,
        ensures
            final(self).policy_view() == old(self).policy_view(),
            !old(self).view().contains_key(task_id.0) ==> r is None && final(self).view() == old(self).view(),
            old(self).view().contains_key(task_id.0) ==> ({
                let a = (old(self).view()[task_id.0].restart.attempts + 1) as u32;
                let d = old(self).policy_view().delay_spec(a) as u64;
                &&& r == Some((a, d))
                &&& final(self).view() == old(self).view().insert(
                    task_id.0,
                    WorkerRuntime {
                        has_worker: false,
                        restart: RestartState { attempts: a, next_at: Some(deadline(now, d)) },
                    },
                )
            }),
    {
        let rt = match self.runtimes.get(&task_id.0) {
            Some(r) => *r,
            None => return None,
        };
        let attempts = rt.restart.attempts + 1;
        let delay = self.policy.delay(attempts);
        let next_at = add_delay(now, delay);
        self.runtimes.insert(
            task_id.0,
            WorkerRuntime { has_worker: false, restart: RestartState { attempts, next_at: Some(next_at) } },
        );
        Some((attempts, delay))
    }

    /// The worker ended normally: mark the task as not running.
    pub fn mark_stopped(&mut self, task_id: &TaskId)
        ensures
            final(self).policy_view() == old(self).policy_view(),
            old(self).view().contains_key(task_id.0) ==> final(self).view() == old(self).view().insert(
                task_id.0,
                WorkerRuntime { has_worker: false, ..old(self).view()[task_id.0] },
            ),
            !old(self).view().contains_key(task_id.0) ==> final(self).view() == old(self).view(),
    {
        match self.runtimes.get(&task_id.0) {
            Some(r) => {
                let rt = *r;
                self.runtimes.insert(task_id.0, WorkerRuntime { has_worker: false, ..rt });
            },
            None => {},
        }
    }

    /// Clears attempts and pending restart (after a successful poll, or on a manual start).
    pub fn reset_restart(&mut self, task_id: &TaskId)
        ensures
            final(self).policy_view() == old(self).policy_view(),
            old(self).view().contains_key(task_id.0) ==> final(self).view() == old(self).view().insert(
                task_id.0,
                WorkerRuntime { restart: fresh_restart(), ..old(self).view()[task_id.0] },
            ),
            !old(self).view().contains_key(task_id.0) ==> final(self).view() == old(self).view(),
    {
        match self.runtimes.get(&task_id.0) {
            Some(r) => {
                let rt = *r;
                self.runtimes.insert(
                    task_id.0,
                    WorkerRuntime { restart: RestartState { attempts: 0, next_at: None }, ..rt },
                );
            },
            None => {},
        }
    }

    /// A build was started: the pending restart is dropped (the worker appears
    /// when the build ends); attempts are kept.
    pub fn mark_building(&mut self, task_id: &TaskId)
        ensures
            final(self).policy_view() == old(self).policy_view(),
            old(self).view().contains_key(task_id.0) ==> final(self).view() == old(self).view().insert(
                task_id.0,
                WorkerRuntime {
                    restart: RestartState { next_at: None, ..old(self).view()[task_id.0].restart },
                    ..old(self).view()[task_id.0]
                },
            ),
            !old(self).view().contains_key(task_id.0) ==> final(self).view() == old(self).view(),
    {
        match self.runtimes.get(&task_id.0) {
            Some(r) => {
                let rt = *r;
                self.runtimes.insert(
                    task_id.0,
                    WorkerRuntime { restart: RestartState { next_at: None, ..rt.restart }, ..rt },
                );
            },
            None => {},
        }
    }

    /// A build failed at time `now` during a restart: count the attempt and
    /// postpone the restart by the backoff delay after `now`.
    pub fn retry_later(&mut self, task_id: &TaskId, now: i64)
        requires
            old(self).view().contains_key(task_id.0) ==> old(self).view()[task_id.0].restart.attempts < u32::MAX,
        ensures
            final(self).policy_view() == old(self).policy_view(),
            !old(self).view().contains_key(task_id.0) ==> final(self).view() == old(self).view(),
            old(self).view().contains_key(task_id.0) ==> final(self).view() == old(self).view().insert(
                task_id.0,
                retried(old(self).view()[task_id.0], old(self).policy_view(), now),
            ),
            old(self).view().contains_key(task_id.0) ==> ({
                let o = old(self).view()[task_id.0];
                let n = final(self).view()[task_id.0];
                &&& n.restart.attempts == o.restart.attempts + 1
                &&& n.restart.next_at == Some(deadline(now, old(self).policy_view().delay_spec(n.restart.attempts) as u64))
                &&& n.has_worker == o.has_worker
            }),
    {
        match self.runtimes.get(&task_id.0) {
            Some(r) => {
                let rt = *r;
                let attempts = rt.restart.attempts + 1;
                let delay = self.policy.delay(attempts);
                let next_at = add_delay(now, delay);
                self.runtimes.insert(
                    task_id.0,
                    WorkerRuntime { restart: RestartState { attempts, next_at: Some(next_at) }, ..rt },
                );
            },
            None => {},
        }
    }

    /// The attempt count of the task's slot can still grow (true without a slot).
    pub fn attempts_below_max(&self, task_id: &TaskId) -> (b: bool)
        ensures
            b == (self.view().contains_key(task_id.0) ==> self.view()[task_id.0].restart.attempts < u32::MAX),
    {
        match self.runtimes.get(&task_id.0) {
            Some(rt) => rt.restart.attempts < u32::MAX,
            None => true,
        }
    }

    /// Tasks whose backoff has expired at `now`.
    pub fn due_restarts(&self, now: i64) -> (ids: Vec<TaskId>)
        ensures
            ids@.no_duplicates(),
            forall|k: u64| #[trigger] ids@.contains(TaskId(k)) <==> (self.view().contains_key(k)
                && is_due(self.view()[k], now)),
    {
        let mut ids: Vec<TaskId> = Vec::new();
        let ghost m = self.runtimes@;
        for k in it: self.runtimes.keys()
            invariant
                m == self.runtimes@,
                it.seq().unref().to_set() == m.dom(),
                it.seq().no_duplicates(),
                ids@.no_duplicates(),
                forall|x: u64| #[trigger] ids@.contains(TaskId(x)) <==> (exists|j: int| 0 <= j < it.index() && *it.seq()[j] == x)
                    && m.contains_key(x) && is_due(m[x], now),
                it.index() == it.seq().len() ==> forall|x: u64| #[trigger] ids@.contains(TaskId(x)) <==> (m.contains_key(x) && is_due(m[x], now)),
        {
            let ghost idx = it.index();
            let ghost old_ids = ids@;
            proof {
                assert(*it.seq()[idx] == *k);
                assert(it.seq().unref()[idx] == *k);
                assert(it.seq().unref().to_set().contains(*k));
            }
            let rt = *self.runtimes.get(k).unwrap();
            let due = match rt.restart.next_at {
                Some(t) => t <= now,
                None => false,
            };
            if due {
                ids.push(TaskId(*k));
            }
            proof {
                assert(!old_ids.contains(TaskId(*k))) by {
                    if old_ids.contains(TaskId(*k)) {
                        let j = choose|j: int| 0 <= j < idx && *it.seq()[j] == *k;
                        assert(it.seq()[j] == it.seq()[idx]);
                    }
                }
                assert forall|x: u64| #[trigger] ids@.contains(TaskId(x)) <==> (exists|j: int| 0 <= j < idx + 1 && *it.seq()[j] == x)
                    && m.contains_key(x) && is_due(m[x], now) by {
                    if x == *k {
                        if due {
                            assert(ids@[ids@.len() - 1] == TaskId(x));
                        }
                    } else {
                        if ids@.contains(TaskId(x)) {
                            let w = choose|w: int| 0 <= w < ids@.len() && ids@[w] == TaskId(x);
                            assert(w < old_ids.len());
                            assert(old_ids[w] == TaskId(x));
                        }
                        if old_ids.contains(TaskId(x)) {
                            let w = choose|w: int| 0 <= w < old_ids.len() && old_ids[w] == TaskId(x);
                            assert(ids@[w] == TaskId(x));
                        }
                        if exists|j: int| 0 <= j < idx + 1 && *it.seq()[j] == x {
                            let j = choose|j: int| 0 <= j < idx + 1 && *it.seq()[j] == x;
                            assert(j < idx);
                        }
                    }
                }
                if idx + 1 == it.seq().len() {
                    assert forall|x: u64| #[trigger] ids@.contains(TaskId(x)) <==> (m.contains_key(x) && is_due(m[x], now)) by {
                        if m.contains_key(x) {
                            assert(it.seq().unref().to_set().contains(x));
                            let j = choose|j: int| 0 <= j < it.seq().unref().len() && it.seq().unref()[j] == x;
                            assert(*it.seq()[j] == x);
                        }
                    }
                }
                if due {
                    assert forall|a: int, b: int| 0 <= a < ids@.len() && 0 <= b < ids@.len() && a != b implies ids@[a] != ids@[b] by {
                        if a < old_ids.len() && b < old_ids.len() {
                        } else if a < old_ids.len() {
                            assert(old_ids.contains(ids@[a]));
                        } else {
                            assert(old_ids.contains(ids@[b]));
                        }
                    }
                }
            }
        }
        ids
    }

    /// Ids of all slots, each once.
    fn slot_ids(&self) -> (ids: Vec<u64>)
        ensures
            ids@.no_duplicates(),
            forall|k: u64| #[trigger] ids@.contains(k) <==> self.view().contains_key(k),
    {
        let mut ids: Vec<u64> = Vec::new();
        let ghost m = self.runtimes@;
        for k in it: self.runtimes.keys()
            invariant
                m == self.runtimes@,
                it.seq().unref().to_set() == m.dom(),
                it.seq().no_duplicates(),
                ids@.no_duplicates(),
                forall|x: u64| #[trigger] ids@.contains(x) <==> (exists|j: int| 0 <= j < it.index() && *it.seq()[j] == x),
                it.index() == it.seq().len() ==> forall|x: u64| #[trigger] ids@.contains(x) <==> m.contains_key(x),
        {
            let ghost idx = it.index();
            let ghost old_ids = ids@;
            ids.push(*k);
            proof {
                assert(*it.seq()[idx] == *k);
                assert(!old_ids.contains(*k)) by {
                    if old_ids.contains(*k) {
                        let j = choose|j: int| 0 <= j < idx && *it.seq()[j] == *k;
                        assert(it.seq()[j] == it.seq()[idx]);
                    }
                }
                assert forall|x: u64| #[trigger] ids@.contains(x) <==> (exists|j: int| 0 <= j < idx + 1 && *it.seq()[j] == x) by {
                    if x == *k {
                        assert(ids@[ids@.len() - 1] == x);
                    } else {
                        if ids@.contains(x) {
                            let w = choose|w: int| 0 <= w < ids@.len() && ids@[w] == x;
                            assert(w < old_ids.len());
                            assert(old_ids[w] == x);
                        }
                        if old_ids.contains(x) {
                            let w = choose|w: int| 0 <= w < old_ids.len() && old_ids[w] == x;
                            assert(ids@[w] == x);
                        }
                        if exists|j: int| 0 <= j < idx + 1 && *it.seq()[j] == x {
                            let j = choose|j: int| 0 <= j < idx + 1 && *it.seq()[j] == x;
                            assert(j < idx);
                        }
                    }
                }
                if idx + 1 == it.seq().len() {
                    assert forall|x: u64| #[trigger] ids@.contains(x) <==> m.contains_key(x) by {
                        if m.contains_key(x) {
                            assert(it.seq().unref().to_set().contains(x));
                            let j = choose|j: int| 0 <= j < it.seq().unref().len() && it.seq().unref()[j] == x;
                            assert(*it.seq()[j] == x);
                        }
                        if ids@.contains(x) {
                            let j = choose|j: int| 0 <= j < idx + 1 && *it.seq()[j] == x;
                            assert(it.seq().unref()[j] == x);
                            assert(it.seq().unref().to_set().contains(x));
                        }
                    }
                }
                assert forall|a: int, b: int| 0 <= a < ids@.len() && 0 <= b < ids@.len() && a != b implies ids@[a] != ids@[b] by {
                    if a < old_ids.len() && b < old_ids.len() {
                    } else if a < old_ids.len() {
                        assert(old_ids.contains(ids@[a]));
                    } else {
                        assert(old_ids.contains(ids@[b]));
                    }
                }
            }
        }
        ids
    }

    /// Aborts every running worker and drops every pending restart.
    pub fn stop_all(&mut self) -> (effects: Vec<PoolEffect>)
        ensures
            final(self).policy_view() == old(self).policy_view(),
            final(self).view().dom() == old(self).view().dom(),
            forall|k: u64| #[trigger] final(self).view().contains_key(k) ==> final(self).view()[k] == fresh_runtime(),
            effects@.no_duplicates(),
            forall|k: u64| #[trigger] effects@.contains(PoolEffect::Abort { task_id: TaskId(k) }) <==> old(self).running(TaskId(k)),
            forall|i: int| 0 <= i < effects@.len() ==> (#[trigger] effects@[i]) is Abort,
    {
        let ids = self.slot_ids();
        let mut effects: Vec<PoolEffect> = Vec::new();
        for i in 0..ids.len()
            invariant
                self.policy_view() == old(self).policy_view(),
                ids@.no_duplicates(),
                forall|k: u64| #[trigger] ids@.contains(k) <==> old(self).view().contains_key(k),
                self.view().dom() == old(self).view().dom(),
                forall|j: int| 0 <= j < i ==> self.view()[#[trigger] ids@[j]] == fresh_runtime(),
                forall|j: int| i <= j < ids@.len() ==> self.view()[#[trigger] ids@[j]] == old(self).view()[ids@[j]],
                effects@.no_duplicates(),
                forall|k: u64| #[trigger] effects@.contains(PoolEffect::Abort { task_id: TaskId(k) }) <==> (exists|j: int| 0 <= j < i && ids@[j] == k) && old(self).running(TaskId(k)),
                forall|j: int| 0 <= j < effects@.len() ==> (#[trigger] effects@[j]) is Abort,
        {
            let k = ids[i];
            proof {
                assert(ids@.contains(k));
            }
            let rt = *self.runtimes.get(&k).unwrap();
            let ghost old_eff = effects@;
            if rt.has_worker {
                effects.push(PoolEffect::Abort { task_id: TaskId(k) });
            }
            self.runtimes.insert(k, WorkerRuntime { has_worker: false, restart: RestartState { attempts: 0, next_at: None } });
            proof {
                assert(self.view().dom() =~= old(self).view().dom());
                assert(rt == old(self).view()[k]);
                assert forall|j: int| i + 1 <= j < ids@.len() implies self.view()[#[trigger] ids@[j]] == old(self).view()[ids@[j]] by {
                    assert(ids@[j] != ids@[i as int]);
                }
                assert forall|j: int| 0 <= j < i + 1 implies self.view()[#[trigger] ids@[j]] == fresh_runtime() by {
                    if j < i {
                        assert(ids@[j] != ids@[i as int]);
                    }
                }
                assert(!old_eff.contains(PoolEffect::Abort { task_id: TaskId(k) })) by {
                    if old_eff.contains(PoolEffect::Abort { task_id: TaskId(k) }) {
                        let j = choose|j: int| 0 <= j < i && ids@[j] == k;
                        assert(ids@[j] == ids@[i as int]);
                    }
                }
                assert forall|x: u64| #[trigger] effects@.contains(PoolEffect::Abort { task_id: TaskId(x) }) <==> (exists|j: int| 0 <= j < i + 1 && ids@[j] == x) && old(self).running(TaskId(x)) by {
                    if x == k {
                        if rt.has_worker {
                            assert(effects@[effects@.len() - 1] == PoolEffect::Abort { task_id: TaskId(x) });
                        }
                    } else {
                        if effects@.contains(PoolEffect::Abort { task_id: TaskId(x) }) {
                            let w = choose|w: int| 0 <= w < effects@.len() && effects@[w] == PoolEffect::Abort { task_id: TaskId(x) };
                            assert(w < old_eff.len());
                            assert(old_eff[w] == PoolEffect::Abort { task_id: TaskId(x) });
                        }
                        if old_eff.contains(PoolEffect::Abort { task_id: TaskId(x) }) {
                            let w = choose|w: int| 0 <= w < old_eff.len() && old_eff[w] == PoolEffect::Abort { task_id: TaskId(x) };
                            assert(effects@[w] == PoolEffect::Abort { task_id: TaskId(x) });
                        }
                        if exists|j: int| 0 <= j < i + 1 && ids@[j] == x {
                            let j = choose|j: int| 0 <= j < i + 1 && ids@[j] == x;
                            assert(j < i);
                        }
                    }
                }
                if rt.has_worker {
                    assert forall|a: int, b: int| 0 <= a < effects@.len() && 0 <= b < effects@.len() && a != b implies effects@[a] != effects@[b] by {
                        if a < old_eff.len() && b < old_eff.len() {
                        } else if a < old_eff.len() {
                            assert(old_eff.contains(effects@[a]));
                        } else {
                            assert(old_eff.contains(effects@[b]));
                        }
                    }
                }
            }
        }
        proof {
            assert forall|k: u64| #[trigger] self.view().contains_key(k) implies self.view()[k] == fresh_runtime() by {
                assert(ids@.contains(k));
                let j = choose|j: int| 0 <= j < ids@.len() && ids@[j] == k;
            }
            assert forall|k: u64| #[trigger] effects@.contains(PoolEffect::Abort { task_id: TaskId(k) }) <==> old(self).running(TaskId(k)) by {
                if old(self).running(TaskId(k)) {
                    assert(ids@.contains(k));
                }
            }
        }
        effects
    }
}

} // verus!
