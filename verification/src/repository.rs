use vstd::prelude::*;
use std::collections::HashMap;
use crate::clock::now_nanos;
use crate::entity::{PollStatus, TaskEntity, TaskHistory, TaskMeta, TaskSnapshot, TaskUpdateDto, default_task_history, poll_status_of};
use crate::ids::TaskId;
use crate::polling::{Metrics, PollConfig, PollResult, WorkerEvent};

verus! {

broadcast use vstd::std_specs::hash::group_hash_axioms;

/// Hands out increasing task ids: each call returns the previous value plus one.
#[derive(Clone, Copy, Debug)]
pub struct TaskIdGenerator {
    pub current: u64,
}

impl TaskIdGenerator {
    pub fn new(start_id: u64) -> (g: TaskIdGenerator)
        ensures
            g.current == start_id,
    {
        TaskIdGenerator { current: start_id }
    }

    pub fn next(&mut self) -> (id: TaskId)
        requires
            old(self).current < u64::MAX,
        ensures
            final(self).current == old(self).current + 1,
            id.0 == final(self).current,
    {
        self.current = self.current + 1;
        TaskId(self.current)
    }
}

/// Snapshot fields of a task as a worker reports them.
#[derive(Clone, Debug)]
pub struct TaskSnapshotUpdate<O> {
    pub poll_result: PollResult<O>,
    pub poll_status: PollStatus,
    pub metrics: Metrics,
}

/// Errors of the repository.
#[derive(Clone, Debug, PartialEq, Eq)]
pub enum RepositoryError {
    TaskNotFound { task_id: TaskId },
}

/// Ascending order, same elements: `itertools::Itertools::sorted`.
///
/// Calls `sorted` on the ids and collects the result. Its documentation
/// states that it returns all elements in ascending order.
#[verifier::external_body]
fn sorted_ids(ids: Vec<u64>) -> (r: Vec<u64>)
    ensures
        r@.to_multiset() == ids@.to_multiset(),
        forall|i: int, j: int| 0 <= i < j < r@.len() ==> r@[i] <= r@[j],
{
    itertools::Itertools::sorted(ids.into_iter()).collect()
}

/// Tasks keyed by id, the ids in increasing order, and the id generator.
pub struct TaskRepository<O> {
    tasks: HashMap<u64, TaskEntity<O>>,
    id_gen: TaskIdGenerator,
    order_ids: Vec<TaskId>,
    created_at: i128,
    updated_at: i128,
}

/// The map that collecting `s` by id builds: a later task replaces an earlier one with the same id.
pub open spec fn collect_by_id<O>(s: Seq<TaskEntity<O>>) -> Map<u64, TaskEntity<O>>
    decreases s.len(),
{
    if s.len() == 0 {
        Map::empty()
    } else {
        collect_by_id(s.drop_last()).insert(s.last().id_view().0, s.last())
    }
}

pub open spec fn strictly_increasing(s: Seq<TaskId>) -> bool {
    forall|i: int, j: int| 0 <= i < j < s.len() ==> s[i].0 < s[j].0
}

impl<O> TaskRepository<O> {
    pub closed spec fn view(&self) -> Map<u64, TaskEntity<O>> {
        self.tasks@
    }

    pub closed spec fn order_view(&self) -> Seq<TaskId> {
        self.order_ids@
    }

    pub closed spec fn id_gen_view(&self) -> u64 {
        self.id_gen.current
    }

    pub closed spec fn created_at_view(&self) -> i128 {
        self.created_at
    }

    /// Each task is stored under its own id; the order holds exactly the stored
    /// ids, increasing; every id is at most the generator's value.
    pub open spec fn wf(&self) -> bool {
        &&& forall|k: u64| #[trigger] self.view().contains_key(k) ==> self.view()[k].id_view().0 == k
        &&& strictly_increasing(self.order_view())
        &&& forall|k: u64| #[trigger] self.view().contains_key(k) <==> self.order_view().contains(TaskId(k))
        &&& forall|k: u64| #[trigger] self.view().contains_key(k) ==> k <= self.id_gen_view()
    }

    pub fn new_empty() -> (r: TaskRepository<O>)
        ensures
            r.wf(),
            r.view() == Map::<u64, TaskEntity<O>>::empty(),
            r.order_view().len() == 0,
            r.id_gen_view() == 0,
    {
        let dt = now_nanos();
        let r = TaskRepository {
            tasks: HashMap::new(),
            order_ids: Vec::new(),
            id_gen: TaskIdGenerator::new(0),
            created_at: dt,
            updated_at: dt,
        };
        proof {
            assert forall|k: u64| #[trigger] r.view().contains_key(k) <==> r.order_view().contains(TaskId(k)) by {}
        }
        r
    }

    /// Repository of the given tasks (a later task replaces an earlier one with
    /// the same id). New ids continue after the largest one given.
    pub fn new(tasks: Vec<TaskEntity<O>>) -> (r: TaskRepository<O>)
        requires
            forall|i: int| 0 <= i < tasks@.len() ==> (#[trigger] tasks@[i]).id_view().0 < u64::MAX,
        ensures
            r.wf(),
            r.view() == collect_by_id(tasks@),
            r.view().dom().is_empty() ==> r.id_gen_view() == 1,
            !r.view().dom().is_empty() ==> r.view().contains_key((r.id_gen_view() - 1) as u64),
            forall|k: u64| #[trigger] r.view().contains_key(k) ==> k < r.id_gen_view(),
    {
        let ghost orig = tasks@;
        let mut tasks = tasks;
        let total = tasks.len();
        proof {
            assert(orig.len() == total);
        }
        let mut map: HashMap<u64, TaskEntity<O>> = HashMap::new();
        let mut keys: Vec<u64> = Vec::new();
        let mut n: usize = 0;
        while tasks.len() > 0
            invariant
                orig.len() <= usize::MAX,
                forall|i: int| 0 <= i < orig.len() ==> (#[trigger] orig[i]).id_view().0 < u64::MAX,
                forall|k: u64| #[trigger] map@.contains_key(k) ==> k < u64::MAX,
                n + tasks@.len() == orig.len(),
                tasks@ == orig.skip(n as int),
                map@ == collect_by_id(orig.take(n as int)),
                keys@.no_duplicates(),
                forall|k: u64| #[trigger] map@.contains_key(k) <==> keys@.contains(k),
                forall|k: u64| #[trigger] map@.contains_key(k) ==> map@[k].id_view().0 == k,
            decreases tasks@.len(),
        {
            let t = tasks.remove(0);
            let k = t.id().0;
            proof {
                assert(orig[n as int] == t);
                assert(orig.take(n as int + 1).drop_last() =~= orig.take(n as int));
                assert(orig.take(n as int + 1).last() == t);
                assert(tasks@ =~= orig.skip(n as int + 1));
            }
            let ghost old_keys = keys@;
            let ghost old_map = map@;
            let absent = !map.contains_key(&k);
            if absent {
                keys.push(k);
            }
            map.insert(k, t);
            proof {
                assert(n < orig.len());
                if absent {
                    assert(!old_keys.contains(k));
                    assert(keys@ == old_keys.push(k));
                    assert forall|a: int, b: int| 0 <= a < keys@.len() && 0 <= b < keys@.len() && a != b implies keys@[a] != keys@[b] by {
                        if a < old_keys.len() && b < old_keys.len() {
                            assert(keys@[a] == old_keys[a] && keys@[b] == old_keys[b]);
                        } else if a < old_keys.len() {
                            assert(keys@[a] == old_keys[a]);
                        } else {
                            assert(keys@[b] == old_keys[b]);
                        }
                    }
                }
                assert forall|x: u64| #[trigger] map@.contains_key(x) <==> keys@.contains(x) by {
                    if x == k {
                        if absent {
                            assert(keys@[keys@.len() - 1] == k);
                        } else {
                            assert(old_keys.contains(k));
                        }
                    } else {
                        if old_keys.contains(x) {
                            let w = choose|w: int| 0 <= w < old_keys.len() && old_keys[w] == x;
                            assert(keys@[w] == x);
                        }
                        if keys@.contains(x) {
                            let w = choose|w: int| 0 <= w < keys@.len() && keys@[w] == x;
                            assert(w < old_keys.len());
                            assert(old_keys[w] == x);
                        }
                    }
                }
            }
            n = n + 1;
        }
        proof {
            assert(orig.take(orig.len() as int) =~= orig);
        }
        let mut max_id: u64 = 0;
        let mut found = false;
        for i in 0..keys.len()
            invariant
                found == (i > 0),
                found ==> keys@.subrange(0, i as int).contains(max_id),
                forall|j: int| 0 <= j < i ==> keys@[j] <= max_id,
        {
            if !found || keys[i] > max_id {
                max_id = keys[i];
            }
            found = true;
            proof {
                assert(keys@.subrange(0, i + 1)[i as int] == keys@[i as int]);
                if keys@.subrange(0, i as int).contains(max_id) {
                    let w = choose|w: int| 0 <= w < i && keys@.subrange(0, i as int)[w] == max_id;
                    assert(keys@.subrange(0, i + 1)[w] == max_id);
                }
            }
        }
        proof {
            if found {
                assert(map@.contains_key(max_id));
            }
        }
        let start: u64 = if found {
            max_id + 1
        } else {
            1
        };
        let ghost key_seq = keys@;
        let sorted = sorted_ids(keys);
        let mut order_ids: Vec<TaskId> = Vec::new();
        for i in 0..sorted.len()
            invariant
                order_ids@.len() == i,
                forall|j: int| 0 <= j < i ==> order_ids@[j] == TaskId(sorted@[j]),
        {
            order_ids.push(TaskId(sorted[i]));
        }
        let dt = now_nanos();
        let r = TaskRepository { tasks: map, order_ids, id_gen: TaskIdGenerator::new(start), created_at: dt, updated_at: dt };
        proof {
            key_seq.to_multiset_ensures();
            sorted@.to_multiset_ensures();
            assert forall|k: u64| key_seq.contains(k) <==> sorted@.contains(k) by {
                if key_seq.contains(k) {
                    assert(key_seq.to_multiset().count(k) > 0);
                    assert(sorted@.to_multiset().count(k) > 0);
                }
                if sorted@.contains(k) {
                    assert(sorted@.to_multiset().count(k) > 0);
                    assert(key_seq.to_multiset().count(k) > 0);
                }
            }
            assert forall|k: u64| #[trigger] r.view().contains_key(k) <==> r.order_view().contains(TaskId(k)) by {
                if sorted@.contains(k) {
                    let j = choose|j: int| 0 <= j < sorted@.len() && sorted@[j] == k;
                    assert(r.order_view()[j] == TaskId(k));
                }
                if r.order_view().contains(TaskId(k)) {
                    let j = choose|j: int| 0 <= j < r.order_view().len() && r.order_view()[j] == TaskId(k);
                    assert(sorted@[j] == k);
                }
            }
            assert(strictly_increasing(r.order_view())) by {
                assert(key_seq.to_multiset() =~= sorted@.to_multiset());
                assert forall|a: int, b: int| 0 <= a < b < r.order_view().len() implies r.order_view()[a].0 < r.order_view()[b].0 by {
                    assert(sorted@[a] <= sorted@[b]);
                    if sorted@[a] == sorted@[b] {
                        let x = sorted@[a];
                        vstd::seq_lib::lemma_multiset_commutative(sorted@.subrange(0, b), sorted@.subrange(b, sorted@.len() as int));
                        key_seq.lemma_multiset_has_no_duplicates();
                        assert(sorted@.to_multiset().count(x) >= 2) by {
                            lemma_count_two(sorted@, a, b);
                        }
                        assert(key_seq.to_multiset().count(x) <= 1);
                    }
                }
            }
            if found {
                assert(key_seq.contains(max_id));
                assert(r.view().contains_key(max_id));
                assert(!r.view().dom().is_empty());
            } else {
                assert(key_seq.len() == 0);
                assert(r.view().dom() =~= Set::<u64>::empty());
            }
        }
        r
    }

    /// Stores a new task under the next id, with the given or default poll
    /// config, snapshot and history, and appends the id to the order.
    pub fn add_task(
        &mut self,
        meta: TaskMeta,
        poll_config: Option<PollConfig>,
        task_snapshot: Option<TaskSnapshot<O>>,
        history: Option<TaskHistory<O>>,
    ) -> (id: TaskId)
        requires
            old(self).wf(),
            old(self).id_gen_view() < u64::MAX,
        ensures
            final(self).wf(),
            id.0 == old(self).id_gen_view() + 1,
            final(self).id_gen_view() == id.0,
            !old(self).view().contains_key(id.0),
            final(self).order_view() == old(self).order_view().push(id),
            final(self).view().dom() == old(self).view().dom().insert(id.0),
            forall|k: u64| k != id.0 && #[trigger] old(self).view().contains_key(k) ==> final(self).view()[k] == old(self).view()[k],
            ({
                let e = final(self).view()[id.0];
                &&& e.id_view() == id
                &&& e.meta_view() == meta
                &&& match task_snapshot {
                    Some(s) => e.snapshot_view() == s,
                    None => e.snapshot_view().poll_result_view() is Initial && e.snapshot_view().metrics_view().is_initial()
                        && e.snapshot_view().poll_status_view() == crate::entity::PollStatus::Idle,
                }
                &&& match poll_config {
                    Some(p) => e.poll_config_view() == p,
                    None => e.poll_config_view().is_zero(),
                }
                &&& match history {
                    Some(h) => e.history_view() == h.view() && e.history_depth() == h.depth(),
                    None => e.history_view().len() == 0 && e.history_depth() == 3,
                }
            }),
    {
        let id = self.id_gen.next();
        let task_snapshot = match task_snapshot {
            Some(s) => s,
            None => TaskSnapshot::new(),
        };
        let poll_config = match poll_config {
            Some(p) => p,
            None => PollConfig::zero(),
        };
        let history = match history {
            Some(h) => h,
            None => default_task_history(),
        };
        let task = TaskEntity::new(id, meta, task_snapshot, poll_config, history);
        self.tasks.insert(id.0, task);
        self.order_ids.push(id);
        self.updated_at = now_nanos();
        proof {
            let o = old(self).order_view();
            let n = self.order_view();
            assert(!old(self).view().contains_key(id.0));
            assert forall|a: int, b: int| 0 <= a < b < n.len() implies n[a].0 < n[b].0 by {
                if b == n.len() - 1 {
                    assert(o.contains(n[a]));
                    assert(old(self).view().contains_key(n[a].0));
                } else {
                    assert(n[a] == o[a] && n[b] == o[b]);
                }
            }
            assert forall|k: u64| #[trigger] self.view().contains_key(k) <==> self.order_view().contains(TaskId(k)) by {
                if k != id.0 {
                    if o.contains(TaskId(k)) {
                        let w = choose|w: int| 0 <= w < o.len() && o[w] == TaskId(k);
                        assert(n[w] == TaskId(k));
                    }
                    if n.contains(TaskId(k)) {
                        let w = choose|w: int| 0 <= w < n.len() && n[w] == TaskId(k);
                        assert(w < o.len());
                        assert(o[w] == TaskId(k));
                    }
                } else {
                    assert(n[n.len() - 1] == id);
                }
            }
            assert(self.view().dom() =~= old(self).view().dom().insert(id.0));
        }
        id
    }

    /// The task with `id`, if stored.
    pub fn get_task(&self, id: &TaskId) -> (r: Option<&TaskEntity<O>>)
        ensures
            r is Some <==> self.view().contains_key(id.0),
            r matches Some(e) ==> *e == self.view()[id.0],
    {
        self.tasks.get(&id.0)
    }

    /// Applies a partial update to a stored task.
    pub fn update_task(&mut self, task_id: &TaskId, to_update: TaskUpdateDto<O>) -> (r: Result<(), RepositoryError>)
        requires
            old(self).wf(),
        ensures
            final(self).wf(),
            final(self).order_view() == old(self).order_view(),
            final(self).id_gen_view() == old(self).id_gen_view(),
            !old(self).view().contains_key(task_id.0) ==> r == Err::<(), RepositoryError>(RepositoryError::TaskNotFound { task_id: *task_id })
                && final(self).view() == old(self).view(),
            old(self).view().contains_key(task_id.0) ==> {
                &&& r is Ok
                &&& final(self).view().dom() == old(self).view().dom()
                &&& forall|k: u64| k != task_id.0 && #[trigger] old(self).view().contains_key(k) ==> final(self).view()[k] == old(self).view()[k]
                &&& exists|changed: bool| final(self).view()[task_id.0].updated_by(&old(self).view()[task_id.0], to_update, changed)
            },
    {
        let mut target = match self.tasks.remove(&task_id.0) {
            Some(t) => t,
            None => {
                proof {
                    assert(self.view() =~= old(self).view());
                }
                return Err(RepositoryError::TaskNotFound { task_id: *task_id });
            },
        };
        let ghost before = target;
        let changed = target.update(to_update);
        self.tasks.insert(task_id.0, target);
        proof {
            assert(before == old(self).view()[task_id.0]);
            assert(self.view()[task_id.0].updated_by(&old(self).view()[task_id.0], to_update, changed));
        }
        if changed {
            self.updated_at = now_nanos();
        }
        proof {
            assert(self.view().dom() =~= old(self).view().dom());
            assert forall|k: u64| #[trigger] self.view().contains_key(k) <==> self.order_view().contains(TaskId(k)) by {
                assert(old(self).view().contains_key(k) <==> old(self).order_view().contains(TaskId(k)));
            }
        }
        Ok(())
    }

    /// Removes a task and its id from the order; hands the task back.
    pub fn remove_task(&mut self, task_id: &TaskId) -> (r: Result<TaskEntity<O>, RepositoryError>)
        requires
            old(self).wf(),
        ensures
            final(self).wf(),
            final(self).id_gen_view() == old(self).id_gen_view(),
            !old(self).view().contains_key(task_id.0) ==> r == Err::<TaskEntity<O>, RepositoryError>(RepositoryError::TaskNotFound { task_id: *task_id })
                && final(self).view() == old(self).view() && final(self).order_view() == old(self).order_view(),
            old(self).view().contains_key(task_id.0) ==> {
                &&& r == Ok::<TaskEntity<O>, RepositoryError>(old(self).view()[task_id.0])
                &&& final(self).view() == old(self).view().remove(task_id.0)
                &&& final(self).order_view() == old(self).order_view().filter(|x: TaskId| x != *task_id)
            },
    {
        let removed = match self.tasks.remove(&task_id.0) {
            Some(t) => t,
            None => {
                proof {
                    assert(self.view() =~= old(self).view());
                }
                return Err(RepositoryError::TaskNotFound { task_id: *task_id });
            },
        };
        proof {
            assert(self.view() == old(self).view().remove(task_id.0));
        }
        let ghost pred = |x: TaskId| x != *task_id;
        let ghost o = self.order_ids@;
        let mut kept: Vec<TaskId> = Vec::new();
        for i in 0..self.order_ids.len()
            invariant
                self.order_ids@ == o,
                pred == (|x: TaskId| x != *task_id),
                kept@ == o.take(i as int).filter(pred),
        {
            let x = self.order_ids[i];
            if x.0 != task_id.0 {
                kept.push(x);
            }
            proof {
                reveal(Seq::filter);
                assert(o.take(i as int + 1).drop_last() =~= o.take(i as int));
            }
        }
        proof {
            assert(o.take(o.len() as int) =~= o);
        }
        self.order_ids = kept;
        self.updated_at = now_nanos();
        proof {
            let n = self.order_view();
            assert forall|k: u64| #[trigger] self.view().contains_key(k) <==> n.contains(TaskId(k)) by {
                if n.contains(TaskId(k)) {
                    o.lemma_filter_contains_rev(pred, TaskId(k));
                    let w = choose|w: int| 0 <= w < n.len() && n[w] == TaskId(k);
                    o.lemma_filter_pred(pred, w);
                    assert(pred(TaskId(k)));
                    assert(k != task_id.0);
                    assert(old(self).order_view().contains(TaskId(k)));
                    assert(old(self).view().contains_key(k));
                }
                if self.view().contains_key(k) {
                    assert(k != task_id.0);
                    assert(old(self).view().contains_key(k));
                    assert(o.contains(TaskId(k)));
                    let w = choose|w: int| 0 <= w < o.len() && o[w] == TaskId(k);
                    assert(pred(o[w]));
                    o.lemma_filter_contains(pred, w);
                }
            }
            assert forall|a: int, b: int| 0 <= a < b < n.len() implies n[a].0 < n[b].0 by {
                lemma_filter_increasing(o, pred);
            }
        }
        Ok(removed)
    }

    /// Ids of all tasks in increasing order.
    pub fn sorted_task_ids(&self) -> (ids: Vec<TaskId>)
        ensures
            ids@ == self.order_view(),
    {
        let mut ids: Vec<TaskId> = Vec::new();
        for i in 0..self.order_ids.len()
            invariant
                ids@ == self.order_view().take(i as int),
        {
            ids.push(self.order_ids[i]);
            proof {
                assert(self.order_view().take(i as int + 1) =~= self.order_view().take(i as int).push(self.order_view()[i as int]));
            }
        }
        proof {
            assert(self.order_view().take(self.order_view().len() as int) =~= self.order_view());
        }
        ids
    }

    /// The stored tasks in increasing id order.
    pub fn tasks_sorted_by_id(&self) -> (ts: Vec<&TaskEntity<O>>)
        requires
            self.wf(),
        ensures
            ts@.len() == self.order_view().len(),
            forall|i: int| 0 <= i < ts@.len() ==> *ts@[i] == self.view()[(#[trigger] self.order_view()[i]).0],
    {
        let mut ts: Vec<&TaskEntity<O>> = Vec::new();
        for i in 0..self.order_ids.len()
            invariant
                self.wf(),
                ts@.len() == i,
                forall|j: int| 0 <= j < i ==> *ts@[j] == self.view()[(#[trigger] self.order_view()[j]).0],
        {
            let id = self.order_ids[i];
            proof {
                assert(self.order_view().contains(id));
                assert(self.view().contains_key(id.0));
            }
            match self.tasks.get(&id.0) {
                Some(t) => ts.push(t),
                None => {},
            }
        }
        ts
    }

    /// All stored tasks (in increasing id order).
    pub fn tasks(&self) -> (ts: Vec<&TaskEntity<O>>)
        requires
            self.wf(),
        ensures
            ts@.len() == self.order_view().len(),
            forall|i: int| 0 <= i < ts@.len() ==> *ts@[i] == self.view()[(#[trigger] self.order_view()[i]).0],
    {
        self.tasks_sorted_by_id()
    }

    pub fn created_at(&self) -> (t: i128)
        ensures
            t == self.created_at_view(),
    {
        self.created_at
    }
}

/// Relays worker results to the repository manager, knowing which task each worker polls.
pub struct WorkerBridge {
    mapping: HashMap<u64, TaskId>,
}

impl WorkerBridge {
    pub closed spec fn mapping_view(&self) -> Map<u64, TaskId> {
        self.mapping@
    }

    pub fn new(mapping: HashMap<u64, TaskId>) -> (b: WorkerBridge)
        ensures
            b.mapping_view() == mapping@,
    {
        WorkerBridge { mapping }
    }

    /// The task that a worker polls.
    pub fn task_of(&self, worker: u64) -> (r: Option<TaskId>)
        ensures
            r is Some <==> self.mapping_view().contains_key(worker),
            r matches Some(t) ==> t == self.mapping_view()[worker],
    {
        match self.mapping.get(&worker) {
            Some(t) => Some(*t),
            None => None,
        }
    }
}

/// Keeps the repository current from worker events: maps a worker to its task
/// and stores the event's result, status, metrics and schedule.
pub struct TasksRepoManager<O> {
    repository: TaskRepository<O>,
    mapping: HashMap<u64, TaskId>,
}

/// The snapshot a worker event describes.
pub open spec fn snapshot_of_event<O>(s: TaskSnapshot<O>, e: WorkerEvent<O>) -> bool {
    &&& s.poll_result_view() == e.poll_result
    &&& s.poll_status_view() == poll_status_of(e.state)
    &&& s.metrics_view() == e.metrics
}

impl<O> TasksRepoManager<O> {
    pub closed spec fn repository_view(&self) -> TaskRepository<O> {
        self.repository
    }

    pub closed spec fn mapping_view(&self) -> Map<u64, TaskId> {
        self.mapping@
    }

    pub fn new(repository: TaskRepository<O>, mapping: HashMap<u64, TaskId>) -> (m: TasksRepoManager<O>)
        ensures
            m.repository_view() == repository,
            m.mapping_view() == mapping@,
    {
        TasksRepoManager { repository, mapping }
    }

    pub fn repository(&self) -> (r: &TaskRepository<O>)
        ensures
            *r == self.repository_view(),
    {
        &self.repository
    }

    /// Applies a worker event to the task of its worker. Returns the task that
    /// changed, or nothing when the worker or its task is unknown.
    pub fn handle_worker_event(&mut self, event: WorkerEvent<O>) -> (r: Option<TaskId>)
        requires
            old(self).repository_view().wf(),
        ensures
            final(self).repository_view().wf(),
            final(self).mapping_view() == old(self).mapping_view(),
            final(self).repository_view().order_view() == old(self).repository_view().order_view(),
            !old(self).mapping_view().contains_key(event.id.0) ==> r is None && final(self).repository_view()
                == old(self).repository_view(),
            old(self).mapping_view().contains_key(event.id.0) ==> ({
                let id = old(self).mapping_view()[event.id.0];
                let old_repo = old(self).repository_view();
                let new_repo = final(self).repository_view();
                if old_repo.view().contains_key(id.0) {
                    &&& r == Some(id)
                    &&& new_repo.view().dom() == old_repo.view().dom()
                    &&& forall|k: u64| k != id.0 && #[trigger] old_repo.view().contains_key(k) ==> new_repo.view()[k] == old_repo.view()[k]
                    &&& snapshot_of_event(new_repo.view()[id.0].snapshot_view(), event)
                    &&& new_repo.view()[id.0].poll_config_view() == event.poll_config
                    &&& new_repo.view()[id.0].meta_view() == old_repo.view()[id.0].meta_view()
                } else {
                    &&& r is None
                    &&& new_repo.view() == old_repo.view()
                }
            }),
    {
        let task_id = match self.mapping.get(&event.id.0) {
            Some(id) => *id,
            None => return None,
        };
        let WorkerEvent { id: _, poll_result, state, metrics, poll_config } = event;
        let snapshot = TaskSnapshot::new().with_poll_result(poll_result).with_poll_status(PollStatus::from(state)).with_metrics(metrics);
        let update = TaskUpdateDto { snapshot: Some(snapshot), poll_config: Some(poll_config) };
        let ghost u = update;
        match self.repository.update_task(&task_id, update) {
            Ok(()) => {
                proof {
                    let changed = choose|changed: bool| self.repository.view()[task_id.0].updated_by(&old(self).repository.view()[task_id.0], u, changed);
                }
                Some(task_id)
            },
            Err(_) => None,
        }
    }
}

/// Filtering keeps a strictly increasing sequence strictly increasing.
/// Filtering out an id that does not occur keeps the sequence as it is.
proof fn lemma_filter_absent(s: Seq<TaskId>, id: TaskId)
    requires
        !s.contains(id),
    ensures
        s.filter(|x: TaskId| x != id) == s,
    decreases s.len(),
{
    reveal(Seq::filter);
    if s.len() > 0 {
        assert(!s.drop_last().contains(id)) by {
            if s.drop_last().contains(id) {
                let w = choose|w: int| 0 <= w < s.drop_last().len() && s.drop_last()[w] == id;
                assert(s[w] == id);
            }
        }
        lemma_filter_absent(s.drop_last(), id);
        assert(s.drop_last().push(s.last()) =~= s);
    }
}

/// Removing the task that was just added gives back the stored tasks and
/// their order as they were before the addition.
pub proof fn lemma_remove_undoes_add<O>(
    before: Map<u64, TaskEntity<O>>,
    before_order: Seq<TaskId>,
    after: Map<u64, TaskEntity<O>>,
    after_order: Seq<TaskId>,
    id: TaskId,
)
    requires
        !before.contains_key(id.0),
        forall|k: u64| #[trigger] before.contains_key(k) <==> before_order.contains(TaskId(k)),
        after_order == before_order.push(id),
        after.dom() == before.dom().insert(id.0),
        forall|k: u64| k != id.0 && #[trigger] before.contains_key(k) ==> after[k] == before[k],
    ensures
        after.remove(id.0) == before,
        after_order.filter(|x: TaskId| x != id) == before_order,
{
    assert(!before_order.contains(id)) by {
        if before_order.contains(id) {
            assert(before_order.contains(TaskId(id.0)));
        }
    }
    lemma_filter_absent(before_order, id);
    reveal(Seq::filter);
    assert(after_order.drop_last() =~= before_order);
    assert(after.remove(id.0) =~= before);
}

proof fn lemma_filter_increasing(s: Seq<TaskId>, pred: spec_fn(TaskId) -> bool)
    requires
        strictly_increasing(s),
    ensures
        strictly_increasing(s.filter(pred)),
    decreases s.len(),
{
    reveal(Seq::filter);
    if s.len() > 0 {
        lemma_filter_increasing(s.drop_last(), pred);
        assert(strictly_increasing(s.drop_last()));
        let f = s.drop_last().filter(pred);
        if pred(s.last()) {
            assert forall|x: TaskId| #[trigger] f.contains(x) implies x.0 < s.last().0 by {
                s.drop_last().lemma_filter_contains_rev(pred, x);
                let w = choose|w: int| 0 <= w < s.drop_last().len() && s.drop_last()[w] == x;
                assert(s[w] == x);
            }
            let g = f.push(s.last());
            assert forall|a: int, b: int| 0 <= a < b < g.len() implies g[a].0 < g[b].0 by {
                if b == g.len() - 1 {
                    assert(f.contains(g[a]));
                }
            }
        }
    }
}

/// Two equal elements at distinct positions count twice.
proof fn lemma_count_two(s: Seq<u64>, a: int, b: int)
    requires
        0 <= a < b < s.len(),
        s[a] == s[b],
    ensures
        s.to_multiset().count(s[a]) >= 2,
    decreases s.len(),
{
    let x = s[a];
    if b == s.len() - 1 {
        vstd::seq_lib::lemma_multiset_commutative::<u64>(s.drop_last(), seq![s.last()]);
        assert(s.drop_last() + seq![s.last()] =~= s);
        assert(s.drop_last().contains(x)) by {
            assert(s.drop_last()[a] == x);
        }
        s.drop_last().to_multiset_ensures();
        seq![s.last()].to_multiset_ensures();
    } else {
        lemma_count_two(s.drop_last(), a, b);
        vstd::seq_lib::lemma_multiset_commutative::<u64>(s.drop_last(), seq![s.last()]);
        assert(s.drop_last() + seq![s.last()] =~= s);
        assert(s.drop_last()[a] == x);
    }
}

} // verus!
