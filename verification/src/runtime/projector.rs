use vstd::prelude::*;
use crate::event::{ChangeKind, TaskFact};
use crate::ids::{TaskId, TaskStatus};
use crate::view::{copy_option, option_copied, HistoryEntryView, MonitorSnapshot, TaskView};

verus! {

/// The stored view of one task, under the id its facts carry.
pub struct Projected<O> {
    pub id: TaskId,
    pub view: TaskView<O>,
}

/// What the projector publishes after a fact.
pub enum Published<O> {
    /// The stored view of `task_id` changed; publish it with `kind`.
    Changed { task_id: TaskId, kind: ChangeKind },
    /// The task is gone; `view` is its last view.
    Removed { task_id: TaskId, view: TaskView<O> },
}

/// `a` comes before `b` in a snapshot: by the view's own id, and between views
/// with the same id by the id their facts carry.
pub open spec fn precedes<O>(a: Projected<O>, b: Projected<O>) -> bool {
    a.view.id.0 < b.view.id.0 || (a.view.id.0 == b.view.id.0 && a.id.0 < b.id.0)
}

pub open spec fn in_view_order<O>(s: Seq<Projected<O>>) -> bool {
    forall|i: int, j: int| 0 <= i < j < s.len() ==> precedes(#[trigger] s[i], #[trigger] s[j])
}

pub open spec fn keys_unique<O>(s: Seq<Projected<O>>) -> bool {
    forall|i: int, j: int|
        0 <= i < s.len() && 0 <= j < s.len() && i != j ==> (#[trigger] s[i]).id != (#[trigger] s[j]).id
}

pub open spec fn has_key<O>(s: Seq<Projected<O>>, id: TaskId) -> bool {
    exists|i: int| 0 <= i < s.len() && (#[trigger] s[i]).id == id
}

pub open spec fn key_index<O>(s: Seq<Projected<O>>, id: TaskId) -> int {
    choose|i: int| 0 <= i < s.len() && (#[trigger] s[i]).id == id
}

/// The stored views as a map from task id.
pub open spec fn views_map<O>(s: Seq<Projected<O>>) -> Map<TaskId, TaskView<O>> {
    Map::new(|k: TaskId| has_key(s, k), |k: TaskId| s[key_index(s, k)].view)
}

pub proof fn lemma_key_index<O>(s: Seq<Projected<O>>, i: int)
    requires
        keys_unique(s),
        0 <= i < s.len(),
    ensures
        has_key(s, s[i].id),
        key_index(s, s[i].id) == i,
{
    let id = s[i].id;
    assert(has_key(s, id));
    let j = key_index(s, id);
    if j != i {
        assert(s[j].id != s[i].id);
    }
}

/// Read-model holder: the last view of every task, and what to publish.
/// It neither polls nor derives statuses; it takes the views that facts carry.
pub struct Projector<O> {
    views: Vec<Projected<O>>,
}

impl<O> Projector<O> {
    pub closed spec fn entries_view(&self) -> Seq<Projected<O>> {
        self.views@
    }

    pub open spec fn view(&self) -> Map<TaskId, TaskView<O>> {
        views_map(self.entries_view())
    }

    /// Ids of the stored views, in snapshot order.
    pub closed spec fn keys_in_order(&self) -> Seq<TaskId> {
        self.entries_view().map_values(|p: Projected<O>| p.id)
    }

    pub open spec fn wf(&self) -> bool {
        &&& keys_unique(self.entries_view())
        &&& in_view_order(self.entries_view())
    }

    pub fn new() -> (p: Projector<O>)
        ensures
            p.wf(),
            p.view() == Map::<TaskId, TaskView<O>>::empty(),
    {
        let p = Projector { views: Vec::new() };
        proof {
            assert(p.view() =~= Map::<TaskId, TaskView<O>>::empty());
        }
        p
    }

    fn find(&self, id: TaskId) -> (r: Option<usize>)
        requires
            self.wf(),
        ensures
            r matches Some(i) ==> i < self.entries_view().len() && self.entries_view()[i as int].id == id
                && has_key(self.entries_view(), id) && key_index(self.entries_view(), id) == i,
            r is None ==> !has_key(self.entries_view(), id),
    {
        let mut i: usize = 0;
        while i < self.views.len()
            invariant
                self.wf(),
                i <= self.views@.len(),
                forall|j: int| 0 <= j < i ==> (#[trigger] self.views@[j]).id != id,
            decreases self.views@.len() - i,
        {
            if self.views[i].id.0 == id.0 {
                proof {
                    lemma_key_index(self.entries_view(), i as int);
                }
                return Some(i);
            }
            i = i + 1;
        }
        None
    }

    /// Takes out the stored view at position `i`.
    fn take_out(&mut self, i: usize) -> (e: Projected<O>)
        requires
            old(self).wf(),
            i < old(self).entries_view().len(),
        ensures
            final(self).wf(),
            e == old(self).entries_view()[i as int],
            final(self).view() == old(self).view().remove(e.id),
    {
        let ghost s = self.entries_view();
        let e = self.views.remove(i);
        proof {
            let t = self.entries_view();
            assert(t == s.remove(i as int));
            assert forall|a: int, b: int| 0 <= a < b < t.len() implies precedes(#[trigger] t[a], #[trigger] t[b]) by {
                let a2 = if a < i { a } else { a + 1 };
                let b2 = if b < i { b } else { b + 1 };
                assert(t[a] == s[a2]);
                assert(t[b] == s[b2]);
            }
            assert forall|a: int, b: int| 0 <= a < t.len() && 0 <= b < t.len() && a != b implies (#[trigger] t[a]).id != (#[trigger] t[b]).id by {
                let a2 = if a < i { a } else { a + 1 };
                let b2 = if b < i { b } else { b + 1 };
                assert(t[a] == s[a2]);
                assert(t[b] == s[b2]);
            }
            assert forall|k: TaskId| #[trigger] has_key(t, k) == (has_key(s, k) && k != e.id) by {
                if has_key(t, k) {
                    let j = key_index(t, k);
                    let j2 = if j < i { j } else { j + 1 };
                    assert(s[j2] == t[j]);
                    assert(j2 != i);
                }
                if has_key(s, k) && k != e.id {
                    let j = key_index(s, k);
                    if j < i {
                        assert(t[j] == s[j]);
                    } else {
                        assert(j != i);
                        assert(t[j - 1] == s[j]);
                    }
                }
            }
            assert(views_map(t) =~= views_map(s).remove(e.id)) by {
                assert forall|k: TaskId| #[trigger] views_map(t).contains_key(k) implies views_map(t)[k] == views_map(s)[k] by {
                    let j = key_index(t, k);
                    lemma_key_index(t, j);
                    let j2 = if j < i { j } else { j + 1 };
                    assert(s[j2] == t[j]);
                    lemma_key_index(s, j2);
                }
            }
        }
        e
    }

    /// Stores `view` under `id`, which is not stored yet, at its place in the
    /// snapshot order.
    fn place(&mut self, id: TaskId, view: TaskView<O>)
        requires
            old(self).wf(),
            !has_key(old(self).entries_view(), id),
        ensures
            final(self).wf(),
            final(self).view() == old(self).view().insert(id, view),
    {
        let ghost s = self.entries_view();
        let ghost ne = Projected { id, view };
        let mut p: usize = 0;
        while p < self.views.len()
            invariant
                self.entries_view() == s,
                ne.id == id,
                ne.view == view,
                p <= s.len(),
                forall|j: int| 0 <= j < p ==> precedes(#[trigger] s[j], ne),
            ensures
                p <= s.len(),
                forall|j: int| 0 <= j < p ==> precedes(#[trigger] s[j], ne),
                p < s.len() ==> !precedes(s[p as int], ne),
            decreases s.len() - p,
        {
            let q = &self.views[p];
            if q.view.id.0 < view.id.0 || (q.view.id.0 == view.id.0 && q.id.0 < id.0) {
                p = p + 1;
            } else {
                break;
            }
        }
        self.views.insert(p, Projected { id, view });
        proof {
            let t = self.entries_view();
            assert(t == s.insert(p as int, ne));
            assert(forall|j: int| 0 <= j < s.len() ==> (#[trigger] s[j]).id != id);
            if p < s.len() {
                assert(s[p as int].id != id);
                assert(precedes(ne, s[p as int]));
            }
            assert forall|a: int, b: int| 0 <= a < b < t.len() implies precedes(#[trigger] t[a], #[trigger] t[b]) by {
                if b < p {
                } else if b == p {
                } else if a < p {
                    assert(t[b] == s[b - 1]);
                } else if a == p {
                    assert(t[b] == s[b - 1]);
                    if b - 1 > p {
                        assert(precedes(s[p as int], s[b - 1]));
                    }
                } else {
                    assert(t[a] == s[a - 1]);
                    assert(t[b] == s[b - 1]);
                }
            }
            assert forall|a: int, b: int| 0 <= a < t.len() && 0 <= b < t.len() && a != b implies (#[trigger] t[a]).id != (#[trigger] t[b]).id by {
                if a != p && b != p {
                    let a2 = if a < p { a } else { a - 1 };
                    let b2 = if b < p { b } else { b - 1 };
                    assert(t[a] == s[a2]);
                    assert(t[b] == s[b2]);
                } else if a == p {
                    let b2 = if b < p { b } else { b - 1 };
                    assert(t[b] == s[b2]);
                } else {
                    let a2 = if a < p { a } else { a - 1 };
                    assert(t[a] == s[a2]);
                }
            }
            assert forall|k: TaskId| #[trigger] has_key(t, k) == (has_key(s, k) || k == id) by {
                if has_key(s, k) {
                    let j = key_index(s, k);
                    if j < p {
                        assert(t[j].id == k);
                    } else {
                        assert(t[j + 1].id == k);
                    }
                }
                if has_key(t, k) {
                    let j = key_index(t, k);
                    if j < p {
                        assert(s[j].id == k);
                    } else if j > p {
                        assert(s[j - 1].id == k);
                    }
                }
                assert(t[p as int].id == id);
            }
            assert(views_map(t) =~= views_map(s).insert(id, view)) by {
                assert forall|k: TaskId| #[trigger] views_map(t).contains_key(k) implies views_map(t)[k] == views_map(s).insert(id, view)[k] by {
                    let j = key_index(t, k);
                    lemma_key_index(t, j);
                    if k != id {
                        if j < p {
                            assert(s[j] == t[j]);
                            lemma_key_index(s, j);
                        } else {
                            assert(s[j - 1] == t[j]);
                            lemma_key_index(s, j - 1);
                        }
                    }
                }
            }
        }
    }

    /// Stores `view` as the view of `id`, in place of any earlier one.
    fn put(&mut self, id: TaskId, view: TaskView<O>)
        requires
            old(self).wf(),
        ensures
            final(self).wf(),
            final(self).view() == old(self).view().insert(id, view),
    {
        let ghost before = self.view();
        match self.find(id) {
            Some(i) => {
                let _ = self.take_out(i);
            },
            None => {},
        }
        proof {
            assert(self.view() == before.remove(id));
            assert(!self.view().contains_key(id));
        }
        self.place(id, view);
        proof {
            assert(self.view() =~= before.insert(id, view));
        }
    }

    /// Takes in one fact. A change stores the carried view; a removal drops a
    /// known view; a crash marks a known task failed. Facts about unknown tasks
    /// (other than changes) publish nothing.
    pub fn apply(&mut self, fact: TaskFact<O>) -> (r: Option<Published<O>>)
        requires
            old(self).wf(),
        ensures
            final(self).wf(),
            match fact {
                TaskFact::Changed { task_id, kind, view } => {
                    &&& final(self).view() == old(self).view().insert(task_id, view)
                    &&& r matches Some(Published::Changed { task_id: t, kind: k }) && t == task_id && k == kind
                },
                TaskFact::Removed { task_id } => if old(self).view().contains_key(task_id) {
                    &&& final(self).view() == old(self).view().remove(task_id)
                    &&& r matches Some(Published::Removed { task_id: t, view }) && t == task_id
                        && view == old(self).view()[task_id]
                } else {
                    &&& final(self).view() == old(self).view()
                    &&& r is None
                },
                TaskFact::Crashed { task_id, reason } => if old(self).view().contains_key(task_id) {
                    &&& final(self).view() == old(self).view().insert(
                        task_id,
                        TaskView { status: TaskStatus::Failed, ..old(self).view()[task_id] },
                    )
                    &&& r matches Some(Published::Changed { task_id: t, kind: k }) && t == task_id
                        && k == ChangeKind::Failed { reason }
                } else {
                    &&& final(self).view() == old(self).view()
                    &&& r is None
                },
            },
    {
        match fact {
            TaskFact::Changed { task_id, kind, view } => {
                self.put(task_id, view);
                Some(Published::Changed { task_id, kind })
            },
            TaskFact::Removed { task_id } => {
                match self.find(task_id) {
                    Some(i) => {
                        let removed = self.take_out(i);
                        Some(Published::Removed { task_id, view: removed.view })
                    },
                    None => None,
                }
            },
            TaskFact::Crashed { task_id, reason } => {
                match self.find(task_id) {
                    Some(i) => {
                        let ghost s = self.entries_view();
                        self.views[i].view.status = TaskStatus::Failed;
                        proof {
                            let t = self.entries_view();
                            let nv = TaskView { status: TaskStatus::Failed, ..s[i as int].view };
                            assert(t == s.update(i as int, Projected { id: task_id, view: nv }));
                            assert forall|a: int, b: int| 0 <= a < b < t.len() implies precedes(#[trigger] t[a], #[trigger] t[b]) by {
                                assert(t[a].id == s[a].id && t[a].view.id == s[a].view.id);
                                assert(t[b].id == s[b].id && t[b].view.id == s[b].view.id);
                                assert(precedes(s[a], s[b]));
                            }
                            assert forall|a: int, b: int| 0 <= a < t.len() && 0 <= b < t.len() && a != b implies (#[trigger] t[a]).id != (#[trigger] t[b]).id by {
                                assert(t[a].id == s[a].id);
                                assert(t[b].id == s[b].id);
                            }
                            assert forall|k: TaskId| #[trigger] has_key(t, k) == has_key(s, k) by {
                                if has_key(s, k) {
                                    let j = key_index(s, k);
                                    assert(t[j].id == k);
                                }
                                if has_key(t, k) {
                                    let j = key_index(t, k);
                                    assert(s[j].id == k);
                                }
                            }
                            assert(views_map(t) =~= views_map(s).insert(task_id, nv)) by {
                                assert forall|k: TaskId| #[trigger] views_map(t).contains_key(k) implies views_map(t)[k] == views_map(s).insert(task_id, nv)[k] by {
                                    let j = key_index(t, k);
                                    lemma_key_index(t, j);
                                    lemma_key_index(s, j);
                                }
                            }
                        }
                        Some(Published::Changed { task_id, kind: ChangeKind::Failed { reason } })
                    },
                    None => None,
                }
            },
        }
    }

    /// Number of stored views.
    pub fn len(&self) -> (n: usize)
        requires
            self.wf(),
        ensures
            n == self.view().len(),
    {
        proof {
            self.lemma_keys();
        }
        self.views.len()
    }

    /// The ids in snapshot order are the stored ids, each once.
    proof fn lemma_keys(&self)
        requires
            self.wf(),
        ensures
            self.keys_in_order().len() == self.entries_view().len(),
            self.keys_in_order().no_duplicates(),
            forall|k: TaskId| #[trigger] self.view().contains_key(k) <==> self.keys_in_order().contains(k),
            forall|i: int|
                0 <= i < self.entries_view().len() ==> #[trigger] self.keys_in_order()[i] == self.entries_view()[i].id
                    && self.view().contains_key(self.entries_view()[i].id)
                    && self.view()[self.entries_view()[i].id] == self.entries_view()[i].view,
            self.view().dom().len() == self.entries_view().len(),
            self.view().dom().finite(),
    {
        let s = self.entries_view();
        let ids = self.keys_in_order();
        assert(ids.no_duplicates()) by {
            assert forall|a: int, b: int| 0 <= a < ids.len() && 0 <= b < ids.len() && a != b implies ids[a] != ids[b] by {
                assert(s[a].id != s[b].id);
            }
        }
        assert forall|i: int| 0 <= i < s.len() implies #[trigger] ids[i] == s[i].id && self.view().contains_key(s[i].id)
            && self.view()[s[i].id] == s[i].view by {
            lemma_key_index(s, i);
        }
        assert(self.view().dom() =~= ids.to_set()) by {
            assert forall|k: TaskId| #[trigger] self.view().dom().contains(k) <==> ids.to_set().contains(k) by {
                if has_key(s, k) {
                    let j = key_index(s, k);
                    assert(ids[j] == k);
                }
                if ids.to_set().contains(k) {
                    let j = choose|j: int| 0 <= j < ids.len() && ids[j] == k;
                    assert(s[j].id == k);
                }
            }
        }
        assert forall|k: TaskId| #[trigger] self.view().contains_key(k) <==> ids.contains(k) by {
            assert(self.view().dom().contains(k) == ids.to_set().contains(k));
        }
        ids.unique_seq_to_set();
    }

    /// Ids of the stored views in snapshot order: by the views' own ids.
    pub fn task_ids(&self) -> (ids: Vec<TaskId>)
        requires
            self.wf(),
        ensures
            ids@ == self.keys_in_order(),
            ids@.no_duplicates(),
            forall|k: TaskId| #[trigger] self.view().contains_key(k) <==> ids@.contains(k),
            forall|i: int, j: int|
                0 <= i < j < ids@.len() ==> self.view()[#[trigger] ids@[i]].id.0 <= self.view()[#[trigger] ids@[j]].id.0,
    {
        let mut ids: Vec<TaskId> = Vec::new();
        for k in 0..self.views.len()
            invariant
                self.wf(),
                ids@.len() == k,
                forall|i: int| 0 <= i < k ==> ids@[i] == self.entries_view()[i].id,
        {
            ids.push(self.views[k].id);
        }
        proof {
            self.lemma_keys();
            let s = self.entries_view();
            assert(ids@ =~= self.keys_in_order());
            assert forall|i: int, j: int| 0 <= i < j < ids@.len() implies self.view()[#[trigger] ids@[i]].id.0
                <= self.view()[#[trigger] ids@[j]].id.0 by {
                assert(precedes(s[i], s[j]));
                assert(ids@[i] == self.keys_in_order()[i]);
                assert(ids@[j] == self.keys_in_order()[j]);
            }
        }
        ids
    }

    /// The stored view of `id`.
    pub fn view_of(&self, id: TaskId) -> (r: Option<&TaskView<O>>)
        requires
            self.wf(),
        ensures
            r is Some <==> self.view().contains_key(id),
            r matches Some(v) ==> *v == self.view()[id],
    {
        match self.find(id) {
            Some(i) => Some(&self.views[i].view),
            None => None,
        }
    }
}

/// `c` is a copy of `v`: the same fields, with copies of the results (see
/// `response_copied`).
pub open spec fn view_copied<O: Clone>(c: TaskView<O>, v: TaskView<O>) -> bool {
    &&& c.id == v.id
    &&& c.name@ == v.name@
    &&& c.revision == v.revision
    &&& c.target@ == v.target@
    &&& c.status == v.status
    &&& c.interval_ms == v.interval_ms
    &&& c.limit == v.limit
    &&& c.metrics == v.metrics
    &&& option_copied(c.result, v.result)
    &&& c.history@.len() == v.history@.len()
    &&& forall|i: int|
        0 <= i < v.history@.len() ==> (#[trigger] c.history@[i]).timestamp == v.history@[i].timestamp
            && option_copied(c.history@[i].result, v.history@[i].result)
}

/// A copy of a view; results are copied with `copy_response`.
pub fn copy_view<O: Clone>(v: &TaskView<O>) -> (c: TaskView<O>)
    ensures
        view_copied(c, *v),
{
    let mut history: Vec<HistoryEntryView<O>> = Vec::new();
    for i in 0..v.history.len()
        invariant
            history@.len() == i,
            forall|j: int|
                0 <= j < i ==> (#[trigger] history@[j]).timestamp == v.history@[j].timestamp
                    && option_copied(history@[j].result, v.history@[j].result),
    {
        let e = &v.history[i];
        history.push(HistoryEntryView { timestamp: e.timestamp, result: copy_option(&e.result) });
    }
    TaskView {
        id: v.id,
        name: v.name.clone(),
        revision: v.revision,
        target: v.target.clone(),
        status: v.status,
        interval_ms: v.interval_ms,
        limit: v.limit,
        metrics: v.metrics,
        result: copy_option(&v.result),
        history,
    }
}

impl<O: Clone> Projector<O> {
    /// All stored views, copied, ordered by the views' own ids: view `i` of the
    /// snapshot is the copy of the stored view of `keys_in_order()[i]`.
    pub fn snapshot(&self) -> (s: MonitorSnapshot<O>)
        requires
            self.wf(),
        ensures
            s.tasks@.len() == self.view().len(),
            self.keys_in_order().len() == s.tasks@.len(),
            self.keys_in_order().no_duplicates(),
            forall|k: TaskId| #[trigger] self.view().contains_key(k) <==> self.keys_in_order().contains(k),
            forall|i: int, j: int| 0 <= i < j < s.tasks@.len() ==> (#[trigger] s.tasks@[i]).id.0 <= (#[trigger] s.tasks@[j]).id.0,
            forall|i: int|
                0 <= i < s.tasks@.len() ==> view_copied(
                    #[trigger] s.tasks@[i],
                    self.view()[self.keys_in_order()[i]],
                ),
    {
        let mut tasks: Vec<TaskView<O>> = Vec::new();
        for k in 0..self.views.len()
            invariant
                self.wf(),
                tasks@.len() == k,
                forall|i: int|
                    0 <= i < k ==> view_copied(#[trigger] tasks@[i], self.entries_view()[i].view),
        {
            tasks.push(copy_view(&self.views[k].view));
        }
        proof {
            self.lemma_keys();
            let e = self.entries_view();
            assert forall|i: int, j: int| 0 <= i < j < tasks@.len() implies (#[trigger] tasks@[i]).id.0 <= (
            #[trigger] tasks@[j]).id.0 by {
                assert(precedes(e[i], e[j]));
            }
            assert forall|i: int| 0 <= i < tasks@.len() implies view_copied(
                #[trigger] tasks@[i],
                self.view()[self.keys_in_order()[i]],
            ) by {
                assert(self.keys_in_order()[i] == e[i].id);
            }
        }
        MonitorSnapshot { tasks }
    }
}

} // verus!
