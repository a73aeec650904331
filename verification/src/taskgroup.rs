use vstd::prelude::*;
use crate::clock::now_nanos;
use std::collections::HashMap;
use crate::entity::TaskMeta;
use crate::ids::Uid;
use crate::history::{History, pushed};
use crate::polling::Metrics;
use crate::text::{decimal, push_decimal};


verus! {

broadcast use vstd::std_specs::hash::group_hash_axioms;

/// Errors of parsing a bounded text value.
#[derive(Clone, Debug, PartialEq, Eq)]
pub enum ParseError {
    CantBeEmpty { name: String },
    InvalidLength { message: String, min: usize, max: usize, provide: usize },
    Common { message: String },
}

/// Lookup error of a group or of a task inside a group.
#[derive(Clone, Debug, PartialEq, Eq)]
pub enum GroupError {
    NotFound(String),
}

/// Index of a group inside a snapshot.
#[derive(Clone, Copy, Debug, PartialEq, Eq)]
pub struct TaskGroupId(pub usize);

impl TaskGroupId {
    pub fn new(v: usize) -> (g: TaskGroupId)
        ensures
            g.0 == v,
    {
        TaskGroupId(v)
    }

    pub fn as_usize(&self) -> (v: usize)
        ensures
            v == self.0,
    {
        self.0
    }
}

/// Index of a task inside a group.
#[derive(Clone, Copy, Debug, PartialEq, Eq)]
pub struct TaskPosition(pub usize);

impl TaskPosition {
    pub fn new(v: usize) -> (p: TaskPosition)
        ensures
            p.0 == v,
    {
        TaskPosition(v)
    }

    pub fn as_usize(&self) -> (v: usize)
        ensures
            v == self.0,
    {
        self.0
    }
}

pub fn task_position_to_idx(task_position: &TaskPosition) -> (i: usize)
    ensures
        i == task_position.0,
{
    task_position.as_usize()
}

pub const GROUP_NAME_MIN_LEN: usize = 1;

pub const GROUP_NAME_MAX_LEN: usize = 64;

/// The message for a name longer than the maximum.
pub open spec fn too_long_message(len: nat, max: nat) -> Seq<char> {
    "too long (got "@ + decimal(len) + ", max "@ + decimal(max) + ")"@
}

/// Name of a group: 1 to 64 bytes of UTF-8.
#[derive(Clone, Debug)]
pub struct TaskGroupName(String);

impl TaskGroupName {
    pub closed spec fn view(&self) -> Seq<char> {
        self.0@
    }

    /// Accepts a name of 1 to 64 bytes. An empty name cannot be empty; a
    /// longer one has an invalid length (with the message saying so).
    pub fn parse(name: &str) -> (r: Result<TaskGroupName, ParseError>)
        ensures
            name.len() == 0 ==> (r matches Err(ParseError::CantBeEmpty { name: n }) && n@
                == "GroupName"@),
            name.len() > GROUP_NAME_MAX_LEN ==> (r matches Err(
                ParseError::InvalidLength { message, min, max, provide },
            ) && min == GROUP_NAME_MIN_LEN && max == GROUP_NAME_MAX_LEN && provide
                == name.len() && message@ == too_long_message(
                name.len() as nat,
                GROUP_NAME_MAX_LEN as nat,
            )),
            1 <= name.len() <= GROUP_NAME_MAX_LEN ==> (r matches Ok(g) && g.view()
                == name@),
    {
        let len = name.len();
        if len == 0 {
            return Err(ParseError::CantBeEmpty { name: String::from_str("GroupName") });
        }
        if len > GROUP_NAME_MAX_LEN {
            let mut message = String::from_str("too long (got ");
            push_decimal(&mut message, len as u128);
            message.append(", max ");
            push_decimal(&mut message, GROUP_NAME_MAX_LEN as u128);
            message.append(")");
            return Err(
                ParseError::InvalidLength {
                    message,
                    min: GROUP_NAME_MIN_LEN,
                    max: GROUP_NAME_MAX_LEN,
                    provide: len,
                },
            );
        }
        Ok(TaskGroupName(String::from_str(name)))
    }

    pub fn as_str(&self) -> (s: &str)
        ensures
            s@ == self.view(),
    {
        self.0.as_str()
    }
}

/// Result of the last poll of a task in a group, with its metrics and time.
#[derive(Clone, Debug)]
pub struct TaskData<R> {
    pub result: R,
    pub metrics: Metrics,
    pub last_update: i128,
}

/// A task inside a group: metadata, current data and the replaced data.
pub struct GroupTask<R> {
    pub meta: TaskMeta,
    pub data: TaskData<R>,
    pub history: History<TaskData<R>>,
}

/// Update of one task: its new result and metrics.
#[derive(Clone, Debug)]
pub struct TaskDataUpdateMessage<R> {
    pub task_result: R,
    pub metrics: Metrics,
}

/// A routed update: which group and which task it is for.
#[derive(Clone, Debug)]
pub struct UpdateTaskState<R> {
    pub payload: TaskDataUpdateMessage<R>,
    pub group_id: TaskGroupId,
    pub task_position: TaskPosition,
}

/// `new` is `old` after an update: the old data went into the history and
/// the new data holds the update.
pub open spec fn task_updated<R>(old: GroupTask<R>, new: GroupTask<R>, m: TaskDataUpdateMessage<R>) -> bool {
    &&& new.meta == old.meta
    &&& new.history.depth() == old.history.depth()
    &&& new.history.view() == pushed(old.history.view(), old.history.depth(), old.data)
    &&& new.data.result == m.task_result
    &&& new.data.metrics == m.metrics
}

/// A named, ordered group of tasks.
pub struct TaskGroup<R> {
    name: TaskGroupName,
    tasks: Vec<GroupTask<R>>,
    last_update: i128,
}

impl<R> TaskGroup<R> {
    pub closed spec fn last_update_view(&self) -> i128 {
        self.last_update
    }

    pub closed spec fn name_view(&self) -> Seq<char> {
        self.name.view()
    }

    pub closed spec fn tasks_view(&self) -> Seq<GroupTask<R>> {
        self.tasks@
    }

    pub fn new(name: TaskGroupName, tasks: Vec<GroupTask<R>>) -> (g: TaskGroup<R>)
        ensures
            g.name_view() == name.view(),
            g.tasks_view() == tasks@,
    {
        TaskGroup { name, tasks, last_update: now_nanos() }
    }

    pub fn new_empty(name: TaskGroupName) -> (g: TaskGroup<R>)
        ensures
            g.name_view() == name.view(),
            g.tasks_view().len() == 0,
    {
        TaskGroup { name, tasks: Vec::new(), last_update: now_nanos() }
    }

    pub fn name(&self) -> (n: &TaskGroupName)
        ensures
            n.view() == self.name_view(),
    {
        &self.name
    }

    pub fn tasks(&self) -> (t: &[GroupTask<R>])
        ensures
            t@ == self.tasks_view(),
    {
        self.tasks.as_slice()
    }

    /// When the group was made (milliseconds since the epoch).
    pub fn last_update(&self) -> (t: i128)
        ensures
            t == self.last_update_view(),
    {
        self.last_update
    }

    pub fn len(&self) -> (n: usize)
        ensures
            n == self.tasks_view().len(),
    {
        self.tasks.len()
    }

    /// Appends a task; returns its position.
    pub fn add_taskstate(&mut self, value: GroupTask<R>) -> (p: TaskPosition)
        requires
            old(self).tasks_view().len() < usize::MAX,
        ensures
            final(self).tasks_view() == old(self).tasks_view().push(value),
            final(self).name_view() == old(self).name_view(),
            p.0 == old(self).tasks_view().len(),
    {
        self.tasks.push(value);
        TaskPosition::new(self.tasks.len() - 1)
    }

    pub fn get_task(&self, task_position: &TaskPosition) -> (t: Option<&GroupTask<R>>)
        ensures
            t is Some <==> task_position.0 < self.tasks_view().len(),
            t matches Some(x) ==> *x == self.tasks_view()[task_position.0 as int],
    {
        let idx = task_position_to_idx(task_position);
        if idx < self.tasks.len() {
            Some(&self.tasks[idx])
        } else {
            None
        }
    }

    /// Replaces the data of the task at `task_position`; the old data goes to
    /// its history. An unknown position is not found.
    pub fn update(&mut self, task_position: &TaskPosition, payload: TaskDataUpdateMessage<R>) -> (r: Result<(), GroupError>)
        ensures
            final(self).name_view() == old(self).name_view(),
            task_position.0 >= old(self).tasks_view().len() ==> final(self).tasks_view() == old(self).tasks_view()
                && (r matches Err(GroupError::NotFound(msg)) && msg@ == "Task at position "@ + decimal(task_position.0 as nat) + " not found"@),
            task_position.0 < old(self).tasks_view().len() ==> r is Ok && ({
                let i = task_position.0 as int;
                &&& final(self).tasks_view().len() == old(self).tasks_view().len()
                &&& forall|j: int| 0 <= j < old(self).tasks_view().len() && j != i ==> final(self).tasks_view()[j] == old(self).tasks_view()[j]
                &&& task_updated(old(self).tasks_view()[i], final(self).tasks_view()[i], payload)
            }),
    {
        let idx = task_position.as_usize();
        if idx >= self.tasks.len() {
            let mut msg = String::from_str("Task at position ");
            push_decimal(&mut msg, idx as u128);
            msg.append(" not found");
            return Err(GroupError::NotFound(msg));
        }
        let mut data = TaskData { result: payload.task_result, metrics: payload.metrics, last_update: now_nanos() };
        std::mem::swap(&mut data, &mut self.tasks[idx].data);
        self.tasks[idx].history.push(data);
        Ok(())
    }
}

/// Sum of the group sizes.
pub open spec fn total_of<R>(groups: Seq<TaskGroup<R>>) -> nat
    decreases groups.len(),
{
    if groups.len() == 0 {
        0
    } else {
        total_of(groups.drop_last()) + groups.last().tasks_view().len()
    }
}

/// All groups of tasks.
pub struct Snapshot<R> {
    groups: Vec<TaskGroup<R>>,
    last_update: i128,
}

impl<R> Snapshot<R> {
    pub closed spec fn last_update_view(&self) -> i128 {
        self.last_update
    }

    pub closed spec fn groups_view(&self) -> Seq<TaskGroup<R>> {
        self.groups@
    }

    pub fn new(groups: Vec<TaskGroup<R>>) -> (s: Snapshot<R>)
        ensures
            s.groups_view() == groups@,
    {
        Snapshot { groups, last_update: now_nanos() }
    }

    pub fn new_empty() -> (s: Snapshot<R>)
        ensures
            s.groups_view().len() == 0,
    {
        Snapshot { groups: Vec::new(), last_update: now_nanos() }
    }

    pub fn groups(&self) -> (g: &[TaskGroup<R>])
        ensures
            g@ == self.groups_view(),
    {
        self.groups.as_slice()
    }

    /// When a task of the snapshot was last updated (milliseconds since the epoch).
    pub fn last_update(&self) -> (t: i128)
        ensures
            t == self.last_update_view(),
    {
        self.last_update
    }

    /// Number of tasks over all groups.
    pub fn total_tasks(&self) -> (n: usize)
        requires
            total_of(self.groups_view()) <= usize::MAX,
        ensures
            n == total_of(self.groups_view()),
    {
        let mut total: usize = 0;
        for i in 0..self.groups.len()
            invariant
                total == total_of(self.groups_view().take(i as int)),
                total_of(self.groups_view()) <= usize::MAX,
        {
            proof {
                let t = self.groups_view().take(i as int + 1);
                assert(t.drop_last() =~= self.groups_view().take(i as int));
                lemma_total_prefix(self.groups_view(), i as int + 1);
            }
            total = total + self.groups[i].len();
        }
        proof {
            assert(self.groups_view().take(self.groups_view().len() as int) =~= self.groups_view());
        }
        total
    }

    /// Appends a group; returns its id.
    pub fn add_group(&mut self, group: TaskGroup<R>) -> (id: TaskGroupId)
        requires
            old(self).groups_view().len() < usize::MAX,
        ensures
            final(self).groups_view() == old(self).groups_view().push(group),
            id.0 == old(self).groups_view().len(),
    {
        self.groups.push(group);
        TaskGroupId::new(self.groups.len() - 1)
    }

    /// Routes an update to a task of a group. An unknown group, or an unknown
    /// position inside it, is not found.
    pub fn update_taskstate(
        &mut self,
        group_id: &TaskGroupId,
        task_position_id: &TaskPosition,
        data: TaskDataUpdateMessage<R>,
    ) -> (r: Result<(), GroupError>)
        ensures
            final(self).groups_view().len() == old(self).groups_view().len(),
            r is Err ==> final(self).last_update_view() == old(self).last_update_view(),
            group_id.0 >= old(self).groups_view().len() ==> final(self).groups_view() == old(self).groups_view()
                && (r matches Err(GroupError::NotFound(msg)) && msg@ == "Group "@ + decimal(group_id.0 as nat) + " not found"@),
            group_id.0 < old(self).groups_view().len() ==> ({
                let g = group_id.0 as int;
                let og = old(self).groups_view()[g];
                let ng = final(self).groups_view()[g];
                &&& forall|j: int| 0 <= j < old(self).groups_view().len() && j != g ==> final(self).groups_view()[j] == old(self).groups_view()[j]
                &&& ng.name_view() == og.name_view()
                &&& (task_position_id.0 >= og.tasks_view().len() ==> ng.tasks_view() == og.tasks_view() && r is Err)
                &&& (task_position_id.0 < og.tasks_view().len() ==> r is Ok && ng.tasks_view().len() == og.tasks_view().len()
                    && task_updated(og.tasks_view()[task_position_id.0 as int], ng.tasks_view()[task_position_id.0 as int], data)
                    && forall|j: int| 0 <= j < og.tasks_view().len() && j != task_position_id.0 ==> ng.tasks_view()[j] == og.tasks_view()[j])
            }),
    {
        let g = group_id.as_usize();
        if g >= self.groups.len() {
            let mut msg = String::from_str("Group ");
            push_decimal(&mut msg, g as u128);
            msg.append(" not found");
            return Err(GroupError::NotFound(msg));
        }
        let r = self.groups[g].update(task_position_id, data);
        match r {
            Ok(()) => {
                self.last_update = now_nanos();
                Ok(())
            },
            Err(e) => Err(e),
        }
    }
}

/// Keeps the group snapshot current: routes an update for a task uid to its
/// group and position.
pub struct SnapshotManager<R> {
    snapshot: Snapshot<R>,
    task_mapping: HashMap<u64, (TaskGroupId, TaskPosition)>,
}

impl<R> SnapshotManager<R> {
    pub closed spec fn snapshot_view(&self) -> Snapshot<R> {
        self.snapshot
    }

    pub closed spec fn mapping_view(&self) -> Map<u64, (TaskGroupId, TaskPosition)> {
        self.task_mapping@
    }

    /// The uid is mapped to a group and a position that exist.
    pub open spec fn routes(&self, uid: Uid) -> bool {
        &&& self.mapping_view().contains_key(uid.0)
        &&& ({
            let (g, p) = self.mapping_view()[uid.0];
            &&& g.0 < self.snapshot_view().groups_view().len()
            &&& p.0 < self.snapshot_view().groups_view()[g.0 as int].tasks_view().len()
        })
    }

    pub fn new(snapshot: Snapshot<R>, task_mapping: HashMap<u64, (TaskGroupId, TaskPosition)>) -> (m: SnapshotManager<R>)
        ensures
            m.snapshot_view() == snapshot,
            m.mapping_view() == task_mapping@,
    {
        SnapshotManager { snapshot, task_mapping }
    }

    pub fn snapshot(&self) -> (s: &Snapshot<R>)
        ensures
            *s == self.snapshot_view(),
    {
        &self.snapshot
    }

    /// Whether an update for `uid` can be routed.
    pub fn can_route(&self, uid: Uid) -> (b: bool)
        ensures
            b == self.routes(uid),
    {
        match self.task_mapping.get(&uid.0) {
            Some(gp) => {
                let (g, p) = *gp;
                g.0 < self.snapshot.groups.len() && p.0 < self.snapshot.groups[g.0].tasks.len()
            },
            None => false,
        }
    }

    /// Applies an update to the task of `uid`; returns where it went.
    pub fn update(&mut self, uid: Uid, data: TaskDataUpdateMessage<R>) -> (r: (TaskGroupId, TaskPosition))
        requires
            old(self).routes(uid),
        ensures
            r == old(self).mapping_view()[uid.0],
            final(self).mapping_view() == old(self).mapping_view(),
            ({
                let (g, p) = r;
                let og = old(self).snapshot_view().groups_view()[g.0 as int];
                let ng = final(self).snapshot_view().groups_view()[g.0 as int];
                &&& final(self).snapshot_view().groups_view().len() == old(self).snapshot_view().groups_view().len()
                &&& forall|j: int| 0 <= j < old(self).snapshot_view().groups_view().len() && j != g.0
                    ==> final(self).snapshot_view().groups_view()[j] == old(self).snapshot_view().groups_view()[j]
                &&& ng.name_view() == og.name_view()
                &&& ng.tasks_view().len() == og.tasks_view().len()
                &&& task_updated(og.tasks_view()[p.0 as int], ng.tasks_view()[p.0 as int], data)
                &&& forall|j: int| 0 <= j < og.tasks_view().len() && j != p.0 ==> ng.tasks_view()[j] == og.tasks_view()[j]
            }),
    {
        let (g, p) = *self.task_mapping.get(&uid.0).unwrap();
        let _ = self.snapshot.update_taskstate(&g, &p, data);
        (g, p)
    }
}

proof fn lemma_total_prefix<R>(s: Seq<TaskGroup<R>>, k: int)
    requires
        0 <= k <= s.len(),
    ensures
        total_of(s.take(k)) <= total_of(s),
    decreases s.len(),
{
    if k < s.len() {
        assert(s.drop_last().take(k) =~= s.take(k));
        lemma_total_prefix(s.drop_last(), k);
    } else {
        assert(s.take(k) =~= s);
    }
}

} // verus!
