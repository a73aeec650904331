use vstd::prelude::*;

verus! {

/// Identifier of a monitored task.
#[derive(Clone, Copy, Debug, PartialEq, Eq, Hash, PartialOrd, Ord)]
pub struct TaskId(pub u64);

impl TaskId {
    pub fn new(value: u64) -> (id: TaskId)
        ensures
            id.0 == value,
    {
        TaskId(value)
    }
}

/// Version of a task's spec; bumped on every spec replacement.
#[derive(Clone, Copy, Debug, PartialEq, Eq)]
pub struct SpecRevision(pub u64);

impl SpecRevision {
    pub fn new(value: u64) -> (r: SpecRevision)
        ensures
            r.0 == value,
    {
        SpecRevision(value)
    }

    /// The revision that follows this one.
    pub fn next(self) -> (r: SpecRevision)
        requires
            self.0 < u64::MAX,
        ensures
            r.0 == self.0 + 1,
    {
        SpecRevision(self.0 + 1)
    }
}

} // verus!

verus! {

/// Status of a task as shown to the outside; derived from its run state.
#[derive(Clone, Copy, Debug, PartialEq, Eq)]
pub enum TaskStatus {
    Idle,
    Starting,
    Active,
    Paused,
    Stopped,
    Completed,
    Restarting,
    Failed,
    RatedLimit,
}

/// Opaque identifier of a task inside the grouping of tasks.
#[derive(Clone, Copy, Debug, PartialEq, Eq, Hash)]
pub struct Uid(pub u64);

impl Uid {
    pub fn new(value: u64) -> (u: Uid)
        ensures
            u.0 == value,
    {
        Uid(value)
    }
}

} // verus!
