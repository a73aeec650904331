use vstd::prelude::*;
use crate::ids::Uid;

verus! {

/// Names and uids of all configured groups of tasks.
#[derive(Clone, Debug)]
pub struct Mapping {
    pub groups: Vec<GroupMapping>,
}

/// A group name with its tasks.
#[derive(Clone, Debug)]
pub struct GroupMapping {
    pub name: String,
    pub tasks: Vec<TaskMapping>,
}

/// A task name with its uid.
#[derive(Clone, Debug)]
pub struct TaskMapping {
    pub name: String,
    pub uid: Uid,
}

} // verus!
