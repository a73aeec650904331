use vstd::prelude::*;
use crate::runtime::task_actor::Desired;
use crate::ids::TaskId;
use crate::spec::TaskConfig;

verus! {

/// Errors of supervisor commands.
#[derive(Clone, Debug, PartialEq, Eq)]
pub enum SupervisorError {
    TaskNotFound(TaskId),
    ChannelClosed,
}

/// Command forwarded to an actor; an update carries the stored config.
#[derive(Clone, Copy, Debug, PartialEq, Eq)]
pub enum Forward {
    Start,
    Stop,
    Update,
}

/// Side effects of a supervisor step, in order.
#[derive(Clone, Debug, PartialEq, Eq)]
pub enum SupervisorEffect {
    /// Spawn an actor for the stored config of `task_id` (replacing any handle).
    SpawnActor { task_id: TaskId, desired: Desired },
    /// Abort the actor of `task_id`.
    AbortActor { task_id: TaskId },
    /// Send the command to the actor's mailbox; a closed mailbox is `ChannelClosed`.
    ForwardToActor { task_id: TaskId, cmd: Forward },
    /// Tell the projector the task is gone.
    FactRemoved { task_id: TaskId },
    /// Tell the projector the task's actor panicked.
    FactCrashed { task_id: TaskId, reason: String },
}

/// One known task: its config, what the user wants, and whether an actor handle is held.
pub struct SpecEntry<Q> {
    pub id: TaskId,
    pub spec: TaskConfig<Q>,
    pub desired: Desired,
    pub has_actor: bool,
}

pub open spec fn spec_ids_increasing<Q>(s: Seq<SpecEntry<Q>>) -> bool {
    forall|i: int, j: int| 0 <= i < j < s.len() ==> s[i].id.0 < s[j].id.0
}

pub open spec fn has_spec<Q>(s: Seq<SpecEntry<Q>>, id: TaskId) -> bool {
    exists|i: int| 0 <= i < s.len() && (#[trigger] s[i]).id == id
}

pub open spec fn spec_index<Q>(s: Seq<SpecEntry<Q>>, id: TaskId) -> int {
    choose|i: int| 0 <= i < s.len() && (#[trigger] s[i]).id == id
}

pub open spec fn others_same<Q>(old: Seq<SpecEntry<Q>>, new: Seq<SpecEntry<Q>>, i: int) -> bool {
    &&& new.len() == old.len()
    &&& forall|j: int| 0 <= j < old.len() && j != i ==> new[j] == old[j]
}

/// Abort effects for every held actor, in task order.
pub open spec fn actor_aborts<Q>(s: Seq<SpecEntry<Q>>) -> Seq<SupervisorEffect>
    decreases s.len(),
{
    if s.len() == 0 {
        Seq::empty()
    } else if s.last().has_actor {
        actor_aborts(s.drop_last()) + seq![SupervisorEffect::AbortActor { task_id: s.last().id }]
    } else {
        actor_aborts(s.drop_last())
    }
}

/// Source of truth for which tasks exist, with which config, wanted running or
/// not. Actors do the work; when one dies, the supervisor recreates it from the
/// stored config if the task is wanted running.
pub struct Supervisor<Q> {
    next_id: u64,
    specs: Vec<SpecEntry<Q>>,
}

impl<Q> Supervisor<Q> {
    pub closed spec fn specs_view(&self) -> Seq<SpecEntry<Q>> {
        self.specs@
    }

    pub closed spec fn next_id_view(&self) -> u64 {
        self.next_id
    }

    pub open spec fn wf(&self) -> bool {
        &&& spec_ids_increasing(self.specs_view())
        &&& forall|i: int|
            0 <= i < self.specs_view().len() ==> (#[trigger] self.specs_view()[i]).id.0
                < self.next_id_view()
    }

    pub fn new() -> (s: Supervisor<Q>)
        ensures
            s.wf(),
            s.specs_view().len() == 0,
            s.next_id_view() == 1,
    {
        Supervisor { next_id: 1, specs: Vec::new() }
    }

    pub fn can_add(&self) -> (b: bool)
        ensures
            b == (self.next_id_view() < u64::MAX),
    {
        self.next_id < u64::MAX
    }

    proof fn lemma_unique(&self, i: int, id: TaskId)
        requires
            self.wf(),
            0 <= i < self.specs_view().len(),
            self.specs_view()[i].id == id,
        ensures
            has_spec(self.specs_view(), id),
            spec_index(self.specs_view(), id) == i,
    {
        let s = self.specs_view();
        assert(has_spec(s, id));
        let j = spec_index(s, id);
        if j < i {
            assert(s[j].id.0 < s[i].id.0);
        } else if j > i {
            assert(s[i].id.0 < s[j].id.0);
        }
    }

    fn find(&self, id: TaskId) -> (r: Option<usize>)
        requires
            self.wf(),
        ensures
            r matches Some(i) ==> i < self.specs_view().len() && has_spec(self.specs_view(), id)
                && spec_index(self.specs_view(), id) == i,
            r is None ==> !has_spec(self.specs_view(), id),
    {
        let mut i: usize = 0;
        while i < self.specs.len()
            invariant
                self.wf(),
                i <= self.specs@.len(),
                forall|j: int| 0 <= j < i ==> (#[trigger] self.specs@[j]).id != id,
            decreases self.specs@.len() - i,
        {
            if self.specs[i].id.0 == id.0 {
                proof {
                    self.lemma_unique(i as int, id);
                }
                return Some(i);
            }
            i = i + 1;
        }
        None
    }

    /// The stored config of a task (to spawn an actor or forward an update).
    pub fn spec_of(&self, id: TaskId) -> (r: Option<&TaskConfig<Q>>)
        requires
            self.wf(),
        ensures
            r is Some <==> has_spec(self.specs_view(), id),
            r matches Some(c) ==> *c == self.specs_view()[spec_index(self.specs_view(), id)].spec,
    {
        match self.find(id) {
            Some(i) => Some(&self.specs[i].spec),
            None => None,
        }
    }

    /// Registers a task wanted stopped and spawns its actor.
    pub fn add_task(&mut self, spec: TaskConfig<Q>) -> (r: (TaskId, Vec<SupervisorEffect>))
        requires
            old(self).wf(),
            old(self).next_id_view() < u64::MAX,
        ensures
            final(self).wf(),
            r.0.0 == old(self).next_id_view(),
            final(self).next_id_view() == old(self).next_id_view() + 1,
            !has_spec(old(self).specs_view(), r.0),
            final(self).specs_view() == old(self).specs_view().push(
                SpecEntry { id: r.0, spec, desired: Desired::Stopped, has_actor: true },
            ),
            r.1@ == seq![SupervisorEffect::SpawnActor { task_id: r.0, desired: Desired::Stopped }],
    {
        let id = TaskId(self.next_id);
        self.next_id = self.next_id + 1;
        self.specs.push(SpecEntry { id, spec, desired: Desired::Stopped, has_actor: true });
        proof {
            let s = self.specs_view();
            let o = old(self).specs_view();
            assert forall|a: int, b: int| 0 <= a < b < s.len() implies s[a].id.0 < s[b].id.0 by {
                assert(s[a] == o[a]);
                if b < o.len() {
                    assert(s[b] == o[b]);
                }
            }
            assert forall|a: int| 0 <= a < s.len() implies (#[trigger] s[a]).id.0 < self.next_id_view() by {
                if a < o.len() {
                    assert(s[a] == o[a]);
                }
            }
            assert forall|a: int| 0 <= a < o.len() implies (#[trigger] o[a]).id != id by {}
        }
        let mut effects: Vec<SupervisorEffect> = Vec::new();
        effects.push(SupervisorEffect::SpawnActor { task_id: id, desired: Desired::Stopped });
        (id, effects)
    }

    /// Sets what the user wants and forwards the command to the actor. A task
    /// without config is not found; one whose actor is gone is not found
    /// either, though its wish is recorded.
    pub fn set_desired_and_forward(&mut self, id: TaskId, desired: Desired, cmd: Forward) -> (r: Result<
        Vec<SupervisorEffect>,
        SupervisorError,
    >)
        requires
            old(self).wf(),
        ensures
            final(self).wf(),
            final(self).next_id_view() == old(self).next_id_view(),
            !has_spec(old(self).specs_view(), id) ==> final(self).specs_view() == old(self).specs_view()
                && r == Err::<Vec<SupervisorEffect>, SupervisorError>(SupervisorError::TaskNotFound(id)),
            has_spec(old(self).specs_view(), id) ==> ({
                let i = spec_index(old(self).specs_view(), id);
                let o = old(self).specs_view()[i];
                &&& others_same(old(self).specs_view(), final(self).specs_view(), i)
                &&& final(self).specs_view()[i] == SpecEntry { desired, ..o }
                &&& if o.has_actor {
                    r matches Ok(e) && e@ == seq![SupervisorEffect::ForwardToActor { task_id: id, cmd }]
                } else {
                    r == Err::<Vec<SupervisorEffect>, SupervisorError>(SupervisorError::TaskNotFound(id))
                }
            }),
    {
        let i = match self.find(id) {
            Some(i) => i,
            None => return Err(SupervisorError::TaskNotFound(id)),
        };
        self.specs[i].desired = desired;
        proof {
            let s = self.specs_view();
            let o = old(self).specs_view();
            assert forall|a: int| 0 <= a < s.len() implies (#[trigger] s[a]).id == o[a].id by {}
        }
        if !self.specs[i].has_actor {
            return Err(SupervisorError::TaskNotFound(id));
        }
        let mut effects: Vec<SupervisorEffect> = Vec::new();
        effects.push(SupervisorEffect::ForwardToActor { task_id: id, cmd });
        Ok(effects)
    }

    /// Wants the task running and forwards `Start`.
    pub fn start_task(&mut self, id: TaskId) -> (r: Result<Vec<SupervisorEffect>, SupervisorError>)
        requires
            old(self).wf(),
        ensures
            final(self).wf(),
            final(self).next_id_view() == old(self).next_id_view(),
            !has_spec(old(self).specs_view(), id) ==> final(self).specs_view() == old(self).specs_view()
                && r == Err::<Vec<SupervisorEffect>, SupervisorError>(SupervisorError::TaskNotFound(id)),
            has_spec(old(self).specs_view(), id) ==> ({
                let i = spec_index(old(self).specs_view(), id);
                let o = old(self).specs_view()[i];
                &&& others_same(old(self).specs_view(), final(self).specs_view(), i)
                &&& final(self).specs_view()[i] == SpecEntry { desired: Desired::Running, ..o }
                &&& if o.has_actor {
                    r matches Ok(e) && e@ == seq![SupervisorEffect::ForwardToActor { task_id: id, cmd: Forward::Start }]
                } else {
                    r == Err::<Vec<SupervisorEffect>, SupervisorError>(SupervisorError::TaskNotFound(id))
                }
            }),
    {
        self.set_desired_and_forward(id, Desired::Running, Forward::Start)
    }

    /// Wants the task stopped and forwards `Stop`.
    pub fn stop_task(&mut self, id: TaskId) -> (r: Result<Vec<SupervisorEffect>, SupervisorError>)
        requires
            old(self).wf(),
        ensures
            final(self).wf(),
            final(self).next_id_view() == old(self).next_id_view(),
            !has_spec(old(self).specs_view(), id) ==> final(self).specs_view() == old(self).specs_view()
                && r == Err::<Vec<SupervisorEffect>, SupervisorError>(SupervisorError::TaskNotFound(id)),
            has_spec(old(self).specs_view(), id) ==> ({
                let i = spec_index(old(self).specs_view(), id);
                let o = old(self).specs_view()[i];
                &&& others_same(old(self).specs_view(), final(self).specs_view(), i)
                &&& final(self).specs_view()[i] == SpecEntry { desired: Desired::Stopped, ..o }
                &&& if o.has_actor {
                    r matches Ok(e) && e@ == seq![SupervisorEffect::ForwardToActor { task_id: id, cmd: Forward::Stop }]
                } else {
                    r == Err::<Vec<SupervisorEffect>, SupervisorError>(SupervisorError::TaskNotFound(id))
                }
            }),
    {
        self.set_desired_and_forward(id, Desired::Stopped, Forward::Stop)
    }

    /// Stores the new config and forwards it to the actor.
    pub fn update_task(&mut self, id: TaskId, spec: TaskConfig<Q>) -> (r: Result<Vec<SupervisorEffect>, SupervisorError>)
        requires
            old(self).wf(),
        ensures
            final(self).wf(),
            final(self).next_id_view() == old(self).next_id_view(),
            !has_spec(old(self).specs_view(), id) ==> final(self).specs_view() == old(self).specs_view()
                && r == Err::<Vec<SupervisorEffect>, SupervisorError>(SupervisorError::TaskNotFound(id)),
            has_spec(old(self).specs_view(), id) ==> ({
                let i = spec_index(old(self).specs_view(), id);
                let o = old(self).specs_view()[i];
                &&& others_same(old(self).specs_view(), final(self).specs_view(), i)
                &&& final(self).specs_view()[i] == SpecEntry { spec, ..o }
                &&& if o.has_actor {
                    r matches Ok(e) && e@ == seq![SupervisorEffect::ForwardToActor { task_id: id, cmd: Forward::Update }]
                } else {
                    r == Err::<Vec<SupervisorEffect>, SupervisorError>(SupervisorError::TaskNotFound(id))
                }
            }),
    {
        let i = match self.find(id) {
            Some(i) => i,
            None => return Err(SupervisorError::TaskNotFound(id)),
        };
        self.specs[i].spec = spec;
        proof {
            let s = self.specs_view();
            let o = old(self).specs_view();
            assert forall|a: int| 0 <= a < s.len() implies (#[trigger] s[a]).id == o[a].id by {}
        }
        if !self.specs[i].has_actor {
            return Err(SupervisorError::TaskNotFound(id));
        }
        let mut effects: Vec<SupervisorEffect> = Vec::new();
        effects.push(SupervisorEffect::ForwardToActor { task_id: id, cmd: Forward::Update });
        Ok(effects)
    }

    /// Removes a task whose actor is held: aborts it, forgets the config and
    /// tells the projector. Without an actor handle the task is not found.
    pub fn remove_task(&mut self, id: TaskId) -> (r: Result<Vec<SupervisorEffect>, SupervisorError>)
        requires
            old(self).wf(),
        ensures
            final(self).wf(),
            final(self).next_id_view() == old(self).next_id_view(),
            (has_spec(old(self).specs_view(), id) && old(self).specs_view()[spec_index(
                old(self).specs_view(),
                id,
            )].has_actor) ==> {
                &&& final(self).specs_view() == old(self).specs_view().remove(spec_index(old(self).specs_view(), id))
                &&& r matches Ok(e) && e@ == seq![
                    SupervisorEffect::AbortActor { task_id: id },
                    SupervisorEffect::FactRemoved { task_id: id },
                ]
                &&& !has_spec(final(self).specs_view(), id)
            },
            !(has_spec(old(self).specs_view(), id) && old(self).specs_view()[spec_index(
                old(self).specs_view(),
                id,
            )].has_actor) ==> final(self).specs_view() == old(self).specs_view() && r == Err::<
                Vec<SupervisorEffect>,
                SupervisorError,
            >(SupervisorError::TaskNotFound(id)),
    {
        let i = match self.find(id) {
            Some(i) => i,
            None => return Err(SupervisorError::TaskNotFound(id)),
        };
        if !self.specs[i].has_actor {
            return Err(SupervisorError::TaskNotFound(id));
        }
        self.specs.remove(i);
        proof {
            let o = old(self).specs_view();
            let s = self.specs_view();
            assert(s =~= o.remove(i as int));
            assert forall|a: int, b: int| 0 <= a < b < s.len() implies s[a].id.0 < s[b].id.0 by {
                let a2 = if a < i { a } else { a + 1 };
                let b2 = if b < i { b } else { b + 1 };
                assert(s[a] == o[a2]);
                assert(s[b] == o[b2]);
            }
            assert forall|a: int| 0 <= a < s.len() implies (#[trigger] s[a]).id.0 < self.next_id_view() by {
                let a2 = if a < i { a } else { a + 1 };
                assert(s[a] == o[a2]);
            }
            assert forall|a: int| 0 <= a < s.len() implies (#[trigger] s[a]).id != id by {
                let a2 = if a < i { a } else { a + 1 };
                assert(s[a] == o[a2]);
                if a < i {
                    assert(o[a2].id.0 < o[i as int].id.0);
                } else {
                    assert(o[i as int].id.0 < o[a2].id.0);
                }
            }
        }
        let mut effects: Vec<SupervisorEffect> = Vec::new();
        effects.push(SupervisorEffect::AbortActor { task_id: id });
        effects.push(SupervisorEffect::FactRemoved { task_id: id });
        Ok(effects)
    }

    /// An actor ended (`reason` holds a panic message). A task wanted running is
    /// recreated from its stored config, and a panic is reported as a crash; a
    /// stopped or removed task only loses its actor handle.
    pub fn on_death(&mut self, id: TaskId, reason: Option<String>) -> (effects: Vec<SupervisorEffect>)
        requires
            old(self).wf(),
        ensures
            final(self).wf(),
            final(self).next_id_view() == old(self).next_id_view(),
            !has_spec(old(self).specs_view(), id) ==> final(self).specs_view() == old(self).specs_view()
                && effects@.len() == 0,
            has_spec(old(self).specs_view(), id) ==> ({
                let i = spec_index(old(self).specs_view(), id);
                let o = old(self).specs_view()[i];
                &&& others_same(old(self).specs_view(), final(self).specs_view(), i)
                &&& if o.desired == Desired::Running {
                    &&& final(self).specs_view()[i] == SpecEntry { has_actor: true, ..o }
                    &&& effects@ == match reason {
                        Some(why) => seq![
                            SupervisorEffect::FactCrashed { task_id: id, reason: why },
                            SupervisorEffect::SpawnActor { task_id: id, desired: Desired::Running },
                        ],
                        None => seq![SupervisorEffect::SpawnActor { task_id: id, desired: Desired::Running }],
                    }
                } else {
                    &&& final(self).specs_view()[i] == SpecEntry { has_actor: false, ..o }
                    &&& effects@.len() == 0
                }
            }),
    {
        let mut effects: Vec<SupervisorEffect> = Vec::new();
        let i = match self.find(id) {
            Some(i) => i,
            None => return effects,
        };
        let running = match self.specs[i].desired {
            Desired::Running => true,
            Desired::Stopped => false,
        };
        self.specs[i].has_actor = running;
        proof {
            let s = self.specs_view();
            let o = old(self).specs_view();
            assert forall|a: int| 0 <= a < s.len() implies (#[trigger] s[a]).id == o[a].id by {}
        }
        if running {
            match reason {
                Some(why) => effects.push(SupervisorEffect::FactCrashed { task_id: id, reason: why }),
                None => {},
            }
            effects.push(SupervisorEffect::SpawnActor { task_id: id, desired: Desired::Running });
        }
        effects
    }

    /// Aborts every actor and forgets every task; the supervisor then stops.
    pub fn shutdown(&mut self) -> (effects: Vec<SupervisorEffect>)
        requires
            old(self).wf(),
        ensures
            final(self).wf(),
            final(self).next_id_view() == old(self).next_id_view(),
            final(self).specs_view().len() == 0,
            effects@ == actor_aborts(old(self).specs_view()),
    {
        let mut effects: Vec<SupervisorEffect> = Vec::new();
        for k in 0..self.specs.len()
            invariant
                self.specs_view() == old(self).specs_view(),
                effects@ == actor_aborts(self.specs_view().take(k as int)),
        {
            proof {
                let t = self.specs_view().take(k as int + 1);
                assert(t.drop_last() =~= self.specs_view().take(k as int));
            }
            if self.specs[k].has_actor {
                effects.push(SupervisorEffect::AbortActor { task_id: self.specs[k].id });
            }
            proof {
                let t = self.specs_view().take(k as int + 1);
                if t.last().has_actor {
                    assert(effects@ =~= actor_aborts(t.drop_last()) + seq![SupervisorEffect::AbortActor { task_id: t.last().id }]);
                }
            }
        }
        proof {
            assert(self.specs_view().take(self.specs_view().len() as int) =~= self.specs_view());
        }
        self.specs.clear();
        effects
    }
}

} // verus!
