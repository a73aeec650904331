use vstd::prelude::*;
use crate::event::ChangeKind;
use crate::ids::{TaskId, TaskStatus};
use crate::runtime::orchestrator::{metrics_after, prefixed};
use crate::polling::Response;
use crate::restart_policy::RestartPolicy;
use crate::spec::TaskConfig;
use crate::task::Task;

verus! {

/// What the user wants: the task running or stopped.
#[derive(Clone, Copy, Debug, PartialEq, Eq, Structural)]
pub enum Desired {
    Running,
    Stopped,
}

/// What the actor is doing now.
#[derive(Clone, Copy, Debug, PartialEq, Eq, Structural)]
pub enum ActorRuntime {
    Idle,
    Polling,
    BackingOff,
    Exhausted,
}

/// Command to an actor (forwarded by the supervisor).
pub enum ActorCommand<Q> {
    Start,
    Stop,
    Update { spec: TaskConfig<Q> },
    Shutdown,
}

/// What the actor loop does next.
#[derive(Clone, Copy, Debug, PartialEq, Eq)]
pub enum Phase {
    /// Wait for a command; no polling.
    WaitCommand,
    /// Build the adapter, while listening for commands.
    Build,
    /// Sleep one interval and poll, while listening for commands.
    PollCycle,
    /// Wait for the backoff deadline, while listening for commands.
    Backoff,
}

/// Outcome of one poll as the loop saw it.
pub enum PollOutcome<O> {
    Answered(Response<O>),
    Fatal(String),
    Panicked(String),
}

/// Side effects of an actor step, in order.
#[derive(Clone, Debug, PartialEq, Eq)]
pub enum ActorEffect {
    /// Send a fact about the task, with the actor's current view.
    Emit(ChangeKind),
    /// Release the built adapter.
    DropAdapter,
    /// Start the backoff timer; the deadline is now plus `delay_ms`.
    BeginBackoff { delay_ms: u64 },
}

pub open spec fn phase_of(desired: Desired, runtime: ActorRuntime) -> Phase {
    match (desired, runtime) {
        (Desired::Stopped, _) => Phase::WaitCommand,
        (Desired::Running, ActorRuntime::Exhausted) => Phase::WaitCommand,
        (Desired::Running, ActorRuntime::Idle) => Phase::Build,
        (Desired::Running, ActorRuntime::Polling) => Phase::PollCycle,
        (Desired::Running, ActorRuntime::BackingOff) => Phase::Backoff,
    }
}

/// Status as the projection of the two axes (wanted, doing).
pub open spec fn actor_status_of(desired: Desired, runtime: ActorRuntime, ever_started: bool) -> TaskStatus {
    match (desired, runtime) {
        (Desired::Stopped, _) => if ever_started {
            TaskStatus::Stopped
        } else {
            TaskStatus::Idle
        },
        (Desired::Running, ActorRuntime::Idle) => TaskStatus::Starting,
        (Desired::Running, ActorRuntime::Polling) => TaskStatus::Active,
        (Desired::Running, ActorRuntime::BackingOff) => TaskStatus::Restarting,
        (Desired::Running, ActorRuntime::Exhausted) => TaskStatus::Completed,
    }
}

/// An actor waits for a command exactly when it is not wanted running or has
/// used up its poll limit; a running actor that waits is shown completed, and
/// a stopped one is shown stopped once it has ever run (idle before).
pub proof fn lemma_actor_waits_when_stopped_or_exhausted(d: Desired, r: ActorRuntime, ever_started: bool)
    ensures
        (phase_of(d, r) == Phase::WaitCommand) <==> (d == Desired::Stopped || r == ActorRuntime::Exhausted),
        d == Desired::Running && phase_of(d, r) == Phase::WaitCommand ==> actor_status_of(d, r, ever_started)
            == TaskStatus::Completed,
        d == Desired::Stopped ==> actor_status_of(d, r, ever_started) == if ever_started {
            TaskStatus::Stopped
        } else {
            TaskStatus::Idle
        },
        (actor_status_of(d, r, ever_started) == TaskStatus::Active) <==> (phase_of(d, r) == Phase::PollCycle),
{
}

/// Decision core of the actor of one task: owns the task data and the run
/// axes; the loop around it performs the builds, polls and waits.
pub struct TaskActor<Q, O> {
    data: Task<Q, O>,
    desired: Desired,
    runtime: ActorRuntime,
    attempts: u32,
    ever_started: bool,
    policy: RestartPolicy,
}

impl<Q, O> TaskActor<Q, O> {
    pub closed spec fn data_view(&self) -> Task<Q, O> {
        self.data
    }

    pub closed spec fn desired_view(&self) -> Desired {
        self.desired
    }

    pub closed spec fn runtime_view(&self) -> ActorRuntime {
        self.runtime
    }

    pub closed spec fn attempts_view(&self) -> u32 {
        self.attempts
    }

    pub closed spec fn ever_started_view(&self) -> bool {
        self.ever_started
    }

    pub closed spec fn policy_view(&self) -> RestartPolicy {
        self.policy
    }

    pub open spec fn status_spec(&self) -> TaskStatus {
        actor_status_of(self.desired_view(), self.runtime_view(), self.ever_started_view())
    }

    /// The counter that `cmd` grows can still grow: an update takes the spec
    /// one revision up; other commands grow nothing.
    pub open spec fn command_room(&self, cmd: ActorCommand<Q>) -> bool {
        cmd is Update ==> self.data_view().revision_view() < u64::MAX
    }

    /// A failed build counts one more attempt.
    pub open spec fn build_room(&self, outcome: Result<(), String>) -> bool {
        outcome is Err ==> self.attempts_view() < u32::MAX
    }

    /// A failed poll counts one more attempt; a poll without an answer counts
    /// one more such poll in a row.
    pub open spec fn poll_room(&self, outcome: PollOutcome<O>) -> bool {
        match outcome {
            PollOutcome::Answered(response) => response is NoResponse ==> self.data_view().can_record_poll(),
            _ => self.attempts_view() < u32::MAX,
        }
    }

    pub fn can_handle(&self, cmd: &ActorCommand<Q>) -> (b: bool)
        ensures
            b == self.command_room(*cmd),
    {
        match cmd {
            ActorCommand::Update { .. } => self.data.spec().revision().0 < u64::MAX,
            _ => true,
        }
    }

    pub fn can_take_build(&self, outcome: &Result<(), String>) -> (b: bool)
        ensures
            b == self.build_room(*outcome),
    {
        match outcome {
            Ok(_) => true,
            Err(_) => self.attempts < u32::MAX,
        }
    }

    pub fn can_take_poll(&self, outcome: &PollOutcome<O>) -> (b: bool)
        ensures
            b == self.poll_room(*outcome),
    {
        match outcome {
            PollOutcome::Answered(Response::NoResponse { .. }) => self.data.health().consecutive_no_response < u32::MAX,
            PollOutcome::Answered(_) => true,
            _ => self.attempts < u32::MAX,
        }
    }

    /// A new actor: idle, no attempts; it counts as started when created running.
    pub fn new(id: TaskId, spec: TaskConfig<Q>, desired: Desired) -> (a: TaskActor<Q, O>)
        ensures
            a.data_view().id_view() == id,
            a.data_view().spec_view().config_view() == spec,
            a.data_view().revision_view() == 1,
            a.data_view().last_result_view() is None,
            a.data_view().metrics_view().is_initial(),
            a.desired_view() == desired,
            a.runtime_view() == ActorRuntime::Idle,
            a.attempts_view() == 0,
            a.ever_started_view() == (desired == Desired::Running),
            a.policy_view() == RestartPolicy::default_spec(),
    {
        TaskActor {
            data: Task::new(id, spec),
            desired,
            runtime: ActorRuntime::Idle,
            attempts: 0,
            ever_started: match desired {
                Desired::Running => true,
                Desired::Stopped => false,
            },
            policy: RestartPolicy::default_policy(),
        }
    }

    pub fn data(&self) -> (t: &Task<Q, O>)
        ensures
            *t == self.data_view(),
    {
        &self.data
    }

    pub fn desired(&self) -> (d: Desired)
        ensures
            d == self.desired_view(),
    {
        self.desired
    }

    pub fn runtime(&self) -> (r: ActorRuntime)
        ensures
            r == self.runtime_view(),
    {
        self.runtime
    }

    /// What the loop does next, chosen by (desired, runtime).
    pub fn phase(&self) -> (p: Phase)
        ensures
            p == phase_of(self.desired_view(), self.runtime_view()),
    {
        match (self.desired, self.runtime) {
            (Desired::Stopped, _) => Phase::WaitCommand,
            (Desired::Running, ActorRuntime::Exhausted) => Phase::WaitCommand,
            (Desired::Running, ActorRuntime::Idle) => Phase::Build,
            (Desired::Running, ActorRuntime::Polling) => Phase::PollCycle,
            (Desired::Running, ActorRuntime::BackingOff) => Phase::Backoff,
        }
    }

    /// Status shown for the task; derived, not stored.
    pub fn status(&self) -> (s: TaskStatus)
        ensures
            s == self.status_spec(),
    {
        match (self.desired, self.runtime) {
            (Desired::Stopped, _) => if self.ever_started {
                TaskStatus::Stopped
            } else {
                TaskStatus::Idle
            },
            (Desired::Running, ActorRuntime::Idle) => TaskStatus::Starting,
            (Desired::Running, ActorRuntime::Polling) => TaskStatus::Active,
            (Desired::Running, ActorRuntime::BackingOff) => TaskStatus::Restarting,
            (Desired::Running, ActorRuntime::Exhausted) => TaskStatus::Completed,
        }
    }

    /// The poll limit is set and reached.
    pub fn limit_reached(&self) -> (b: bool)
        ensures
            b == (self.data_view().limit_view() > 0 && self.data_view().metrics_view().total_attempts
                >= self.data_view().limit_view()),
    {
        let limit = self.data.spec().poll_config().limit;
        limit > 0 && self.data.metrics().total_attempts >= limit
    }

    /// Applies a command. Returns `false` for `Shutdown` (the actor ends).
    /// `Start` on a running, not exhausted actor does nothing.
    pub fn handle(&mut self, cmd: ActorCommand<Q>) -> (r: (bool, Vec<ActorEffect>))
        requires
            old(self).command_room(cmd),
        ensures
            final(self).policy_view() == old(self).policy_view(),
            final(self).data_view().id_view() == old(self).data_view().id_view(),
            match cmd {
                ActorCommand::Start => if old(self).desired_view() == Desired::Running
                    && old(self).runtime_view() != ActorRuntime::Exhausted {
                    &&& r.0
                    &&& r.1@.len() == 0
                    &&& *final(self) == *old(self)
                } else {
                    &&& r.0
                    &&& final(self).desired_view() == Desired::Running
                    &&& final(self).ever_started_view()
                    &&& final(self).attempts_view() == 0
                    &&& final(self).runtime_view() == ActorRuntime::Idle
                    &&& final(self).data_view().same_data(&old(self).data_view())
                    &&& final(self).data_view().metrics_view().is_initial()
                    &&& final(self).data_view().health_view().is_initial()
                    &&& r.1@ == seq![ActorEffect::Emit(ChangeKind::Starting)]
                },
                ActorCommand::Stop => {
                    &&& r.0
                    &&& final(self).desired_view() == Desired::Stopped
                    &&& final(self).ever_started_view() == old(self).ever_started_view()
                    &&& final(self).attempts_view() == 0
                    &&& final(self).runtime_view() == ActorRuntime::Idle
                    &&& final(self).data_view() == old(self).data_view()
                    &&& r.1@ == seq![ActorEffect::DropAdapter, ActorEffect::Emit(ChangeKind::Stopped)]
                },
                ActorCommand::Update { spec } => {
                    &&& r.0
                    &&& final(self).desired_view() == old(self).desired_view()
                    &&& final(self).ever_started_view() == old(self).ever_started_view()
                    &&& final(self).attempts_view() == 0
                    &&& final(self).runtime_view() == if old(self).desired_view() == Desired::Running {
                        ActorRuntime::Idle
                    } else {
                        old(self).runtime_view()
                    }
                    &&& final(self).data_view().updated_from(&old(self).data_view(), spec)
                    &&& r.1@ == seq![ActorEffect::DropAdapter, ActorEffect::Emit(ChangeKind::SpecUpdated)]
                },
                ActorCommand::Shutdown => {
                    &&& !r.0
                    &&& r.1@.len() == 0
                    &&& *final(self) == *old(self)
                },
            },
    {
        let mut effects: Vec<ActorEffect> = Vec::new();
        match cmd {
            ActorCommand::Start => {
                let running = match (self.desired, self.runtime) {
                    (Desired::Running, ActorRuntime::Exhausted) => false,
                    (Desired::Running, _) => true,
                    _ => false,
                };
                if running {
                    return (true, effects);
                }
                self.desired = Desired::Running;
                self.ever_started = true;
                self.attempts = 0;
                self.data.reset_run();
                self.runtime = ActorRuntime::Idle;
                effects.push(ActorEffect::Emit(ChangeKind::Starting));
                (true, effects)
            },
            ActorCommand::Stop => {
                self.desired = Desired::Stopped;
                self.attempts = 0;
                effects.push(ActorEffect::DropAdapter);
                self.runtime = ActorRuntime::Idle;
                effects.push(ActorEffect::Emit(ChangeKind::Stopped));
                (true, effects)
            },
            ActorCommand::Update { spec } => {
                let was_running = match self.desired {
                    Desired::Running => true,
                    Desired::Stopped => false,
                };
                self.data.update_spec(spec);
                effects.push(ActorEffect::DropAdapter);
                self.attempts = 0;
                if was_running {
                    self.runtime = ActorRuntime::Idle;
                }
                effects.push(ActorEffect::Emit(ChangeKind::SpecUpdated));
                (true, effects)
            },
            ActorCommand::Shutdown => (false, effects),
        }
    }

    /// Outcome of an adapter build: on success the actor polls (announcing a
    /// restart if earlier attempts failed); on failure it backs off.
    pub fn on_built(&mut self, outcome: Result<(), String>) -> (effects: Vec<ActorEffect>)
        requires
            old(self).build_room(outcome),
        ensures
            final(self).policy_view() == old(self).policy_view(),
            final(self).data_view() == old(self).data_view(),
            final(self).desired_view() == old(self).desired_view(),
            final(self).ever_started_view() == old(self).ever_started_view(),
            match outcome {
                Ok(()) => {
                    &&& final(self).attempts_view() == 0
                    &&& final(self).runtime_view() == ActorRuntime::Polling
                    &&& effects@ == seq![ActorEffect::Emit(
                        if old(self).attempts_view() > 0 { ChangeKind::Restarted } else { ChangeKind::Started },
                    )]
                },
                Err(reason) => {
                    &&& final(self).attempts_view() == old(self).attempts_view() + 1
                    &&& final(self).runtime_view() == ActorRuntime::BackingOff
                    &&& effects@ == seq![
                        ActorEffect::BeginBackoff {
                            delay_ms: old(self).policy_view().delay_spec(final(self).attempts_view()) as u64,
                        },
                        ActorEffect::Emit(ChangeKind::BuildFailed { reason }),
                    ]
                },
            },
    {
        let mut effects: Vec<ActorEffect> = Vec::new();
        match outcome {
            Ok(()) => {
                let was_restart = self.attempts > 0;
                self.attempts = 0;
                self.runtime = ActorRuntime::Polling;
                effects.push(ActorEffect::Emit(
                    if was_restart {
                        ChangeKind::Restarted
                    } else {
                        ChangeKind::Started
                    },
                ));
            },
            Err(reason) => {
                self.attempts = self.attempts + 1;
                let delay = self.policy.delay(self.attempts);
                self.runtime = ActorRuntime::BackingOff;
                effects.push(ActorEffect::BeginBackoff { delay_ms: delay });
                effects.push(ActorEffect::Emit(ChangeKind::BuildFailed { reason }));
            },
        }
        effects
    }

    /// A poll failed fatally or panicked: one more attempt, adapter dropped, back off.
    fn fail(&mut self, reason: String) -> (effects: Vec<ActorEffect>)
        requires
            old(self).attempts_view() < u32::MAX,
        ensures
            final(self).policy_view() == old(self).policy_view(),
            final(self).data_view() == old(self).data_view(),
            final(self).desired_view() == old(self).desired_view(),
            final(self).ever_started_view() == old(self).ever_started_view(),
            final(self).attempts_view() == old(self).attempts_view() + 1,
            final(self).runtime_view() == ActorRuntime::BackingOff,
            effects@ == seq![
                ActorEffect::DropAdapter,
                ActorEffect::BeginBackoff {
                    delay_ms: old(self).policy_view().delay_spec(final(self).attempts_view()) as u64,
                },
                ActorEffect::Emit(ChangeKind::Failed { reason }),
            ],
    {
        let mut effects: Vec<ActorEffect> = Vec::new();
        self.attempts = self.attempts + 1;
        effects.push(ActorEffect::DropAdapter);
        let delay = self.policy.delay(self.attempts);
        self.runtime = ActorRuntime::BackingOff;
        effects.push(ActorEffect::BeginBackoff { delay_ms: delay });
        effects.push(ActorEffect::Emit(ChangeKind::Failed { reason }));
        effects
    }

    /// Outcome of one poll. An answer is taken in (attempts cleared; the actor is
    /// exhausted once the limit is reached); a fatal error or a panic means failure.
    pub fn on_polled(&mut self, outcome: PollOutcome<O>) -> (effects: Vec<ActorEffect>)
        requires
            old(self).poll_room(outcome),
        ensures
            final(self).policy_view() == old(self).policy_view(),
            final(self).desired_view() == old(self).desired_view(),
            final(self).ever_started_view() == old(self).ever_started_view(),
            match outcome {
                PollOutcome::Answered(response) => {
                    let m = metrics_after(old(self).data_view().metrics_view(), response);
                    let d = final(self).data_view();
                    &&& d.polled_from(&old(self).data_view(), response, m)
                    &&& final(self).attempts_view() == 0
                    &&& if d.limit_view() > 0 && d.metrics_view().total_attempts >= d.limit_view() {
                        &&& final(self).runtime_view() == ActorRuntime::Exhausted
                        &&& effects@ == seq![ActorEffect::Emit(ChangeKind::Completed)]
                    } else {
                        &&& final(self).runtime_view() == old(self).runtime_view()
                        &&& effects@ == seq![ActorEffect::Emit(ChangeKind::Polled)]
                    }
                },
                PollOutcome::Fatal(message) => {
                    &&& final(self).data_view() == old(self).data_view()
                    &&& final(self).attempts_view() == old(self).attempts_view() + 1
                    &&& final(self).runtime_view() == ActorRuntime::BackingOff
                    &&& effects@.len() == 3
                    &&& effects@[0] == ActorEffect::DropAdapter
                    &&& effects@[1] == ActorEffect::BeginBackoff {
                        delay_ms: old(self).policy_view().delay_spec(final(self).attempts_view()) as u64,
                    }
                    &&& effects@[2] matches ActorEffect::Emit(ChangeKind::Failed { reason })
                        && reason@ == "poll failed: "@ + message@
                },
                PollOutcome::Panicked(message) => {
                    &&& final(self).data_view() == old(self).data_view()
                    &&& final(self).attempts_view() == old(self).attempts_view() + 1
                    &&& final(self).runtime_view() == ActorRuntime::BackingOff
                    &&& effects@.len() == 3
                    &&& effects@[0] == ActorEffect::DropAdapter
                    &&& effects@[1] == ActorEffect::BeginBackoff {
                        delay_ms: old(self).policy_view().delay_spec(final(self).attempts_view()) as u64,
                    }
                    &&& effects@[2] matches ActorEffect::Emit(ChangeKind::Failed { reason })
                        && reason@ == "panic: "@ + message@
                },
            },
    {
        match outcome {
            PollOutcome::Answered(response) => {
                let m = self.data.metrics();
                let new_metrics = match &response {
                    Response::Success { elapsed_ms, .. } => m.with_success(*elapsed_ms),
                    Response::NoResponse { .. } => m.with_error(),
                };
                self.attempts = 0;
                self.data.apply_poll(response, new_metrics);
                let mut effects: Vec<ActorEffect> = Vec::new();
                if self.limit_reached() {
                    self.runtime = ActorRuntime::Exhausted;
                    effects.push(ActorEffect::Emit(ChangeKind::Completed));
                } else {
                    effects.push(ActorEffect::Emit(ChangeKind::Polled));
                }
                effects
            },
            PollOutcome::Fatal(message) => self.fail(prefixed("poll failed: ", message)),
            PollOutcome::Panicked(message) => self.fail(prefixed("panic: ", message)),
        }
    }

    /// The backoff deadline passed: a backing-off actor rebuilds next.
    pub fn on_backoff_elapsed(&mut self)
        ensures
            final(self).runtime_view() == if old(self).runtime_view() == ActorRuntime::BackingOff {
                ActorRuntime::Idle
            } else {
                old(self).runtime_view()
            },
            final(self).data_view() == old(self).data_view(),
            final(self).desired_view() == old(self).desired_view(),
            final(self).attempts_view() == old(self).attempts_view(),
            final(self).ever_started_view() == old(self).ever_started_view(),
            final(self).policy_view() == old(self).policy_view(),
    {
        match self.runtime {
            ActorRuntime::BackingOff => {
                self.runtime = ActorRuntime::Idle;
            },
            _ => {},
        }
    }
}

} // verus!
