use vstd::prelude::*;
use crate::ids::TaskId;
use crate::polling::Response;

verus! {

/// Epoch of a worker: a number that grows with every spawn of a task's worker,
/// so that a report from a replaced worker can be told apart.
#[derive(Clone, Copy, Debug, PartialEq, Eq, PartialOrd, Ord, Hash)]
pub struct Generation(pub u64);

impl Generation {
    pub fn first() -> (g: Generation)
        ensures
            g.0 == 0,
    {
        Generation(0)
    }

    pub fn next(self) -> (g: Generation)
        requires
            self.0 < u64::MAX,
        ensures
            g.0 == self.0 + 1,
    {
        Generation(self.0 + 1)
    }
}

/// Pace control sent to a running worker.
#[derive(Clone, Copy, Debug, PartialEq, Eq)]
pub enum WorkerCmd {
    Pause,
    Resume,
}

/// What a worker reports to the orchestrator. Every report carries the task and
/// the worker generation it comes from.
#[derive(Debug)]
pub enum WorkerReport<O> {
    Built { task_id: TaskId, generation: Generation },
    BuildFailed { task_id: TaskId, generation: Generation, reason: String },
    BuildTimeout { task_id: TaskId, generation: Generation },
    BuildPanicked { task_id: TaskId, generation: Generation, reason: String },
    Polled { task_id: TaskId, generation: Generation, response: Response<O> },
    PollFailed { task_id: TaskId, generation: Generation, reason: String },
    PollPanicked { task_id: TaskId, generation: Generation, reason: String },
    WorkerPanicked { task_id: TaskId, generation: Generation, reason: String },
    Paused { task_id: TaskId, generation: Generation },
    Resumed { task_id: TaskId, generation: Generation },
}

/// The (task, generation) pair a report carries.
pub open spec fn report_key<O>(r: WorkerReport<O>) -> (TaskId, Generation) {
    match r {
        WorkerReport::Built { task_id, generation } => (task_id, generation),
        WorkerReport::BuildFailed { task_id, generation, .. } => (task_id, generation),
        WorkerReport::BuildTimeout { task_id, generation } => (task_id, generation),
        WorkerReport::BuildPanicked { task_id, generation, .. } => (task_id, generation),
        WorkerReport::Polled { task_id, generation, .. } => (task_id, generation),
        WorkerReport::PollFailed { task_id, generation, .. } => (task_id, generation),
        WorkerReport::PollPanicked { task_id, generation, .. } => (task_id, generation),
        WorkerReport::WorkerPanicked { task_id, generation, .. } => (task_id, generation),
        WorkerReport::Paused { task_id, generation } => (task_id, generation),
        WorkerReport::Resumed { task_id, generation } => (task_id, generation),
    }
}

impl<O> WorkerReport<O> {
    /// Key used to drop reports from workers that are no longer current.
    pub fn key(&self) -> (k: (TaskId, Generation))
        ensures
            k == report_key(*self),
    {
        match self {
            WorkerReport::Built { task_id, generation } => (*task_id, *generation),
            WorkerReport::BuildFailed { task_id, generation, .. } => (*task_id, *generation),
            WorkerReport::BuildTimeout { task_id, generation } => (*task_id, *generation),
            WorkerReport::BuildPanicked { task_id, generation, .. } => (*task_id, *generation),
            WorkerReport::Polled { task_id, generation, .. } => (*task_id, *generation),
            WorkerReport::PollFailed { task_id, generation, .. } => (*task_id, *generation),
            WorkerReport::PollPanicked { task_id, generation, .. } => (*task_id, *generation),
            WorkerReport::WorkerPanicked { task_id, generation, .. } => (*task_id, *generation),
            WorkerReport::Paused { task_id, generation } => (*task_id, *generation),
            WorkerReport::Resumed { task_id, generation } => (*task_id, *generation),
        }
    }
}

/// How the adapter build of a worker ended.
pub enum BuildOutcome {
    Built,
    Failed(String),
    TimedOut,
    Panicked(String),
}

/// How one poll of a worker ended.
pub enum PollEnd<O> {
    Answered(Response<O>),
    Fatal(String),
    Panicked(String),
}

/// What a worker loop waits for next.
#[derive(Clone, Copy, Debug, PartialEq, Eq)]
pub enum WorkerWait {
    /// Paused: only a command can wake it.
    CommandOnly,
    /// Sleep one interval, then poll, unless a command comes first.
    IntervalOrCommand,
}

/// Decision core of one worker: which report each build or poll outcome
/// produces, whether the worker goes on, and the pause state.
pub struct WorkerCore {
    pub task_id: TaskId,
    pub generation: Generation,
    pub paused: bool,
}

impl WorkerCore {
    pub fn new(task_id: TaskId, generation: Generation) -> (w: WorkerCore)
        ensures
            w.task_id == task_id,
            w.generation == generation,
            !w.paused,
    {
        WorkerCore { task_id, generation, paused: false }
    }

    /// Report for a finished build; only a successful build lets the worker go on.
    pub fn on_build<O>(&self, outcome: BuildOutcome) -> (r: (WorkerReport<O>, bool))
        ensures
            report_key(r.0) == (self.task_id, self.generation),
            r.1 == (outcome is Built),
            match outcome {
                BuildOutcome::Built => r.0 is Built,
                BuildOutcome::Failed(reason) => r.0 matches WorkerReport::BuildFailed { reason: x, .. } && x == reason,
                BuildOutcome::TimedOut => r.0 is BuildTimeout,
                BuildOutcome::Panicked(reason) => r.0 matches WorkerReport::BuildPanicked { reason: x, .. } && x == reason,
            },
    {
        let task_id = self.task_id;
        let generation = self.generation;
        match outcome {
            BuildOutcome::Built => (WorkerReport::Built { task_id, generation }, true),
            BuildOutcome::Failed(reason) => (WorkerReport::BuildFailed { task_id, generation, reason }, false),
            BuildOutcome::TimedOut => (WorkerReport::BuildTimeout { task_id, generation }, false),
            BuildOutcome::Panicked(reason) => (WorkerReport::BuildPanicked { task_id, generation, reason }, false),
        }
    }

    /// Report for a finished poll; a fatal error or a panic ends the worker.
    pub fn on_poll<O>(&self, end: PollEnd<O>) -> (r: (WorkerReport<O>, bool))
        ensures
            report_key(r.0) == (self.task_id, self.generation),
            r.1 == (end is Answered),
            match end {
                PollEnd::Answered(response) => r.0 matches WorkerReport::Polled { response: x, .. } && x == response,
                PollEnd::Fatal(reason) => r.0 matches WorkerReport::PollFailed { reason: x, .. } && x == reason,
                PollEnd::Panicked(reason) => r.0 matches WorkerReport::PollPanicked { reason: x, .. } && x == reason,
            },
    {
        let task_id = self.task_id;
        let generation = self.generation;
        match end {
            PollEnd::Answered(response) => (WorkerReport::Polled { task_id, generation, response }, true),
            PollEnd::Fatal(reason) => (WorkerReport::PollFailed { task_id, generation, reason }, false),
            PollEnd::Panicked(reason) => (WorkerReport::PollPanicked { task_id, generation, reason }, false),
        }
    }

    /// Report for a panic of the whole worker.
    pub fn on_worker_panic<O>(&self, reason: String) -> (r: WorkerReport<O>)
        ensures
            r matches WorkerReport::WorkerPanicked { task_id, generation, reason: x } && task_id == self.task_id
                && generation == self.generation && x == reason,
    {
        WorkerReport::WorkerPanicked { task_id: self.task_id, generation: self.generation, reason }
    }

    /// What the loop waits for now.
    pub fn wait(&self) -> (w: WorkerWait)
        ensures
            w == if self.paused { WorkerWait::CommandOnly } else { WorkerWait::IntervalOrCommand },
    {
        if self.paused {
            WorkerWait::CommandOnly
        } else {
            WorkerWait::IntervalOrCommand
        }
    }

    /// A pace command. Pausing a running worker and resuming a paused one are
    /// reported; the other combinations change nothing.
    pub fn on_cmd<O>(&mut self, cmd: WorkerCmd) -> (r: Option<WorkerReport<O>>)
        ensures
            final(self).task_id == old(self).task_id,
            final(self).generation == old(self).generation,
            match cmd {
                WorkerCmd::Pause => if !old(self).paused {
                    &&& final(self).paused
                    &&& r matches Some(WorkerReport::Paused { task_id, generation }) && task_id == old(self).task_id
                        && generation == old(self).generation
                } else {
                    final(self).paused && r is None
                },
                WorkerCmd::Resume => if old(self).paused {
                    &&& !final(self).paused
                    &&& r matches Some(WorkerReport::Resumed { task_id, generation }) && task_id == old(self).task_id
                        && generation == old(self).generation
                } else {
                    !final(self).paused && r is None
                },
            },
    {
        match cmd {
            WorkerCmd::Pause => {
                if self.paused {
                    None
                } else {
                    self.paused = true;
                    Some(WorkerReport::Paused { task_id: self.task_id, generation: self.generation })
                }
            },
            WorkerCmd::Resume => {
                if self.paused {
                    self.paused = false;
                    Some(WorkerReport::Resumed { task_id: self.task_id, generation: self.generation })
                } else {
                    None
                }
            },
        }
    }
}

} // verus!
