use vstd::prelude::*;

verus! {

/// Timing of one poll attempt (milliseconds).
#[derive(Clone, Copy, Debug, PartialEq, Eq)]
pub struct AttemptConfig {
    pub timeout_ms: u64,
    pub retries: u8,
    pub retry_delay_ms: u64,
}

/// Polling schedule of a task: interval between polls (milliseconds), the number
/// of polls after which the task completes (`0` = unlimited) and attempt timing.
#[derive(Clone, Copy, Debug, PartialEq, Eq)]
pub struct PollConfig {
    pub interval_ms: u128,
    pub limit: u64,
    pub attempt: AttemptConfig,
}

impl PollConfig {
    pub open spec fn is_zero(&self) -> bool {
        &&& self.interval_ms == 0
        &&& self.limit == 0
        &&& self.attempt.timeout_ms == 0
        &&& self.attempt.retries == 0
        &&& self.attempt.retry_delay_ms == 0
    }

    /// All-zero schedule: no interval, no limit, no attempt timing.
    pub fn zero() -> (p: PollConfig)
        ensures
            p.is_zero(),
    {
        PollConfig {
            interval_ms: 0,
            limit: 0,
            attempt: AttemptConfig { timeout_ms: 0, retries: 0, retry_delay_ms: 0 },
        }
    }

    pub fn interval(&self) -> (r: u128)
        ensures
            r == self.interval_ms,
    {
        self.interval_ms
    }

    pub fn limit(&self) -> (r: u64)
        ensures
            r == self.limit,
    {
        self.limit
    }

    pub fn attempt(&self) -> (r: AttemptConfig)
        ensures
            r == self.attempt,
    {
        self.attempt
    }
}

impl Default for PollConfig {
    fn default() -> (p: PollConfig)
        ensures
            p.is_zero(),
    {
        PollConfig::zero()
    }
}

/// Error of one failed attempt.
#[derive(Clone, Debug)]
pub struct AttemptError {
    pub message: String,
}

/// Outcome of one poll: an answer with its latency, or every attempt failed.
#[derive(Clone, Debug)]
pub enum Response<O> {
    Success { output: O, elapsed_ms: u64 },
    NoResponse { errors: Vec<AttemptError> },
}

/// `c` is a copy of `r`: an answer with its output copied by `O::clone` and the
/// same latency, or the same attempt errors.
pub open spec fn response_copied<O: Clone>(c: Response<O>, r: Response<O>) -> bool {
    match r {
        Response::Success { output, elapsed_ms } => c matches Response::Success { output: co, elapsed_ms: ce }
            && cloned(output, co) && ce == elapsed_ms,
        Response::NoResponse { errors } => c matches Response::NoResponse { errors: ce } && ce@ == errors@,
    }
}

/// A copy of a response: the output is copied with `O::clone`, each attempt
/// error with its message.
pub fn copy_response<O: Clone>(r: &Response<O>) -> (c: Response<O>)
    ensures
        response_copied(c, *r),
{
    match r {
        Response::Success { output, elapsed_ms } => {
            Response::Success { output: output.clone(), elapsed_ms: *elapsed_ms }
        },
        Response::NoResponse { errors } => {
            let mut copied: Vec<AttemptError> = Vec::new();
            for i in 0..errors.len()
                invariant
                    copied@.len() == i,
                    forall|j: int| 0 <= j < i ==> copied@[j] == errors@[j],
            {
                copied.push(AttemptError { message: errors[i].message.clone() });
            }
            proof {
                assert(copied@ =~= errors@);
            }
            Response::NoResponse { errors: copied }
        },
    }
}

/// Result slot of a task snapshot: nothing polled yet, or the last response.
#[derive(Clone, Debug)]
pub enum PollResult<O> {
    Initial,
    Polled(Response<O>),
}

/// Accumulated poll statistics. `min_latency_ms` is `u64::MAX` until the first success.
#[derive(Clone, Copy, Debug, PartialEq, Eq)]
pub struct Metrics {
    pub total_attempts: u64,
    pub successful: u64,
    pub errors: u64,
    pub current_latency_ms: u64,
    pub avg_latency_ms: u64,
    pub min_latency_ms: u64,
    pub max_latency_ms: u64,
}

pub open spec fn sat_inc(x: u64) -> u64 {
    if x == u64::MAX {
        x
    } else {
        (x + 1) as u64
    }
}

/// Running mean after one more sample, over the count before saturation.
pub open spec fn next_avg(avg: u64, count: u64, sample: u64) -> int {
    (avg * count + sample) / (count + 1)
}

impl Metrics {
    pub open spec fn is_initial(self) -> bool {
        &&& self.total_attempts == 0
        &&& self.successful == 0
        &&& self.errors == 0
        &&& self.current_latency_ms == 0
        &&& self.avg_latency_ms == 0
        &&& self.min_latency_ms == u64::MAX
        &&& self.max_latency_ms == 0
    }

    pub fn initial() -> (m: Metrics)
        ensures
            m.is_initial(),
    {
        Metrics {
            total_attempts: 0,
            successful: 0,
            errors: 0,
            current_latency_ms: 0,
            avg_latency_ms: 0,
            min_latency_ms: u64::MAX,
            max_latency_ms: 0,
        }
    }

    pub open spec fn success_spec(self, elapsed_ms: u64) -> Metrics {
        Metrics {
            total_attempts: sat_inc(self.total_attempts),
            successful: sat_inc(self.successful),
            errors: self.errors,
            current_latency_ms: elapsed_ms,
            avg_latency_ms: next_avg(self.avg_latency_ms, self.successful, elapsed_ms) as u64,
            min_latency_ms: if elapsed_ms < self.min_latency_ms {
                elapsed_ms
            } else {
                self.min_latency_ms
            },
            max_latency_ms: if elapsed_ms > self.max_latency_ms {
                elapsed_ms
            } else {
                self.max_latency_ms
            },
        }
    }

    pub open spec fn error_spec(self) -> Metrics {
        Metrics {
            total_attempts: sat_inc(self.total_attempts),
            errors: sat_inc(self.errors),
            ..self
        }
    }

    /// Statistics after one successful poll that took `elapsed_ms`.
    pub fn with_success(self, elapsed_ms: u64) -> (m: Metrics)
        ensures
            m == self.success_spec(elapsed_ms),
    {
        let total = if self.total_attempts == u64::MAX {
            self.total_attempts
        } else {
            self.total_attempts + 1
        };
        let successful = if self.successful == u64::MAX {
            self.successful
        } else {
            self.successful + 1
        };
        proof {
            let a = self.avg_latency_ms as int;
            let c = self.successful as int;
            let e = elapsed_ms as int;
            assert(a * c + e <= 0xffff_ffff_ffff_ffff_ffff_ffff_ffff_ffff) by (nonlinear_arith)
                requires
                    0 <= a <= u64::MAX,
                    0 <= c <= u64::MAX,
                    0 <= e <= u64::MAX,
            ;
            assert((a * c + e) / (c + 1) <= u64::MAX) by (nonlinear_arith)
                requires
                    0 <= a <= u64::MAX,
                    0 <= c,
                    0 <= e <= u64::MAX,
            {
                assert(a * c + e <= u64::MAX * c + u64::MAX);
                assert(u64::MAX * c + u64::MAX == u64::MAX * (c + 1));
            }
        }
        let avg_wide: u128 = ((self.avg_latency_ms as u128) * (self.successful as u128)
            + (elapsed_ms as u128)) / ((self.successful as u128) + 1);
        let min = if elapsed_ms < self.min_latency_ms {
            elapsed_ms
        } else {
            self.min_latency_ms
        };
        let max = if elapsed_ms > self.max_latency_ms {
            elapsed_ms
        } else {
            self.max_latency_ms
        };
        Metrics {
            total_attempts: total,
            successful,
            errors: self.errors,
            current_latency_ms: elapsed_ms,
            avg_latency_ms: avg_wide as u64,
            min_latency_ms: min,
            max_latency_ms: max,
        }
    }

    /// Statistics after one poll in which every attempt failed.
    pub fn with_error(self) -> (m: Metrics)
        ensures
            m == self.error_spec(),
    {
        let total = if self.total_attempts == u64::MAX {
            self.total_attempts
        } else {
            self.total_attempts + 1
        };
        let errors = if self.errors == u64::MAX {
            self.errors
        } else {
            self.errors + 1
        };
        Metrics { total_attempts: total, errors, ..self }
    }
}

/// Latencies are ordered: no minimum recorded yet, or the minimum is at most
/// the maximum.
pub open spec fn latency_ordered(m: Metrics) -> bool {
    m.min_latency_ms == u64::MAX || m.min_latency_ms <= m.max_latency_ms
}

/// Fresh metrics have ordered latencies, and every poll keeps them ordered:
/// after a success the new latency lies between the minimum and the maximum.
pub proof fn lemma_polls_keep_latency_ordered(m: Metrics, elapsed_ms: u64)
    ensures
        m.is_initial() ==> latency_ordered(m),
        latency_ordered(m) ==> latency_ordered(m.error_spec()),
        m.success_spec(elapsed_ms).min_latency_ms <= elapsed_ms <= m.success_spec(elapsed_ms).max_latency_ms,
        latency_ordered(m.success_spec(elapsed_ms)),
{
}

impl Default for Metrics {
    fn default() -> (m: Metrics)
        ensures
            m.is_initial(),
    {
        Metrics::initial()
    }
}

/// Identifier of a poll worker.
#[derive(Clone, Copy, Debug, PartialEq, Eq, Hash)]
pub struct WorkerId(pub u64);

/// Run state a poll worker reports.
#[derive(Clone, Copy, Debug, PartialEq, Eq)]
pub enum WorkerState {
    Idle,
    Running,
    Stopped,
    RatedLimit,
}

/// What a poll worker reports after a poll: its result, state, metrics and
/// the schedule it runs with.
pub struct WorkerEvent<O> {
    pub id: WorkerId,
    pub poll_result: PollResult<O>,
    pub state: WorkerState,
    pub metrics: Metrics,
    pub poll_config: PollConfig,
}

} // verus!
