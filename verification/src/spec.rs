use vstd::prelude::*;
use crate::clock::now_nanos;
use crate::ids::SpecRevision;
use crate::polling::PollConfig;

verus! {

/// Validation error of a task config.
#[derive(Clone, Debug, PartialEq, Eq)]
pub enum TaskError {
    EmptyName,
}

/// Unicode `White_Space`, the set that `char::is_whitespace` and `str::trim` use.
pub open spec fn is_white_space(c: char) -> bool {
    let u = c as u32;
    ||| 0x09 <= u <= 0x0D
    ||| u == 0x20
    ||| u == 0x85
    ||| u == 0xA0
    ||| u == 0x1680
    ||| 0x2000 <= u <= 0x200A
    ||| u == 0x2028
    ||| u == 0x2029
    ||| u == 0x202F
    ||| u == 0x205F
    ||| u == 0x3000
}

/// A name that is empty after trimming white space.
pub open spec fn is_blank(s: Seq<char>) -> bool {
    forall|i: int| 0 <= i < s.len() ==> is_white_space(#[trigger] s[i])
}

pub fn char_is_white_space(c: char) -> (b: bool)
    ensures
        b == is_white_space(c),
{
    let u = c as u32;
    (0x09 <= u && u <= 0x0D) || u == 0x20 || u == 0x85 || u == 0xA0 || u == 0x1680 || (0x2000
        <= u && u <= 0x200A) || u == 0x2028 || u == 0x2029 || u == 0x202F || u == 0x205F || u
        == 0x3000
}

/// True when `s` holds only white space (its trimmed form is empty).
pub fn str_is_blank(s: &str) -> (b: bool)
    ensures
        b == is_blank(s@),
{
    let mut blank = true;
    for c in iter: s.chars()
        invariant
            iter.seq() == s@,
            blank == (forall|j: int| 0 <= j < iter.index() ==> is_white_space(#[trigger] s@[j])),
    {
        if !char_is_white_space(c) {
            blank = false;
        }
    }
    blank
}

/// Validated declarative description of a task.
#[derive(Clone, Debug)]
pub struct TaskConfig<Q> {
    name: String,
    query: Q,
    poll_config: PollConfig,
    deep_history: u8,
}

impl<Q> TaskConfig<Q> {
    pub closed spec fn name_view(&self) -> Seq<char> {
        self.name@
    }

    pub closed spec fn query_view(&self) -> Q {
        self.query
    }

    pub closed spec fn poll_config_view(&self) -> PollConfig {
        self.poll_config
    }

    pub closed spec fn deep_history_view(&self) -> u8 {
        self.deep_history
    }

    /// Accepts the config unless the name is blank.
    pub fn try_new(name: String, query: Q, poll_config: PollConfig, deep_history: u8) -> (r: Result<
        TaskConfig<Q>,
        TaskError,
    >)
        ensures
            r is Err <==> is_blank(name@),
            r is Err ==> r->Err_0 == TaskError::EmptyName,
            r matches Ok(c) ==> {
                &&& c.name_view() == name@
                &&& c.query_view() == query
                &&& c.poll_config_view() == poll_config
                &&& c.deep_history_view() == deep_history
            },
    {
        if str_is_blank(name.as_str()) {
            return Err(TaskError::EmptyName);
        }
        Ok(TaskConfig { name, query, poll_config, deep_history })
    }

    pub fn name(&self) -> (s: &str)
        ensures
            s@ == self.name_view(),
    {
        self.name.as_str()
    }

    pub fn query(&self) -> (q: &Q)
        ensures
            *q == self.query_view(),
    {
        &self.query
    }

    pub fn poll_config(&self) -> (p: PollConfig)
        ensures
            p == self.poll_config_view(),
    {
        self.poll_config
    }

    pub fn deep_history(&self) -> (d: u8)
        ensures
            d == self.deep_history_view(),
    {
        self.deep_history
    }
}

/// A config with its revision and the time it was set.
#[derive(Clone, Debug)]
pub struct TaskSpec<Q> {
    value: TaskConfig<Q>,
    revision: SpecRevision,
    updated_at: i128,
}

impl<Q> TaskSpec<Q> {
    pub closed spec fn config_view(&self) -> TaskConfig<Q> {
        self.value
    }

    pub closed spec fn revision_view(&self) -> SpecRevision {
        self.revision
    }

    pub closed spec fn updated_at_view(&self) -> i128 {
        self.updated_at
    }

    /// First revision of a config.
    pub fn new(payload: TaskConfig<Q>) -> (s: TaskSpec<Q>)
        ensures
            s.config_view() == payload,
            s.revision_view().0 == 1,
    {
        TaskSpec { value: payload, revision: SpecRevision::new(1), updated_at: now_nanos() }
    }

    /// The config that replaces this one, one revision later.
    pub fn next(&self, payload: TaskConfig<Q>) -> (s: TaskSpec<Q>)
        requires
            self.revision_view().0 < u64::MAX,
        ensures
            s.config_view() == payload,
            s.revision_view().0 == self.revision_view().0 + 1,
    {
        TaskSpec { value: payload, revision: self.revision.next(), updated_at: now_nanos() }
    }

    pub fn config(&self) -> (c: &TaskConfig<Q>)
        ensures
            *c == self.config_view(),
    {
        &self.value
    }

    pub fn name(&self) -> (s: &str)
        ensures
            s@ == self.config_view().name_view(),
    {
        self.value.name()
    }

    pub fn query(&self) -> (q: &Q)
        ensures
            *q == self.config_view().query_view(),
    {
        self.value.query()
    }

    pub fn poll_config(&self) -> (p: PollConfig)
        ensures
            p == self.config_view().poll_config_view(),
    {
        self.value.poll_config()
    }

    pub fn deep_history(&self) -> (d: u8)
        ensures
            d == self.config_view().deep_history_view(),
    {
        self.value.deep_history()
    }

    pub fn revision(&self) -> (r: SpecRevision)
        ensures
            r == self.revision_view(),
    {
        self.revision
    }

    /// When this revision was made (milliseconds since the epoch).
    pub fn updated_at(&self) -> (t: i128)
        ensures
            t == self.updated_at_view(),
    {
        self.updated_at
    }
}

} // verus!
