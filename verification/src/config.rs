use vstd::prelude::*;
use crate::entity::{Protocol, TypeQuery};
use crate::polling::{AttemptConfig, PollConfig};
use crate::text::{decimal, push_decimal};

verus! {

/// Whether the application has started its tasks.
#[derive(Clone, Copy, Debug, PartialEq, Eq)]
pub enum ApplicationState {
    Idle,
    Runnig,
}

/// History depth used when a task config does not give one.
pub const DEFAULT_HISTORY_DEPTH: u8 = 3;

/// One OID of a raw SNMP GET query: an optional display name, the OID or its
/// alias, and an optional value.
#[derive(Clone, Debug)]
pub struct SnmpOidItem {
    pub name: Option<String>,
    pub oid: String,
    pub value: Option<String>,
}

/// Raw SNMP GET query as configured.
#[derive(Clone, Debug)]
pub struct QuerySnmpGet {
    pub profile: Option<String>,
    pub host: String,
    pub port: u16,
    pub community: String,
    pub oids: Vec<SnmpOidItem>,
}

/// The query of a configured task.
#[derive(Clone, Debug)]
pub enum UseCaseQuery {
    SnmpGet(QuerySnmpGet),
}

/// `host:port` of a query.
pub open spec fn target_text(q: UseCaseQuery) -> Seq<char> {
    match q {
        UseCaseQuery::SnmpGet(g) => g.host@ + ":"@ + decimal(g.port as nat),
    }
}

impl UseCaseQuery {
    pub fn protocol(&self) -> (p: Protocol)
        ensures
            p == Protocol::Snmp,
    {
        match self {
            UseCaseQuery::SnmpGet(_) => Protocol::Snmp,
        }
    }

    pub fn type_query(&self) -> (t: TypeQuery)
        ensures
            t == TypeQuery::SnmpGet,
    {
        match self {
            UseCaseQuery::SnmpGet(_) => TypeQuery::SnmpGet,
        }
    }

    /// The polled endpoint, written `host:port`.
    pub fn target(&self) -> (s: String)
        ensures
            s@ == target_text(*self),
    {
        match self {
            UseCaseQuery::SnmpGet(q) => {
                let mut s = String::from_str(q.host.as_str());
                s.append(":");
                push_decimal(&mut s, q.port as u128);
                s
            },
        }
    }
}

/// Attempt timing as configured (milliseconds).
#[derive(Clone, Copy, Debug, PartialEq, Eq)]
pub struct AttemptPollTimingsDto {
    pub timeout_ms: u64,
    pub retries: u8,
    pub retry_delay_ms: u64,
}

/// One task as configured.
#[derive(Clone, Debug)]
pub struct TaskConfigDto {
    pub name: String,
    pub interval_seconds: u64,
    pub limit: u64,
    pub deep_history: Option<u8>,
    pub attempt_config: AttemptPollTimingsDto,
    pub query: UseCaseQuery,
}

/// All configured tasks.
#[derive(Clone, Debug)]
pub struct AppConfig {
    pub tasks: Vec<TaskConfigDto>,
}

/// A task ready to be added: name, query, schedule and history depth.
#[derive(Clone, Debug)]
pub struct TaskSpec {
    pub name: String,
    pub query: UseCaseQuery,
    pub poll_config: PollConfig,
    pub deep_history: u8,
}

/// The schedule a task config describes, in milliseconds.
pub open spec fn poll_config_of(dto: TaskConfigDto) -> PollConfig {
    PollConfig {
        interval_ms: (dto.interval_seconds * 1000) as u128,
        limit: dto.limit,
        attempt: AttemptConfig {
            timeout_ms: dto.attempt_config.timeout_ms,
            retries: dto.attempt_config.retries,
            retry_delay_ms: dto.attempt_config.retry_delay_ms,
        },
    }
}

impl TaskSpec {
    /// Turns a configured task into a spec: the interval in seconds becomes
    /// milliseconds, a missing history depth becomes the default of three.
    pub fn try_from_dto(dto: TaskConfigDto) -> (r: Result<TaskSpec, ()>)
        ensures
            r matches Ok(s) && s.name == dto.name && s.query == dto.query && s.poll_config == poll_config_of(dto)
                && s.deep_history == match dto.deep_history {
                Some(d) => d,
                None => DEFAULT_HISTORY_DEPTH,
            },
    {
        let attempt = AttemptConfig {
            timeout_ms: dto.attempt_config.timeout_ms,
            retries: dto.attempt_config.retries,
            retry_delay_ms: dto.attempt_config.retry_delay_ms,
        };
        let poll_config = PollConfig { interval_ms: (dto.interval_seconds as u128) * 1000, limit: dto.limit, attempt };
        let deep_history = match dto.deep_history {
            Some(d) => d,
            None => DEFAULT_HISTORY_DEPTH,
        };
        Ok(TaskSpec { name: dto.name, query: dto.query, poll_config, deep_history })
    }
}

} // verus!
