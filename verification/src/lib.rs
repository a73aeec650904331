//! Verified core of a polling task monitor: task identities, restart backoff,
//! bounded result history, task specs and data, a task repository, and the
//! decision cores of the orchestrators, task actors, supervisor and projector.

pub mod clock;
pub mod config;
pub mod entity;
pub mod event;
pub mod health;
pub mod history;
pub mod ids;
pub mod mapping;
pub mod payload;
pub mod orchestrator;
pub mod polling;
pub mod query;
pub mod report;
pub mod repository;
pub mod restart_policy;
pub mod runtime;
pub mod spec;
pub mod task;
pub mod taskgroup;
pub mod text;
pub mod view;
