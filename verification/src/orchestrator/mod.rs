//! Build-pipeline orchestrator: adapters are built outside the loop, workers
//! are started from finished builds, and failed workers restart after a backoff
//! kept by the supervisor of the worker slots.

pub mod orchestrator;
pub mod supervisor;
