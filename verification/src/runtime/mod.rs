//! Actor runtime: the orchestrator state machine with per-task workers, the
//! per-task actor, the supervisor that recreates actors, and the projector.

pub mod orchestrator;
pub mod projector;
pub mod supervisor;
pub mod task_actor;
pub mod worker;
