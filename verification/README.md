# tools-core

Core of a monitor that polls devices on a schedule, keeps the results of every
task and publishes what changes.

- `src/` is the verified library (Verus). It holds the task data (specs,
  results, bounded history, metrics, health), the restart backoff, the task
  repository, the grouped snapshot and its report text, and the decision cores
  of the runtimes: the orchestrator with its per-task workers, the task actors
  with their supervisor and projector, and the build-pipeline orchestrator with
  its worker pool. Each core takes a command or an event and returns the effects
  to carry out.
- `app/` is ordinary Rust: the tokio loops that carry out those effects
  (spawning and aborting workers and actors, timers, channels), the handles and
  facades, configuration read through serde, and the display of errors.
- `tests/` runs the library on concrete values.
