//! A supervisor for one long-running backend worker process: it tracks the
//! spawned processes, decides how each one is torn down, and turns the
//! worker's output events into lines of a persistent log.
//!
//! The process launching, signalling, sleeping and file writing are done by
//! the host application; this library holds the decisions and their proofs.

pub mod drain;
pub mod supervisor;

pub use drain::{append_transcript, log_line, DrainAction, LogDrain, OutputEvent};
pub use supervisor::{
    escalation_steps, BackendManager, InstallOutcome, SetupError, SignalKind, SpawnError,
    Spawned, StartError, StopAction, Teardown, Worker, GRACE_PERIOD_SECS,
};
