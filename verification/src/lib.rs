//! Label-driven job scheduling for commands that run inside containers.
//!
//! Job definitions are read from container labels, schedules are parsed
//! into a typed model, and the timing, overlap and execution decisions of
//! every job are pure functions with machine-checked contracts. Talking to
//! the container runtime, sleeping and logging are left to the caller, who
//! reports what happened and is told what to do next.

pub mod cli;
pub mod cron_expr;
pub mod discovery;
pub mod discovery_laws;
pub mod gate;
pub mod interval;
pub mod job_label;
pub mod label;
pub mod runner;
pub mod schedule;
pub mod scheduler;
pub mod shutdown;
pub mod skipped;
pub mod text;
pub mod timestamp;

pub use cli::{Cli, Command, RunArgs};
pub use discovery::{discover, Container, DiscoveryError, Job};
pub use gate::{OverlapGate, OverlapPolicy};
pub use label::{Label, LabelMap};
pub use runner::run_once;
pub use schedule::{JobSchedule, ScheduleError};
pub use scheduler::run_loop;
