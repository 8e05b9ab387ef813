//! The older primitive vocabulary: run status, supervision strategies, and
//! the signal and data traits (shared with [`crate::ipc`]).

pub mod signal;
pub mod status;
pub mod strategy;

pub use signal::{ControlSignal, NoOutput, ProcData, ProcOutput};
pub use status::Status;
pub use strategy::OrchestratorStrategy;
