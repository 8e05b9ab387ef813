//! Signals and data markers, as the rest of the crate defines them.

pub use crate::ipc::{NoOutput, ProcData, ProcOutput};
pub use crate::proto::ControlSignal;
