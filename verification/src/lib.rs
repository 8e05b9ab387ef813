//! Actor and orchestration primitives: the verified core.
//!
//! The control-plane vocabulary (signals, lifecycle states, orchestration
//! strategies) lives in [`proto`]; the actor run-loop state machine, the
//! foreign-actor adapter, dormancy and the orchestrator's bookkeeping live
//! in [`actor`]; what flows between actors and how a request settles live
//! in [`ipc`].

pub mod actor;
pub mod ipc;
pub mod outside;
pub mod primitives;
pub mod proto;

pub use proto::{ControlSignal, LifecycleStatus, OrchestrationStrategy, OrchestrationType};
