//! Actors: the run-loop state machine, the foreign-actor adapter, dormancy
//! and the orchestrator's bookkeeping.

pub mod controller;
pub mod dormant;
pub mod foreign;
pub mod lifecycle;
pub mod orchestrator;

pub use crate::ipc::PlatformSendSync;
pub use controller::ControllerData;
pub use dormant::{
    DormantStore, InMemoryDormantStore, PassivateError, ReactivateError, SendDataError, WakePolicy,
};
pub use foreign::{
    BackpressurePolicy, Delivery, DriveStep, Drove, Foreign, ForeignActor, ForeignError, ForeignMetrics, Park,
    PortMsg, WaitHint,
};
pub use lifecycle::{RunState, TickOutcome};
pub use orchestrator::{DataRoute, Orchestrator, PassivationReply, RestartOrder};
