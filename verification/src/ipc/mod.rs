//! Inter-actor communication: the marker traits of what flows between
//! actors, and deadline'd request-reply.

pub mod request;
pub mod signal;

pub use request::{ReplyOutcome, RequestError, RequestToken, settle_request};
pub use signal::{NoOutput, PlatformSendSync, ProcData, ProcOutput};
