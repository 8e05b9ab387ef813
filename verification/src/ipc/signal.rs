//! What may flow into and out of an actor.

use vstd::prelude::*;

verus! {

/// `Send + Sync`, the bound every actor state and message satisfies.
pub trait PlatformSendSync: Send + Sync {}

impl<T: ?Sized + Send + Sync> PlatformSendSync for T {}

/// Data that can be sent to an actor.
pub trait ProcData: Clone + Send + Sync {}

/// Output that an actor pushes up to its orchestrator.
pub trait ProcOutput: Clone + Send + Sync {}

/// Unit type for actors that produce no upward output.
#[derive(Clone, Copy, Debug, PartialEq, Eq, Structural)]
pub struct NoOutput;

impl ProcOutput for NoOutput {}

} // verus!
