//! The data a controller actor accepts.

use crate::ipc::ProcData;
use vstd::prelude::*;

verus! {

/// The (empty) data message of a controller actor.
#[derive(Debug, Clone, Copy, PartialEq, Eq, Structural)]
pub struct ControllerData;

impl ProcData for ControllerData {}

} // verus!
