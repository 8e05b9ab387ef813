//! The coarse run status of a supervised unit.

use vstd::prelude::*;

verus! {

/// The coarse run status of a supervised unit.
#[derive(Debug, Clone, Copy, PartialEq, Eq, Structural)]
pub enum Status {
    New,
    Running,
    Paused,
    Complete,
    Error,
}

} // verus!
