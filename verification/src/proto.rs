//! Control-plane types shared by every actor group.

use vstd::prelude::*;

verus! {

/// A control message sent to a running actor.
#[derive(Debug, Clone, Copy, PartialEq, Eq, Structural)]
pub enum ControlSignal {
    Start,
    Stop,
    Pause,
    Resume,
    Notify,
}

/// Where an actor is in its life.
#[derive(Debug, Clone, Copy, PartialEq, Eq, Structural)]
pub enum LifecycleStatus {
    /// Not running: freshly built, stopped, finished or failed.
    Ready,
    /// Ticking.
    Running,
    /// Alive, but ticks are skipped until `Resume`.
    Paused,
    /// State captured to bytes; the task has exited, the id lives on.
    Dormant,
}

/// What an orchestrator does when one of its actors dies.
#[derive(Debug, Clone, Copy, PartialEq, Eq, Structural)]
pub enum OrchestrationType {
    /// Actors run to completion and are not restarted.
    OneShot,
    /// Dead actors are rebuilt from the factory.
    Restart,
    /// A death is reported upward.
    Escalate,
}

/// The wire number of an orchestration type.
pub open spec fn orchestration_type_code(t: OrchestrationType) -> i32 {
    match t {
        OrchestrationType::OneShot => 0,
        OrchestrationType::Restart => 1,
        OrchestrationType::Escalate => 2,
    }
}

impl OrchestrationType {
    /// The wire number of this orchestration type.
    pub fn code(self) -> (r: i32)
        ensures
            r == orchestration_type_code(self),
    {
        match self {
            OrchestrationType::OneShot => 0,
            OrchestrationType::Restart => 1,
            OrchestrationType::Escalate => 2,
        }
    }

    /// The orchestration type with the given wire number, if any.
    pub fn from_code(code: i32) -> (r: Option<OrchestrationType>)
        ensures
            match r {
                Some(t) => orchestration_type_code(t) == code,
                None => code != 0 && code != 1 && code != 2,
            },
    {
        if code == 0 {
            Some(OrchestrationType::OneShot)
        } else if code == 1 {
            Some(OrchestrationType::Restart)
        } else if code == 2 {
            Some(OrchestrationType::Escalate)
        } else {
            None
        }
    }
}

/// The supervision policy of an actor group: a type (by its wire number)
/// and a restart limit, `-1` meaning unlimited.
#[derive(Debug, Clone, Copy, PartialEq, Eq, Structural)]
pub struct OrchestrationStrategy {
    pub strategy_type: i32,
    pub restart_limit: i32,
}

impl OrchestrationStrategy {
    /// Actors run to completion and are not restarted.
    pub fn oneshot() -> (r: Self)
        ensures
            r.strategy_type == orchestration_type_code(OrchestrationType::OneShot),
            r.restart_limit == -1,
    {
        OrchestrationStrategy { strategy_type: OrchestrationType::OneShot.code(), restart_limit: -1 }
    }

    /// Restart dead actors, giving up after `restart_limit` restarts.
    pub fn restart_at_most(restart_limit: i32) -> (r: Self)
        ensures
            r.strategy_type == orchestration_type_code(OrchestrationType::Restart),
            r.restart_limit == restart_limit,
    {
        OrchestrationStrategy { strategy_type: OrchestrationType::Restart.code(), restart_limit }
    }

    /// Restart dead actors indefinitely.
    pub fn restart() -> (r: Self)
        ensures
            r.strategy_type == orchestration_type_code(OrchestrationType::Restart),
            r.restart_limit == -1,
    {
        OrchestrationStrategy { strategy_type: OrchestrationType::Restart.code(), restart_limit: -1 }
    }
}

} // verus!
