//! The decisions of an actor's run loop.
//!
//! The loop itself waits on a ticker, a control channel, a data channel and
//! a passivation channel; each time one of them fires it asks [`RunState`]
//! what the event does to the actor's lifecycle. The loop keeps going while
//! [`RunState::is_live`] holds.

use crate::proto::{ControlSignal, LifecycleStatus};
use vstd::prelude::*;

verus! {

/// The loop runs while the actor is running or paused.
pub open spec fn status_is_live(s: LifecycleStatus) -> bool {
    s == LifecycleStatus::Running || s == LifecycleStatus::Paused
}

/// What a control signal does to the lifecycle status.
pub open spec fn signal_transition(s: LifecycleStatus, sig: ControlSignal) -> LifecycleStatus {
    match sig {
        ControlSignal::Stop => LifecycleStatus::Ready,
        ControlSignal::Pause => LifecycleStatus::Paused,
        ControlSignal::Resume => LifecycleStatus::Running,
        _ => s,
    }
}

/// The wire number of a lifecycle status, as health reports carry it.
pub open spec fn lifecycle_code(s: LifecycleStatus) -> i32 {
    match s {
        LifecycleStatus::Ready => 0,
        LifecycleStatus::Running => 1,
        LifecycleStatus::Paused => 2,
        LifecycleStatus::Dormant => 3,
    }
}

/// How one call of the state's `on_tick` ended.
#[derive(Debug, Clone, Copy, PartialEq, Eq, Structural)]
pub enum TickOutcome {
    /// `Ok(true)`: keep ticking.
    Continue,
    /// `Ok(false)`: the actor ran to completion.
    Finished,
    /// `Err(..)`: the actor failed.
    Crashed,
}

/// The part of an actor that its run loop decides on: its identity, its
/// lifecycle status and its notify flag.
#[derive(Debug, Clone, Copy, PartialEq, Eq, Structural)]
pub struct RunState {
    pub id: u128,
    pub lifecycle_status: LifecycleStatus,
    pub sig_notify: bool,
}

impl RunState {
    /// A fresh actor with the given id: ready, not yet running.
    pub fn new(id: u128) -> (r: RunState)
        ensures
            r.id == id,
            r.lifecycle_status == LifecycleStatus::Ready,
            !r.sig_notify,
    {
        RunState { id, lifecycle_status: LifecycleStatus::Ready, sig_notify: false }
    }

    /// The run loop has started.
    pub fn start(&mut self)
        ensures
            final(self).lifecycle_status == LifecycleStatus::Running,
            final(self).id == old(self).id,
            final(self).sig_notify == old(self).sig_notify,
    {
        self.lifecycle_status = LifecycleStatus::Running;
    }

    /// Whether the run loop goes on.
    pub fn is_live(&self) -> (r: bool)
        ensures
            r == status_is_live(self.lifecycle_status),
    {
        match self.lifecycle_status {
            LifecycleStatus::Running | LifecycleStatus::Paused => true,
            _ => false,
        }
    }

    /// A control signal arrived. `Stop` ends the loop, `Pause` and `Resume`
    /// toggle ticking, any other signal leaves the status as it is. The
    /// state sees the signal either way.
    pub fn apply_signal(&mut self, sig: ControlSignal)
        ensures
            final(self).lifecycle_status == signal_transition(old(self).lifecycle_status, sig),
            sig == ControlSignal::Stop ==> final(self).lifecycle_status == LifecycleStatus::Ready,
            sig == ControlSignal::Pause ==> final(self).lifecycle_status == LifecycleStatus::Paused,
            sig == ControlSignal::Resume ==> final(self).lifecycle_status == LifecycleStatus::Running,
            sig == ControlSignal::Start || sig == ControlSignal::Notify ==> final(self).lifecycle_status
                == old(self).lifecycle_status,
            final(self).id == old(self).id,
            final(self).sig_notify == old(self).sig_notify,
    {
        match sig {
            ControlSignal::Stop => {
                self.lifecycle_status = LifecycleStatus::Ready;
            },
            ControlSignal::Pause => {
                self.lifecycle_status = LifecycleStatus::Paused;
            },
            ControlSignal::Resume => {
                self.lifecycle_status = LifecycleStatus::Running;
            },
            _ => {},
        }
    }

    /// The control channel closed: nobody can steer the actor any more, so
    /// the loop ends as on `Stop`.
    pub fn control_closed(&mut self)
        ensures
            final(self).lifecycle_status == LifecycleStatus::Ready,
            !status_is_live(final(self).lifecycle_status),
            final(self).id == old(self).id,
            final(self).sig_notify == old(self).sig_notify,
    {
        self.lifecycle_status = LifecycleStatus::Ready;
    }

    /// Whether a tick of the ticker does work: a paused actor skips it.
    pub fn tick_enabled(&self) -> (r: bool)
        ensures
            r == (self.lifecycle_status != LifecycleStatus::Paused),
    {
        match self.lifecycle_status {
            LifecycleStatus::Paused => false,
            _ => true,
        }
    }

    /// One data message was handed to the state; a failure stops the actor.
    pub fn record_data(&mut self, ok: bool)
        ensures
            final(self).lifecycle_status == (if ok {
                old(self).lifecycle_status
            } else {
                LifecycleStatus::Ready
            }),
            final(self).id == old(self).id,
            final(self).sig_notify == old(self).sig_notify,
    {
        if !ok {
            self.lifecycle_status = LifecycleStatus::Ready;
        }
    }

    /// The state's `on_tick` returned; completion or failure stops the actor.
    pub fn record_tick(&mut self, outcome: TickOutcome)
        ensures
            final(self).lifecycle_status == (if outcome == TickOutcome::Continue {
                old(self).lifecycle_status
            } else {
                LifecycleStatus::Ready
            }),
            final(self).id == old(self).id,
            final(self).sig_notify == old(self).sig_notify,
    {
        match outcome {
            TickOutcome::Continue => {},
            _ => {
                self.lifecycle_status = LifecycleStatus::Ready;
            },
        }
    }

    /// The orchestrator asked for passivation and the state answered; if it
    /// handed over its bytes the actor goes dormant and the loop ends,
    /// otherwise it keeps running as before.
    pub fn record_passivation(&mut self, captured: bool)
        ensures
            final(self).lifecycle_status == (if captured {
                LifecycleStatus::Dormant
            } else {
                old(self).lifecycle_status
            }),
            final(self).id == old(self).id,
            final(self).sig_notify == old(self).sig_notify,
    {
        if captured {
            self.lifecycle_status = LifecycleStatus::Dormant;
        }
    }

    /// The wire number of the current status, for health reports.
    pub fn status_code(&self) -> (r: i32)
        ensures
            r == lifecycle_code(self.lifecycle_status),
    {
        match self.lifecycle_status {
            LifecycleStatus::Ready => 0,
            LifecycleStatus::Running => 1,
            LifecycleStatus::Paused => 2,
            LifecycleStatus::Dormant => 3,
        }
    }
}

/// `Stop` ends the run loop, whatever state the actor was in.
pub proof fn lemma_stop_ends_run(s: LifecycleStatus)
    ensures
        !status_is_live(signal_transition(s, ControlSignal::Stop)),
{
}

/// Pausing and then resuming a live actor leaves it running.
pub proof fn lemma_pause_then_resume_runs(s: LifecycleStatus)
    ensures
        signal_transition(signal_transition(s, ControlSignal::Pause), ControlSignal::Resume)
            == LifecycleStatus::Running,
        status_is_live(signal_transition(s, ControlSignal::Pause)),
{
}

/// A paused actor stays paused (and keeps skipping ticks) under every
/// signal but `Stop` and `Resume`.
pub proof fn lemma_paused_stays_paused(sig: ControlSignal)
    requires
        sig != ControlSignal::Stop,
        sig != ControlSignal::Resume,
    ensures
        signal_transition(LifecycleStatus::Paused, sig) == LifecycleStatus::Paused,
{
}

/// `Start` and `Notify` only reach the state's own signal handler: in
/// every status they leave the status, and so whether the actor runs and
/// whether it ticks, as it was.
pub proof fn lemma_other_signals_keep_status(s: LifecycleStatus, sig: ControlSignal)
    requires
        sig == ControlSignal::Start || sig == ControlSignal::Notify,
    ensures
        signal_transition(s, sig) == s,
        status_is_live(signal_transition(s, sig)) == status_is_live(s),
        (signal_transition(s, sig) != LifecycleStatus::Paused) == (s != LifecycleStatus::Paused),
{
}

/// Only `Pause` makes a live actor skip ticks, and only `Stop` ends a live
/// actor's run.
pub proof fn lemma_only_pause_pauses_only_stop_stops(s: LifecycleStatus, sig: ControlSignal)
    requires
        status_is_live(s),
    ensures
        signal_transition(s, sig) == LifecycleStatus::Paused ==> sig == ControlSignal::Pause || (
        s == LifecycleStatus::Paused && sig != ControlSignal::Resume),
        !status_is_live(signal_transition(s, sig)) <==> sig == ControlSignal::Stop,
{
}

/// Each lifecycle status has its own wire number.
pub proof fn lemma_lifecycle_code_injective(a: LifecycleStatus, b: LifecycleStatus)
    requires
        lifecycle_code(a) == lifecycle_code(b),
    ensures
        a == b,
{
}

} // verus!
