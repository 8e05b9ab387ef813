use ego_proc::actor::{RunState, TickOutcome};
use ego_proc::{ControlSignal, LifecycleStatus};

fn running() -> RunState {
    let mut r = RunState::new(7);
    r.start();
    r
}

#[test]
fn fresh_actor_is_ready_until_started() {
    let mut r = RunState::new(42);
    assert_eq!(r.id, 42);
    assert_eq!(r.lifecycle_status, LifecycleStatus::Ready);
    assert!(!r.is_live());
    assert!(!r.sig_notify);
    r.start();
    assert_eq!(r.lifecycle_status, LifecycleStatus::Running);
    assert!(r.is_live());
}

#[test]
fn stop_signal_ends_the_loop() {
    let mut r = running();
    r.apply_signal(ControlSignal::Stop);
    assert_eq!(r.lifecycle_status, LifecycleStatus::Ready);
    assert!(!r.is_live());
}

#[test]
fn pause_skips_ticks_and_resume_restores_them() {
    let mut r = running();
    r.apply_signal(ControlSignal::Pause);
    assert_eq!(r.lifecycle_status, LifecycleStatus::Paused);
    assert!(r.is_live());
    assert!(!r.tick_enabled());
    r.apply_signal(ControlSignal::Notify);
    r.apply_signal(ControlSignal::Start);
    assert_eq!(r.lifecycle_status, LifecycleStatus::Paused);
    r.apply_signal(ControlSignal::Resume);
    assert_eq!(r.lifecycle_status, LifecycleStatus::Running);
    assert!(r.tick_enabled());
}

#[test]
fn failures_and_completion_stop_the_actor() {
    let mut r = running();
    r.record_data(true);
    assert_eq!(r.lifecycle_status, LifecycleStatus::Running);
    r.record_data(false);
    assert_eq!(r.lifecycle_status, LifecycleStatus::Ready);

    let mut r = running();
    r.record_tick(TickOutcome::Continue);
    assert!(r.is_live());
    r.record_tick(TickOutcome::Finished);
    assert!(!r.is_live());

    let mut r = running();
    r.record_tick(TickOutcome::Crashed);
    assert_eq!(r.lifecycle_status, LifecycleStatus::Ready);
}

#[test]
fn passivation_makes_the_actor_dormant_only_when_captured() {
    let mut r = running();
    r.record_passivation(false);
    assert_eq!(r.lifecycle_status, LifecycleStatus::Running);
    r.record_passivation(true);
    assert_eq!(r.lifecycle_status, LifecycleStatus::Dormant);
    assert!(!r.is_live());
}

#[test]
fn status_codes_are_distinct() {
    let mut r = running();
    assert_eq!(r.status_code(), 1);
    r.apply_signal(ControlSignal::Pause);
    assert_eq!(r.status_code(), 2);
    r.apply_signal(ControlSignal::Stop);
    assert_eq!(r.status_code(), 0);
    r.record_passivation(true);
    assert_eq!(r.status_code(), 3);
}

#[test]
fn closed_control_channel_ends_the_loop() {
    let mut r = running();
    r.apply_signal(ControlSignal::Pause);
    r.control_closed();
    assert_eq!(r.lifecycle_status, LifecycleStatus::Ready);
    assert!(!r.is_live());
    assert_eq!(r.id, 7);
}
