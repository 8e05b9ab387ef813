use ego_proc::primitives::{OrchestratorStrategy, Status};
use ego_proc::{ControlSignal, OrchestrationStrategy, OrchestrationType};

#[test]
fn oneshot_is_unlimited_one_shot() {
    let s = OrchestrationStrategy::oneshot();
    assert_eq!(s.strategy_type, OrchestrationType::OneShot.code());
    assert_eq!(s.strategy_type, 0);
    assert_eq!(s.restart_limit, -1);
}

#[test]
fn restart_is_unlimited_restart() {
    let s = OrchestrationStrategy::restart();
    assert_eq!(s.strategy_type, OrchestrationType::Restart.code());
    assert_eq!(s.strategy_type, 1);
    assert_eq!(s.restart_limit, -1);
}

#[test]
fn restart_at_most_keeps_its_limit() {
    let s = OrchestrationStrategy::restart_at_most(2);
    assert_eq!(s.strategy_type, OrchestrationType::Restart.code());
    assert_eq!(s.restart_limit, 2);
    assert_eq!(OrchestrationStrategy::restart_at_most(0).restart_limit, 0);
}

#[test]
fn orchestration_type_codes_round_trip() {
    for t in [OrchestrationType::OneShot, OrchestrationType::Restart, OrchestrationType::Escalate] {
        assert_eq!(OrchestrationType::from_code(t.code()), Some(t));
    }
    assert_eq!(OrchestrationType::Escalate.code(), 2);
    assert_eq!(OrchestrationType::from_code(3), None);
    assert_eq!(OrchestrationType::from_code(-1), None);
}

#[test]
fn primitive_vocabulary_is_plain_data() {
    assert_ne!(OrchestratorStrategy::RestartAtMost(3), OrchestratorStrategy::RestartAtMost(4));
    assert_ne!(Status::New, Status::Running);
    assert_ne!(ControlSignal::Start, ControlSignal::Notify);
}
