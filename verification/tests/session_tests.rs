use atomic_update::session::{advance, UpdatePhase};

#[test]
fn a_fully_successful_session_is_promoted() {
    let mut phase = UpdatePhase::Allocating;
    for _ in 0..4 {
        phase = advance(phase, true);
    }
    assert_eq!(phase, UpdatePhase::Promoted);
    // Further events change nothing.
    assert_eq!(advance(phase, false), UpdatePhase::Promoted);
}

#[test]
fn a_failed_sandbox_command_prevents_promotion() {
    let mut phase = UpdatePhase::Allocating;
    phase = advance(phase, true);
    phase = advance(phase, true);
    assert_eq!(phase, UpdatePhase::RunningCommand);
    // The command inside the snapshot exits nonzero.
    phase = advance(phase, false);
    assert_eq!(phase, UpdatePhase::Failed);
    // Whatever happens later, the session never promotes.
    phase = advance(phase, true);
    assert_eq!(phase, UpdatePhase::Failed);
}

#[test]
fn each_step_is_gated_on_the_previous_one() {
    assert_eq!(advance(UpdatePhase::Allocating, true), UpdatePhase::CreatingSnapshot);
    assert_eq!(advance(UpdatePhase::CreatingSnapshot, true), UpdatePhase::RunningCommand);
    assert_eq!(advance(UpdatePhase::RunningCommand, true), UpdatePhase::Promoting);
    assert_eq!(advance(UpdatePhase::Promoting, true), UpdatePhase::Promoted);
    assert_eq!(advance(UpdatePhase::Allocating, false), UpdatePhase::Failed);
    assert_eq!(advance(UpdatePhase::CreatingSnapshot, false), UpdatePhase::Failed);
    assert_eq!(advance(UpdatePhase::Promoting, false), UpdatePhase::Failed);
}
