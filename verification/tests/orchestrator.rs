use iota_logic::orchestrator::{
    orchestrator_start, orchestrator_step, FinalityOutcome, OrchestratorAction, OrchestratorError,
    OrchestratorEvent, OrchestratorState,
};

fn run(wait: bool, events: &[OrchestratorEvent]) -> (OrchestratorState, Vec<OrchestratorAction>) {
    let mut s = orchestrator_start(wait);
    let mut actions = vec![];
    for ev in events {
        let (next, action) = orchestrator_step(s, *ev);
        s = next;
        actions.push(action);
    }
    (s, actions)
}

#[test]
fn invalid_signature_is_answered_before_submitting() {
    let (s, actions) = run(true, &[OrchestratorEvent::SignatureChecked { valid: false }]);
    assert_eq!(s, OrchestratorState::Finished);
    assert_eq!(
        actions,
        vec![OrchestratorAction::RespondError(OrchestratorError::InvalidUserSignature)]
    );
}

#[test]
fn failed_submission_is_an_internal_error() {
    let (s, actions) = run(
        false,
        &[
            OrchestratorEvent::SignatureChecked { valid: true },
            OrchestratorEvent::Submitted { accepted: false },
        ],
    );
    assert_eq!(s, OrchestratorState::Finished);
    assert_eq!(
        actions,
        vec![
            OrchestratorAction::SubmitTransaction,
            OrchestratorAction::RespondError(OrchestratorError::QuorumDriverInternalError),
        ]
    );
}

#[test]
fn timeout_before_finality() {
    let (_, actions) = run(
        true,
        &[
            OrchestratorEvent::SignatureChecked { valid: true },
            OrchestratorEvent::Submitted { accepted: true },
            OrchestratorEvent::Finality(FinalityOutcome::TimedOut),
        ],
    );
    assert_eq!(
        actions.last(),
        Some(&OrchestratorAction::RespondError(OrchestratorError::TimeoutBeforeFinality))
    );
}

#[test]
fn driver_errors_are_passed_on() {
    let (_, actions) = run(
        false,
        &[
            OrchestratorEvent::SignatureChecked { valid: true },
            OrchestratorEvent::Submitted { accepted: true },
            OrchestratorEvent::Finality(FinalityOutcome::DriverError),
        ],
    );
    assert_eq!(
        actions.last(),
        Some(&OrchestratorAction::RespondError(OrchestratorError::QuorumDriverError))
    );
    let (_, actions) = run(
        false,
        &[
            OrchestratorEvent::SignatureChecked { valid: true },
            OrchestratorEvent::Submitted { accepted: true },
            OrchestratorEvent::Finality(FinalityOutcome::InternalError),
        ],
    );
    assert_eq!(
        actions.last(),
        Some(&OrchestratorAction::RespondError(OrchestratorError::QuorumDriverInternalError))
    );
}

#[test]
fn effects_without_waiting_are_not_executed_locally() {
    let (s, actions) = run(
        false,
        &[
            OrchestratorEvent::SignatureChecked { valid: true },
            OrchestratorEvent::Submitted { accepted: true },
            OrchestratorEvent::Finality(FinalityOutcome::Finalized),
            OrchestratorEvent::LocallyExecuted { succeeded: true },
        ],
    );
    assert_eq!(s, OrchestratorState::Finished);
    assert_eq!(
        actions,
        vec![
            OrchestratorAction::SubmitTransaction,
            OrchestratorAction::AwaitFinality,
            OrchestratorAction::RespondEffects { executed_locally: false },
            OrchestratorAction::Ignore,
        ]
    );
}

#[test]
fn waiting_requests_report_whether_local_execution_succeeded() {
    let events = |ok| {
        vec![
            OrchestratorEvent::SignatureChecked { valid: true },
            OrchestratorEvent::Submitted { accepted: true },
            OrchestratorEvent::Finality(FinalityOutcome::Finalized),
            OrchestratorEvent::LocallyExecuted { succeeded: ok },
        ]
    };
    let (_, actions) = run(true, &events(true));
    assert_eq!(actions[2], OrchestratorAction::ExecuteLocally);
    assert_eq!(actions[3], OrchestratorAction::RespondEffects { executed_locally: true });
    let (_, actions) = run(true, &events(false));
    assert_eq!(actions[3], OrchestratorAction::RespondEffects { executed_locally: false });
}

#[test]
fn out_of_place_events_are_ignored() {
    let s = orchestrator_start(true);
    let (next, action) = orchestrator_step(s, OrchestratorEvent::Submitted { accepted: true });
    assert_eq!(next, s);
    assert_eq!(action, OrchestratorAction::Ignore);
}
