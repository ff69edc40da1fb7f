//! Decisions of the transaction orchestrator while it executes one
//! transaction block: which error is answered, whether the node waits for
//! local execution, and whether the answer says the transaction was executed
//! locally.
//!
//! The orchestrator alternates outside work (checking the signature,
//! submitting to the quorum driver, waiting for finality under a timeout,
//! executing locally) with decisions. The decisions are the step function
//! below; the driver performs each action and hands back what came of it.
use vstd::prelude::*;

verus! {

/// Where the execution of one request stands.
#[derive(Clone, Copy, Debug, PartialEq, Eq, Structural)]
pub enum OrchestratorState {
    /// The request arrived; its signature is being checked.
    Received { wait_for_local_execution: bool },
    /// The transaction was handed to the quorum driver.
    Submitted { wait_for_local_execution: bool },
    /// The driver accepted it; the orchestrator waits for finality.
    AwaitingFinality { wait_for_local_execution: bool },
    /// Finalized effects are being executed on this node.
    ExecutingLocally,
    /// An answer was given.
    Finished,
}

/// What came of the last outside work.
#[derive(Clone, Copy, Debug, PartialEq, Eq, Structural)]
pub enum OrchestratorEvent {
    /// The signature check of the transaction ended.
    SignatureChecked { valid: bool },
    /// Submitting to the quorum driver ended.
    Submitted { accepted: bool },
    /// The wait for finality ended.
    Finality(FinalityOutcome),
    /// Local execution of the finalized transaction ended.
    LocallyExecuted { succeeded: bool },
}

/// How the wait for finality ended.
#[derive(Clone, Copy, Debug, PartialEq, Eq, Structural)]
pub enum FinalityOutcome {
    /// The wait outlasted its timeout.
    TimedOut,
    /// The driver's channel failed.
    InternalError,
    /// The quorum driver answered with an error of its own.
    DriverError,
    /// The effects were certified.
    Finalized,
}

/// The error the orchestrator answers with.
#[derive(Clone, Copy, Debug, PartialEq, Eq, Structural)]
pub enum OrchestratorError {
    InvalidUserSignature,
    QuorumDriverInternalError,
    TimeoutBeforeFinality,
    /// The quorum driver's own error, passed on unchanged.
    QuorumDriverError,
}

/// What the driver does next.
#[derive(Clone, Copy, Debug, PartialEq, Eq, Structural)]
pub enum OrchestratorAction {
    SubmitTransaction,
    AwaitFinality,
    ExecuteLocally,
    /// Answer with the certified effects.
    RespondEffects { executed_locally: bool },
    RespondError(OrchestratorError),
    /// The event does not belong to this state: nothing happens.
    Ignore,
}

/// The state a request starts in.
pub open spec fn initial_state(wait_for_local_execution: bool) -> OrchestratorState {
    OrchestratorState::Received { wait_for_local_execution }
}

/// One decision of the orchestrator.
pub open spec fn spec_orchestrator_step(s: OrchestratorState, ev: OrchestratorEvent) -> (
    OrchestratorState,
    OrchestratorAction,
) {
    match (s, ev) {
        (
            OrchestratorState::Received { wait_for_local_execution: w },
            OrchestratorEvent::SignatureChecked { valid },
        ) => if valid {
            (
                OrchestratorState::Submitted { wait_for_local_execution: w },
                OrchestratorAction::SubmitTransaction,
            )
        } else {
            (
                OrchestratorState::Finished,
                OrchestratorAction::RespondError(OrchestratorError::InvalidUserSignature),
            )
        },
        (
            OrchestratorState::Submitted { wait_for_local_execution: w },
            OrchestratorEvent::Submitted { accepted },
        ) => if accepted {
            (
                OrchestratorState::AwaitingFinality { wait_for_local_execution: w },
                OrchestratorAction::AwaitFinality,
            )
        } else {
            (
                OrchestratorState::Finished,
                OrchestratorAction::RespondError(OrchestratorError::QuorumDriverInternalError),
            )
        },
        (
            OrchestratorState::AwaitingFinality { wait_for_local_execution: w },
            OrchestratorEvent::Finality(outcome),
        ) => match outcome {
            FinalityOutcome::TimedOut => (
                OrchestratorState::Finished,
                OrchestratorAction::RespondError(OrchestratorError::TimeoutBeforeFinality),
            ),
            FinalityOutcome::InternalError => (
                OrchestratorState::Finished,
                OrchestratorAction::RespondError(OrchestratorError::QuorumDriverInternalError),
            ),
            FinalityOutcome::DriverError => (
                OrchestratorState::Finished,
                OrchestratorAction::RespondError(OrchestratorError::QuorumDriverError),
            ),
            FinalityOutcome::Finalized => if w {
                (OrchestratorState::ExecutingLocally, OrchestratorAction::ExecuteLocally)
            } else {
                (
                    OrchestratorState::Finished,
                    OrchestratorAction::RespondEffects { executed_locally: false },
                )
            },
        },
        (OrchestratorState::ExecutingLocally, OrchestratorEvent::LocallyExecuted { succeeded }) => (
            OrchestratorState::Finished,
            OrchestratorAction::RespondEffects { executed_locally: succeeded },
        ),
        _ => (s, OrchestratorAction::Ignore),
    }
}

/// The state a request reaches after a run of events, and the actions taken.
pub open spec fn run_orchestrator(s: OrchestratorState, events: Seq<OrchestratorEvent>) -> (
    OrchestratorState,
    Seq<OrchestratorAction>,
)
    decreases events.len(),
{
    if events.len() == 0 {
        (s, Seq::empty())
    } else {
        let (next, action) = spec_orchestrator_step(s, events[0]);
        let (last, rest) = run_orchestrator(next, events.drop_first());
        (last, seq![action].add(rest))
    }
}

/// Whether a state still remembers that the caller wants local execution.
pub open spec fn waits_for_local(s: OrchestratorState) -> bool {
    match s {
        OrchestratorState::Received { wait_for_local_execution } => wait_for_local_execution,
        OrchestratorState::Submitted { wait_for_local_execution } => wait_for_local_execution,
        OrchestratorState::AwaitingFinality { wait_for_local_execution } => wait_for_local_execution,
        OrchestratorState::ExecutingLocally => true,
        OrchestratorState::Finished => false,
    }
}

/// The state of a request that has just arrived.
pub fn orchestrator_start(wait_for_local_execution: bool) -> (r: OrchestratorState)
    ensures
        r == initial_state(wait_for_local_execution),
{
    OrchestratorState::Received { wait_for_local_execution }
}

/// One decision: from the current state and what the last outside work gave,
/// the next state and the next action.
pub fn orchestrator_step(s: OrchestratorState, ev: OrchestratorEvent) -> (r: (
    OrchestratorState,
    OrchestratorAction,
))
    ensures
        r == spec_orchestrator_step(s, ev),
{
    match (s, ev) {
        (
            OrchestratorState::Received { wait_for_local_execution: w },
            OrchestratorEvent::SignatureChecked { valid },
        ) => if valid {
            (
                OrchestratorState::Submitted { wait_for_local_execution: w },
                OrchestratorAction::SubmitTransaction,
            )
        } else {
            (
                OrchestratorState::Finished,
                OrchestratorAction::RespondError(OrchestratorError::InvalidUserSignature),
            )
        },
        (
            OrchestratorState::Submitted { wait_for_local_execution: w },
            OrchestratorEvent::Submitted { accepted },
        ) => if accepted {
            (
                OrchestratorState::AwaitingFinality { wait_for_local_execution: w },
                OrchestratorAction::AwaitFinality,
            )
        } else {
            (
                OrchestratorState::Finished,
                OrchestratorAction::RespondError(OrchestratorError::QuorumDriverInternalError),
            )
        },
        (
            OrchestratorState::AwaitingFinality { wait_for_local_execution: w },
            OrchestratorEvent::Finality(outcome),
        ) => match outcome {
            FinalityOutcome::TimedOut => (
                OrchestratorState::Finished,
                OrchestratorAction::RespondError(OrchestratorError::TimeoutBeforeFinality),
            ),
            FinalityOutcome::InternalError => (
                OrchestratorState::Finished,
                OrchestratorAction::RespondError(OrchestratorError::QuorumDriverInternalError),
            ),
            FinalityOutcome::DriverError => (
                OrchestratorState::Finished,
                OrchestratorAction::RespondError(OrchestratorError::QuorumDriverError),
            ),
            FinalityOutcome::Finalized => if w {
                (OrchestratorState::ExecutingLocally, OrchestratorAction::ExecuteLocally)
            } else {
                (
                    OrchestratorState::Finished,
                    OrchestratorAction::RespondEffects { executed_locally: false },
                )
            },
        },
        (OrchestratorState::ExecutingLocally, OrchestratorEvent::LocallyExecuted { succeeded }) => (
            OrchestratorState::Finished,
            OrchestratorAction::RespondEffects { executed_locally: succeeded },
        ),
        _ => (s, OrchestratorAction::Ignore),
    }
}

/// A request that did not ask to wait for local execution is never answered
/// with effects that claim local execution, whatever events come.
pub proof fn no_local_execution_unless_requested(s: OrchestratorState, events: Seq<OrchestratorEvent>)
    requires
        !waits_for_local(s),
    ensures
        forall|i: int|
            0 <= i < run_orchestrator(s, events).1.len() ==> run_orchestrator(s, events).1[i]
                != (OrchestratorAction::RespondEffects { executed_locally: true }),
        forall|i: int|
            0 <= i < run_orchestrator(s, events).1.len() ==> run_orchestrator(s, events).1[i]
                != OrchestratorAction::ExecuteLocally,
    decreases events.len(),
{
    if events.len() > 0 {
        let (next, action) = spec_orchestrator_step(s, events[0]);
        no_local_execution_unless_requested(next, events.drop_first());
        let rest = run_orchestrator(next, events.drop_first()).1;
        assert(run_orchestrator(s, events).1 == seq![action].add(rest));
        assert forall|i: int| 0 <= i < run_orchestrator(s, events).1.len() implies run_orchestrator(
            s,
            events,
        ).1[i] != (OrchestratorAction::RespondEffects { executed_locally: true })
            && run_orchestrator(s, events).1[i] != OrchestratorAction::ExecuteLocally by {
            if i > 0 {
                assert(run_orchestrator(s, events).1[i] == rest[i - 1]);
            }
        }
    }
}

/// Once an answer is given nothing more happens: a finished request ignores
/// every event and stays finished.
pub proof fn finished_is_final(events: Seq<OrchestratorEvent>)
    ensures
        run_orchestrator(OrchestratorState::Finished, events).0 == OrchestratorState::Finished,
        forall|i: int|
            0 <= i < run_orchestrator(OrchestratorState::Finished, events).1.len()
                ==> run_orchestrator(OrchestratorState::Finished, events).1[i]
                == OrchestratorAction::Ignore,
        run_orchestrator(OrchestratorState::Finished, events).1.len() == events.len(),
    decreases events.len(),
{
    if events.len() > 0 {
        finished_is_final(events.drop_first());
        let rest = run_orchestrator(OrchestratorState::Finished, events.drop_first()).1;
        assert forall|i: int|
            0 <= i < run_orchestrator(OrchestratorState::Finished, events).1.len()
            implies run_orchestrator(OrchestratorState::Finished, events).1[i]
            == OrchestratorAction::Ignore by {
            if i > 0 {
                assert(run_orchestrator(OrchestratorState::Finished, events).1[i] == rest[i - 1]);
            }
        }
    }
}

/// An answer (effects or an error) is given exactly when the request
/// finishes: every step that answers moves to `Finished`, and every other
/// step leaves an unfinished request unfinished.
pub proof fn answers_exactly_when_finishing(s: OrchestratorState, ev: OrchestratorEvent)
    requires
        s != OrchestratorState::Finished,
    ensures
        (spec_orchestrator_step(s, ev).0 == OrchestratorState::Finished) <==> (
        spec_orchestrator_step(s, ev).1 is RespondEffects || spec_orchestrator_step(s, ev).1 is RespondError),
{
}

} // verus!
