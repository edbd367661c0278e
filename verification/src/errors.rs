//! Error taxonomy of the automation engine.

use vstd::prelude::*;
use crate::status::PipelineStepStatus;

verus! {

/// What a `NotFound` error failed to find.
#[derive(Clone, Copy, Debug, PartialEq, Eq, Structural)]
pub enum NotFoundKind {
    Ticket,
    Pipeline,
    Step,
    Template,
    Run,
}

/// The source state an operation requires of a step.
#[derive(Clone, Copy, Debug, PartialEq, Eq, Structural)]
pub enum RequiredStatus {
    Queued,
    Running,
    AwaitingApproval,
    QueuedOrAwaitingApproval,
    FailedOrSkipped,
}

/// True when a step in status `s` satisfies the requirement `r`.
pub open spec fn required_matches(r: RequiredStatus, s: PipelineStepStatus) -> bool {
    match r {
        RequiredStatus::Queued => s is Queued,
        RequiredStatus::Running => s is Running,
        RequiredStatus::AwaitingApproval => s is AwaitingApproval,
        RequiredStatus::QueuedOrAwaitingApproval => s is Queued || s is AwaitingApproval,
        RequiredStatus::FailedOrSkipped => s is Failed || s is Skipped,
    }
}

/// Errors surfaced by the engine and the step operations.
///
/// `InvalidStateTransition` names the source state the rejected operation
/// required, beside the step's actual state.
#[derive(Clone, Copy, Debug, PartialEq, Eq, Structural)]
pub enum EngineError {
    NotFound { kind: NotFoundKind },
    InvalidStateTransition { required: RequiredStatus, actual: PipelineStepStatus },
    UnknownAgentType,
    MaxChainDepthExceeded,
    ExternalInvocationFailure,
    PersistenceError,
}

} // verus!
