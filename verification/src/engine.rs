//! The automation engine: decides what happens when a step is started,
//! finishes, or is approved, drives consecutive automatic steps with a
//! bounded chain, and reconciles the owning ticket's status when a pipeline
//! completes.
//!
//! Every function here is pure over the ticket value it is handed: callers
//! perform persistence and agent invocation around these decisions and hand
//! the outcomes back in as plain values.

use vstd::prelude::*;
use crate::MAX_AUTO_CHAIN_DEPTH;
use crate::agents::{parse_agent_type, spec_parse_agent_type, AgentRun};
use crate::runstore::{RunStore, run_matches};
use crate::errors::{EngineError, NotFoundKind, RequiredStatus};
use crate::models::Ticket;
use crate::pipeline::{
    PipelineStep, StepOutputs, StepError, transitions_allowed, seq_complete, seq_failed,
    completed_seq, failed_seq, awaiting_seq, started_seq_rel, retried_seq, clone_opt_outputs,
    clone_opt_error,
};
use crate::status::{PipelineStepStatus, ExecutionType};

verus! {

/// Result of advancing a pipeline after a step terminated.
#[derive(Clone, Debug, PartialEq)]
pub enum PipelineAdvanceResult {
    /// The pipeline is done: either it completed, or the step's failure
    /// halted it.
    PipelineDone { completed: bool },
    /// The next automatic step was started.
    NextAutoStepSpawned { step_id: String, session_id: String },
    /// The next step is manual and now awaits approval.
    NextStepAwaitingApproval { step_id: String },
    /// There is no next step to process.
    NoNextStep,
    /// The pipeline or the step was not found.
    NotFound { reason: String },
}

/// Result of processing pipeline progression.
#[derive(Clone, Debug, PartialEq)]
pub enum PipelineProgressResult {
    /// No next step to process.
    NoNextStep,
    /// The next step is manual and now awaits approval.
    AwaitingApproval { step_id: String },
    /// The next step is automatic and was started.
    AgentSpawned { step_id: String, session_id: String },
    /// Every step completed; the ticket was marked completed.
    PipelineCompleted,
    /// Some step failed; the pipeline halts until an explicit retry.
    PipelineFailed { reason: String },
    /// The chain-depth safety valve fired; the next step stays queued.
    MaxDepthReached,
}

/// Request to start a specific step, binding it to an agent run.
#[derive(Clone, Debug, PartialEq)]
pub struct StartStepRequest {
    pub agent_run_id: String,
}

/// Request to reject a step awaiting approval, with optional feedback.
#[derive(Clone, Debug, PartialEq)]
pub struct RejectStepRequest {
    pub feedback: Option<String>,
}

/// Response to a request to run a whole pipeline from its first step.
#[derive(Clone, Debug, PartialEq)]
pub struct RunPipelineResponse {
    pub started: bool,
    pub first_step_id: Option<String>,
    pub session_id: Option<String>,
    pub message: String,
}

/// The step outputs a finished run's summary becomes: a summary-bearing
/// envelope when the run produced output, and nothing when it produced
/// none.  This is the one mapping between a run record and the outputs its
/// completed step carries.
pub fn outputs_from_summary(output_summary: &Option<String>) -> (r: Option<StepOutputs>)
    ensures
        match *output_summary {
            Some(s) => r matches Some(o) && (o.summary matches Some(x) && x == s) && o.payload
                is None,
            None => r is None,
        },
{
    match output_summary {
        Some(s) => Some(StepOutputs { summary: Some(s.clone()), payload: None }),
        None => None,
    }
}

/// The two tickets agree on every field except the pipeline and the ticket
/// status.
pub open spec fn same_ticket_core(pre: Ticket, post: Ticket) -> bool {
    &&& post.ticket_id == pre.ticket_id
    &&& post.epic_id == pre.epic_id
    &&& post.slice_id == pre.slice_id
    &&& post.organization == pre.organization
    &&& post.title == pre.title
    &&& post.intent == pre.intent
    &&& post.description == pre.description
    &&& post.ticket_type == pre.ticket_type
    &&& post.priority == pre.priority
    &&& post.assignee == pre.assignee
    &&& post.notes == pre.notes
    &&& post.blocks_tickets == pre.blocks_tickets
    &&& post.blocked_by_tickets == pre.blocked_by_tickets
    &&& post.caused_by_tickets == pre.caused_by_tickets
    &&& post.created_at == pre.created_at
    &&& post.updated_at == pre.updated_at
    &&& post.created_at_iso == pre.created_at_iso
    &&& post.updated_at_iso == pre.updated_at_iso
}

/// Every status change between the two tickets' pipelines is an allowed
/// edge.
pub open spec fn ticket_transitions_allowed(pre: Ticket, post: Ticket) -> bool {
    pre.pipeline matches Some(p) ==> (post.pipeline matches Some(q) && transitions_allowed(p, q))
}

/// Starts one specific step, used both for a pipeline's first step and for
/// steps nudged by hand.  The step must be queued.  An automatic step is
/// bound to the fresh agent run session named by the caller, who then
/// executes the run; a manual step is put to awaiting approval instead, and
/// the invocation service is not contacted.
pub fn start_step_execution(ticket: &mut Ticket, step_id: &str, session_id: &str) -> (r: Result<
    PipelineProgressResult,
    EngineError,
>)
    requires
        old(ticket).wf(),
    ensures
        final(ticket).wf(),
        same_ticket_core(*old(ticket), *final(ticket)),
        final(ticket).status == old(ticket).status,
        ticket_transitions_allowed(*old(ticket), *final(ticket)),
        match r {
            Ok(res) => old(ticket).pipeline matches Some(p) && (match res {
                PipelineProgressResult::AgentSpawned { step_id: sid, session_id: ss } => ({
                    let i = p.index_of(step_id@);
                    &&& sid@ == step_id@
                    &&& ss@ == session_id@
                    &&& p.has_step(step_id@)
                    &&& p.status_of(step_id@) is Queued
                    &&& p.steps@[i].execution_type is Auto
                    &&& spec_parse_agent_type(p.steps@[i].agent_type@) is Some
                    &&& (final(ticket).pipeline matches Some(q) && started_seq_rel(
                        p.steps@,
                        q.steps@,
                        i,
                        session_id@,
                    ))
                }),
                PipelineProgressResult::AwaitingApproval { step_id: sid } => ({
                    let i = p.index_of(step_id@);
                    &&& sid@ == step_id@
                    &&& p.has_step(step_id@)
                    &&& p.status_of(step_id@) is Queued
                    &&& p.steps@[i].execution_type is Manual
                    &&& (final(ticket).pipeline matches Some(q) && q.steps@ == awaiting_seq(
                        p.steps@,
                        i,
                    ))
                }),
                _ => false,
            }),
            Err(e) => *final(ticket) == *old(ticket) && (match e {
                EngineError::NotFound { kind } => {
                    ||| (kind is Pipeline && old(ticket).pipeline is None)
                    ||| (kind is Step && (old(ticket).pipeline matches Some(p) && !p.has_step(
                        step_id@,
                    )))
                },
                EngineError::InvalidStateTransition { required, actual } => {
                    &&& required is Queued
                    &&& old(ticket).pipeline matches Some(p)
                    &&& p.has_step(step_id@)
                    &&& actual == p.status_of(step_id@)
                    &&& !(actual is Queued)
                },
                EngineError::UnknownAgentType => {
                    &&& old(ticket).pipeline matches Some(p)
                    &&& p.has_step(step_id@)
                    &&& p.status_of(step_id@) is Queued
                    &&& p.steps@[p.index_of(step_id@)].execution_type is Auto
                    &&& spec_parse_agent_type(p.steps@[p.index_of(step_id@)].agent_type@)
                        is None
                },
                _ => false,
            }),
        },
{
    match &mut ticket.pipeline {
        None => Err(EngineError::NotFound { kind: NotFoundKind::Pipeline }),
        Some(p) => {
            let i = match p.find_step(step_id) {
                Some(i) => i,
                None => {
                    return Err(EngineError::NotFound { kind: NotFoundKind::Step });
                },
            };
            proof {
                p.lemma_index_of_unique(step_id@, i as int);
            }
            let st = p.steps[i].status;
            if !(st == PipelineStepStatus::Queued) {
                return Err(
                    EngineError::InvalidStateTransition { required: RequiredStatus::Queued, actual: st },
                );
            }
            match p.steps[i].execution_type {
                ExecutionType::Auto => {
                    if parse_agent_type(p.steps[i].agent_type.as_str()).is_none() {
                        return Err(EngineError::UnknownAgentType);
                    }
                    match p.start_step(step_id, session_id) {
                        Ok(_) => Ok(
                            PipelineProgressResult::AgentSpawned {
                                step_id: step_id.to_owned(),
                                session_id: session_id.to_owned(),
                            },
                        ),
                        Err(_) => {
                            proof {
                                assert(false);
                            }
                            Err(EngineError::PersistenceError)
                        },
                    }
                },
                ExecutionType::Manual => {
                    match p.await_approval(step_id) {
                        Ok(_) => Ok(
                            PipelineProgressResult::AwaitingApproval { step_id: step_id.to_owned() },
                        ),
                        Err(_) => {
                            proof {
                                assert(false);
                            }
                            Err(EngineError::PersistenceError)
                        },
                    }
                },
            }
        },
    }
}

/// The single reconciliation point called after any step terminates,
/// whether it ran under live streaming or as a background chain.  On
/// failure the step is marked failed and automation halts: failure never
/// advances a pipeline.  On success the step is marked completed with its
/// outputs; if the pipeline is then complete the owning ticket is marked
/// completed, and otherwise the immediately following step is started (if
/// automatic, under the fresh session the caller names) or put to awaiting
/// approval (if manual).
pub fn advance_pipeline_after_step(
    ticket: &mut Ticket,
    step_id: &str,
    success: bool,
    outputs: Option<StepOutputs>,
    error: Option<StepError>,
    next_session_id: &str,
) -> (r: Result<PipelineAdvanceResult, EngineError>)
    requires
        old(ticket).wf(),
    ensures
        final(ticket).wf(),
        same_ticket_core(*old(ticket), *final(ticket)),
        ticket_transitions_allowed(*old(ticket), *final(ticket)),
        match r {
            Ok(res) => match res {
                PipelineAdvanceResult::NotFound { .. } => *final(ticket) == *old(ticket) && (old(
                    ticket,
                ).pipeline is None || (old(ticket).pipeline matches Some(p) && !p.has_step(
                    step_id@,
                ))),
                PipelineAdvanceResult::PipelineDone { completed } => (old(
                    ticket,
                ).pipeline matches Some(p) && {
                    let i = p.index_of(step_id@);
                    &&& p.has_step(step_id@)
                    &&& p.status_of(step_id@) is Running
                    &&& completed == success
                    &&& (final(ticket).pipeline matches Some(q) && (if success {
                        &&& q.steps@ == completed_seq(p.steps@, i, outputs)
                        &&& seq_complete(q.steps@)
                        &&& final(ticket).status@ == "completed"@
                    } else {
                        &&& q.steps@ == failed_seq(p.steps@, i, error)
                        &&& final(ticket).status == old(ticket).status
                    }))
                }),
                PipelineAdvanceResult::NoNextStep => success && (old(
                    ticket,
                ).pipeline matches Some(p) && {
                    let i = p.index_of(step_id@);
                    let mid = completed_seq(p.steps@, i, outputs);
                    &&& p.has_step(step_id@)
                    &&& p.status_of(step_id@) is Running
                    &&& (final(ticket).pipeline matches Some(q) && q.steps@ == mid)
                    &&& !seq_complete(mid)
                    &&& (i + 1 >= mid.len() || !(mid[i + 1].status is Queued))
                    &&& final(ticket).status == old(ticket).status
                }),
                PipelineAdvanceResult::NextAutoStepSpawned { step_id: sid, session_id: ss } => success
                    && (old(ticket).pipeline matches Some(p) && {
                    let i = p.index_of(step_id@);
                    let mid = completed_seq(p.steps@, i, outputs);
                    let n = i + 1;
                    &&& p.has_step(step_id@)
                    &&& p.status_of(step_id@) is Running
                    &&& !seq_complete(mid)
                    &&& n < mid.len()
                    &&& mid[n].status is Queued
                    &&& mid[n].execution_type is Auto
                    &&& spec_parse_agent_type(mid[n].agent_type@) is Some
                    &&& sid@ == mid[n].step_id@
                    &&& ss@ == next_session_id@
                    &&& (final(ticket).pipeline matches Some(q) && started_seq_rel(
                        mid,
                        q.steps@,
                        n,
                        next_session_id@,
                    ))
                    &&& final(ticket).status == old(ticket).status
                }),
                PipelineAdvanceResult::NextStepAwaitingApproval { step_id: sid } => success && (old(
                    ticket,
                ).pipeline matches Some(p) && {
                    let i = p.index_of(step_id@);
                    let mid = completed_seq(p.steps@, i, outputs);
                    let n = i + 1;
                    &&& p.has_step(step_id@)
                    &&& p.status_of(step_id@) is Running
                    &&& !seq_complete(mid)
                    &&& n < mid.len()
                    &&& mid[n].status is Queued
                    &&& mid[n].execution_type is Manual
                    &&& sid@ == mid[n].step_id@
                    &&& (final(ticket).pipeline matches Some(q) && q.steps@ == awaiting_seq(
                        mid,
                        n,
                    ))
                    &&& final(ticket).status == old(ticket).status
                }),
            },
            Err(e) => match e {
                EngineError::InvalidStateTransition { required, actual } => *final(ticket) == *old(
                    ticket,
                ) && (old(ticket).pipeline matches Some(p) && {
                    &&& required is Running
                    &&& p.has_step(step_id@)
                    &&& actual == p.status_of(step_id@)
                    &&& !(actual is Running)
                }),
                EngineError::UnknownAgentType => success && (old(
                    ticket,
                ).pipeline matches Some(p) && {
                    let i = p.index_of(step_id@);
                    let mid = completed_seq(p.steps@, i, outputs);
                    let n = i + 1;
                    &&& p.has_step(step_id@)
                    &&& p.status_of(step_id@) is Running
                    &&& !seq_complete(mid)
                    &&& n < mid.len()
                    &&& mid[n].status is Queued
                    &&& mid[n].execution_type is Auto
                    &&& spec_parse_agent_type(mid[n].agent_type@) is None
                    &&& (final(ticket).pipeline matches Some(q) && q.steps@ == mid)
                    &&& final(ticket).status == old(ticket).status
                }),
                _ => false,
            },
        },
{
    if ticket.pipeline.is_none() {
        return Ok(
            PipelineAdvanceResult::NotFound { reason: "Pipeline not found on ticket".to_owned() },
        );
    }
    // Apply the step's outcome.
    let step_i: usize = match &mut ticket.pipeline {
        Some(p) => {
            let i = match p.find_step(step_id) {
                Some(i) => i,
                None => {
                    return Ok(PipelineAdvanceResult::NotFound { reason: "Step not found".to_owned() });
                },
            };
            proof {
                p.lemma_index_of_unique(step_id@, i as int);
            }
            let st = p.steps[i].status;
            if !(st == PipelineStepStatus::Running) {
                return Err(
                    EngineError::InvalidStateTransition { required: RequiredStatus::Running, actual: st },
                );
            }
            if !success {
                match p.fail_step(step_id, error) {
                    Ok(_) => {
                        return Ok(PipelineAdvanceResult::PipelineDone { completed: false });
                    },
                    Err(_) => {
                        proof {
                            assert(false);
                        }
                        return Err(EngineError::PersistenceError);
                    },
                }
            }
            match p.complete_step(step_id, outputs) {
                Ok(_) => i,
                Err(_) => {
                    proof {
                        assert(false);
                    }
                    return Err(EngineError::PersistenceError);
                },
            }
        },
        None => {
            proof {
                assert(false);
            }
            return Err(EngineError::PersistenceError);
        },
    };
    // Reconcile completion on the updated pipeline.
    let complete = match &ticket.pipeline {
        Some(p) => p.is_complete(),
        None => {
            proof {
                assert(false);
            }
            false
        },
    };
    if complete {
        ticket.status = "completed".to_owned();
        return Ok(PipelineAdvanceResult::PipelineDone { completed: true });
    }
    // Examine the immediately following step.
    let (is_auto, next_id): (bool, String) = match &ticket.pipeline {
        Some(p) => {
            let plen = p.steps.len();
            if step_i + 1 >= plen {
                return Ok(PipelineAdvanceResult::NoNextStep);
            }
            let next = &p.steps[step_i + 1];
            if !(next.status == PipelineStepStatus::Queued) {
                return Ok(PipelineAdvanceResult::NoNextStep);
            }
            match next.execution_type {
                ExecutionType::Auto => {
                    if parse_agent_type(next.agent_type.as_str()).is_none() {
                        return Err(EngineError::UnknownAgentType);
                    }
                    (true, next.step_id.clone())
                },
                ExecutionType::Manual => (false, next.step_id.clone()),
            }
        },
        None => {
            proof {
                assert(false);
            }
            return Err(EngineError::PersistenceError);
        },
    };
    // Start the next automatic step, or gate the manual one.
    match &mut ticket.pipeline {
        Some(p) => {
            if is_auto {
                match p.start_step(next_id.as_str(), next_session_id) {
                    Ok(_) => Ok(
                        PipelineAdvanceResult::NextAutoStepSpawned {
                            step_id: next_id,
                            session_id: next_session_id.to_owned(),
                        },
                    ),
                    Err(_) => {
                        proof {
                            assert(false);
                        }
                        Err(EngineError::PersistenceError)
                    },
                }
            } else {
                match p.await_approval(next_id.as_str()) {
                    Ok(_) => Ok(PipelineAdvanceResult::NextStepAwaitingApproval { step_id: next_id }),
                    Err(_) => {
                        proof {
                            assert(false);
                        }
                        Err(EngineError::PersistenceError)
                    },
                }
            }
        },
        None => {
            proof {
                assert(false);
            }
            Err(EngineError::PersistenceError)
        },
    }
}

/// Result of recording a terminated step's outcome, before any next-step
/// decision.
#[derive(Clone, Debug, PartialEq)]
pub enum StepOutcomeResult {
    /// The success was recorded; the pipeline still has work left.
    Recorded,
    /// The success was recorded and completed the pipeline; the ticket was
    /// marked completed.
    PipelineCompleted,
    /// The failure was recorded; automation halts until an explicit retry.
    FailureRecorded,
    /// The pipeline or the step was not found.
    NotFound { reason: String },
}

/// Records a terminated step's outcome on the pipeline and reconciles the
/// ticket's status, without touching any following step.  The chain driver
/// pairs this with [`process_next_step`]; live streaming callers use
/// [`advance_pipeline_after_step`], which folds both into one call.
pub fn record_step_outcome(
    ticket: &mut Ticket,
    step_id: &str,
    success: bool,
    outputs: Option<StepOutputs>,
    error: Option<StepError>,
) -> (r: Result<StepOutcomeResult, EngineError>)
    requires
        old(ticket).wf(),
    ensures
        final(ticket).wf(),
        same_ticket_core(*old(ticket), *final(ticket)),
        ticket_transitions_allowed(*old(ticket), *final(ticket)),
        match r {
            Ok(res) => match res {
                StepOutcomeResult::NotFound { .. } => *final(ticket) == *old(ticket) && (old(
                    ticket,
                ).pipeline is None || (old(ticket).pipeline matches Some(p) && !p.has_step(
                    step_id@,
                ))),
                StepOutcomeResult::FailureRecorded => !success && (old(
                    ticket,
                ).pipeline matches Some(p) && {
                    let i = p.index_of(step_id@);
                    &&& p.has_step(step_id@)
                    &&& p.status_of(step_id@) is Running
                    &&& (final(ticket).pipeline matches Some(q) && q.steps@ == failed_seq(
                        p.steps@,
                        i,
                        error,
                    ))
                    &&& final(ticket).status == old(ticket).status
                }),
                StepOutcomeResult::PipelineCompleted => success && (old(
                    ticket,
                ).pipeline matches Some(p) && {
                    let i = p.index_of(step_id@);
                    &&& p.has_step(step_id@)
                    &&& p.status_of(step_id@) is Running
                    &&& (final(ticket).pipeline matches Some(q) && q.steps@ == completed_seq(
                        p.steps@,
                        i,
                        outputs,
                    ) && seq_complete(q.steps@))
                    &&& final(ticket).status@ == "completed"@
                }),
                StepOutcomeResult::Recorded => success && (old(ticket).pipeline matches Some(p)
                    && {
                    let i = p.index_of(step_id@);
                    &&& p.has_step(step_id@)
                    &&& p.status_of(step_id@) is Running
                    &&& (final(ticket).pipeline matches Some(q) && q.steps@ == completed_seq(
                        p.steps@,
                        i,
                        outputs,
                    ) && !seq_complete(q.steps@))
                    &&& final(ticket).status == old(ticket).status
                }),
            },
            Err(e) => *final(ticket) == *old(ticket) && (match e {
                EngineError::InvalidStateTransition { required, actual } => (old(
                    ticket,
                ).pipeline matches Some(p) && {
                    &&& required is Running
                    &&& p.has_step(step_id@)
                    &&& actual == p.status_of(step_id@)
                    &&& !(actual is Running)
                }),
                _ => false,
            }),
        },
{
    if ticket.pipeline.is_none() {
        return Ok(
            StepOutcomeResult::NotFound { reason: "Pipeline not found on ticket".to_owned() },
        );
    }
    match &mut ticket.pipeline {
        Some(p) => {
            let i = match p.find_step(step_id) {
                Some(i) => i,
                None => {
                    return Ok(StepOutcomeResult::NotFound { reason: "Step not found".to_owned() });
                },
            };
            proof {
                p.lemma_index_of_unique(step_id@, i as int);
            }
            let st = p.steps[i].status;
            if !(st == PipelineStepStatus::Running) {
                return Err(
                    EngineError::InvalidStateTransition { required: RequiredStatus::Running, actual: st },
                );
            }
            if !success {
                match p.fail_step(step_id, error) {
                    Ok(_) => {
                        return Ok(StepOutcomeResult::FailureRecorded);
                    },
                    Err(_) => {
                        proof {
                            assert(false);
                        }
                        return Err(EngineError::PersistenceError);
                    },
                }
            }
            match p.complete_step(step_id, outputs) {
                Ok(_) => (),
                Err(_) => {
                    proof {
                        assert(false);
                    }
                    return Err(EngineError::PersistenceError);
                },
            }
        },
        None => {
            proof {
                assert(false);
            }
            return Err(EngineError::PersistenceError);
        },
    }
    let complete = match &ticket.pipeline {
        Some(p) => p.is_complete(),
        None => {
            proof {
                assert(false);
            }
            false
        },
    };
    if complete {
        ticket.status = "completed".to_owned();
        Ok(StepOutcomeResult::PipelineCompleted)
    } else {
        Ok(StepOutcomeResult::Recorded)
    }
}

/// One iteration's input to the auto-chain driver: the outcome the agent
/// run produced for the step the chain is currently on, and the fresh
/// session identifier to bind to the following step if the chain continues.
#[derive(Clone, Debug, PartialEq)]
pub struct ChainStep {
    pub success: bool,
    pub outputs: Option<StepOutputs>,
    pub error: Option<StepError>,
    pub next_session_id: String,
}

/// The step at index `i` carries the recorded outcome `o`: completed with
/// the outcome's outputs on success, failed with the outcome's error
/// otherwise.
pub open spec fn outcome_applied(s: Seq<PipelineStep>, i: int, o: ChainStep) -> bool {
    &&& 0 <= i < s.len()
    &&& (o.success ==> s[i].status is Completed && s[i].outputs == o.outputs)
    &&& (!o.success ==> s[i].status is Failed && s[i].error == o.error)
}

/// A chain stop that recorded nothing of its last consumed outcome: a halt
/// on a state mismatch, as opposed to the unknown-agent halt, which comes
/// only after the outcome was recorded.
pub open spec fn chain_halted_hard(s: ChainStop) -> bool {
    match s {
        ChainStop::Halted { error: e } => !(e is UnknownAgentType),
        _ => false,
    }
}

/// Why the auto-chain driver stopped.
#[derive(Clone, Debug, PartialEq)]
pub enum ChainStop {
    /// Every provided outcome was consumed and the chain could continue.
    OutcomesExhausted,
    /// A step failed; automation halts until an explicit retry.
    Failed,
    /// The pipeline completed and the ticket was marked completed.
    Completed,
    /// The next step is manual and now awaits approval.
    ManualGate { step_id: String },
    /// There is no further step to run.
    NoNext,
    /// The chain-depth safety valve fired; the next step stays queued.
    DepthLimit,
    /// The pipeline state did not match the chain's expectation.
    Halted { error: EngineError },
}

/// Report of one auto-chain run.
#[derive(Clone, Debug, PartialEq)]
pub struct ChainReport {
    /// How many step outcomes were consumed, each one agent execution.
    pub steps_advanced: usize,
    pub stopped: ChainStop,
}

/// Drives a chain of consecutive automatic steps iteratively, never by
/// recursion.  The chain starts on the running step named `first_step_id`
/// and consumes one provided outcome per step: it records the outcome, then
/// either continues into the next automatic step, halts at a manual gate,
/// terminates the pipeline, or stops at the chain-depth bound, leaving the
/// next step queued for a manual nudge.  The number of steps advanced by one
/// call never exceeds `MAX_AUTO_CHAIN_DEPTH` less the starting depth, and
/// each consumed outcome lands on its consecutive step: completed with its
/// outputs on success, failed with its error otherwise, with every step
/// outside the walked range untouched.
pub fn run_auto_chain(
    ticket: Ticket,
    first_step_id: &str,
    initial_depth: u32,
    outcomes: &Vec<ChainStep>,
) -> (r: (Ticket, ChainReport))
    requires
        ticket.wf(),
    ensures
        r.0.wf(),
        same_ticket_core(ticket, r.0),
        r.1.steps_advanced <= outcomes@.len(),
        initial_depth as int + r.1.steps_advanced as int <= MAX_AUTO_CHAIN_DEPTH as int
            || r.1.steps_advanced == 0,
        initial_depth >= MAX_AUTO_CHAIN_DEPTH ==> r.1.steps_advanced == 0,
        r.1.stopped is OutcomesExhausted ==> r.1.steps_advanced == outcomes@.len(),
        r.1.stopped is DepthLimit ==> initial_depth as int + r.1.steps_advanced as int
            >= MAX_AUTO_CHAIN_DEPTH as int,
        r.1.stopped is NoNext ==> r.1.steps_advanced >= 1,
        r.1.steps_advanced == 0 && !(r.1.stopped matches ChainStop::Halted { .. }) ==> r.0
            == ticket,
        r.1.stopped is Completed ==> (r.0.pipeline matches Some(qc) && seq_complete(qc.steps@)
            && !seq_failed(qc.steps@)) && r.0.status@ == "completed"@,
        r.1.stopped is Failed ==> (r.0.pipeline matches Some(qf) && seq_failed(qf.steps@)),
        match r.1.stopped {
            ChainStop::ManualGate { step_id: sid } => r.0.pipeline matches Some(qm)
                && qm.has_step(sid@) && qm.status_of(sid@) is AwaitingApproval,
            _ => true,
        },
        match r.1.stopped {
            ChainStop::Halted { error: e } => r.1.steps_advanced >= 1 && (match e {
                EngineError::NotFound { .. } => r.1.steps_advanced == 1 && r.0 == ticket && (
                ticket.pipeline is None || (ticket.pipeline matches Some(p) && !p.has_step(
                    first_step_id@,
                ))),
                EngineError::InvalidStateTransition { required, actual } => r.1.steps_advanced == 1
                    && r.0 == ticket && (ticket.pipeline matches Some(p) && p.has_step(
                    first_step_id@,
                ) && {
                    &&& required is Running
                    &&& actual == p.status_of(first_step_id@)
                    &&& !(actual is Running)
                }),
                EngineError::UnknownAgentType => (ticket.pipeline matches Some(p) && p.has_step(
                    first_step_id@,
                ) && (r.0.pipeline matches Some(qu) && ({
                    let nu = p.index_of(first_step_id@) + r.1.steps_advanced as int;
                    &&& 0 <= nu < qu.steps@.len()
                    &&& qu.steps@[nu].status is Queued
                    &&& qu.steps@[nu].execution_type is Auto
                    &&& spec_parse_agent_type(qu.steps@[nu].agent_type@) is None
                }))),
                _ => false,
            }),
            _ => true,
        },
        match ticket.pipeline {
            Some(p0) => (p0.has_step(first_step_id@) && !chain_halted_hard(r.1.stopped)) ==> ({
                let i0 = p0.index_of(first_step_id@);
                let nn = r.1.steps_advanced as int;
                r.0.pipeline matches Some(q) && {
                    &&& q.steps@.len() == p0.steps@.len()
                    &&& forall|k: int|
                        0 <= k < nn ==> outcome_applied(q.steps@, i0 + k, #[trigger] outcomes@[k])
                    &&& forall|j: int|
                        0 <= j < p0.steps@.len() && (j < i0 || j > i0 + nn)
                            ==> #[trigger] q.steps@[j] == p0.steps@[j]
                    &&& (!(r.1.stopped is Failed) ==> forall|k: int|
                        0 <= k < nn ==> (#[trigger] outcomes@[k]).success)
                    &&& (r.1.stopped is Failed ==> forall|k: int|
                        0 <= k < nn - 1 ==> (#[trigger] outcomes@[k]).success)
                    &&& (r.1.stopped is DepthLimit && nn > 0 && i0 + nn < p0.steps@.len()
                        ==> q.steps@[i0 + nn] == p0.steps@[i0 + nn])
                }
            }),
            None => true,
        },
{
    let ghost valid0 = ticket.pipeline is Some && ticket.pipeline.unwrap().has_step(
        first_step_id@,
    );
    let ghost p0 = ticket.pipeline.unwrap();
    let ghost i0 = p0.index_of(first_step_id@);
    let mut t = ticket;
    let mut current: String = first_step_id.to_owned();
    let mut depth: u32 = initial_depth;
    let mut advanced: usize = 0;
    let mut idx: usize = 0;
    let n: usize = outcomes.len();
    let mut stopped: ChainStop = ChainStop::OutcomesExhausted;
    let mut done: bool = false;
    #[verifier::loop_isolation(false)]
    while idx < n && !done
        invariant
            t.wf(),
            same_ticket_core(ticket, t),
            0 <= idx <= n,
            n == outcomes@.len(),
            !done ==> advanced == idx,
            advanced <= idx,
            initial_depth < MAX_AUTO_CHAIN_DEPTH ==> depth == initial_depth + advanced && depth
                <= MAX_AUTO_CHAIN_DEPTH,
            initial_depth >= MAX_AUTO_CHAIN_DEPTH ==> advanced == 0 && depth == initial_depth,
            !done && advanced > 0 ==> depth < MAX_AUTO_CHAIN_DEPTH,
            !done ==> stopped is OutcomesExhausted,
            done ==> !(stopped is OutcomesExhausted),
            stopped is DepthLimit ==> initial_depth as int + advanced as int
                >= MAX_AUTO_CHAIN_DEPTH as int,
            stopped is NoNext ==> advanced >= 1,
            !done && advanced == 0 ==> current@ == first_step_id@,
            !done && !valid0 ==> advanced == 0,
            valid0 && !done && advanced > 0 ==> (t.pipeline matches Some(qr) && qr.status_of(
                current@,
            ) is Running),
            advanced == 0 && !(stopped matches ChainStop::Halted { .. }) ==> t == ticket,
            match stopped {
                ChainStop::Halted { error: e } => advanced >= 1 && (match e {
                    EngineError::NotFound { .. } => advanced == 1 && t == ticket && !valid0,
                    EngineError::InvalidStateTransition { required, actual } => advanced == 1 && t
                        == ticket && valid0 && {
                        &&& required is Running
                        &&& actual == p0.status_of(first_step_id@)
                        &&& !(actual is Running)
                    },
                    EngineError::UnknownAgentType => valid0 && (t.pipeline matches Some(qu) && ({
                        let nu = i0 + advanced as int;
                        &&& 0 <= nu < qu.steps@.len()
                        &&& qu.steps@[nu].status is Queued
                        &&& qu.steps@[nu].execution_type is Auto
                        &&& spec_parse_agent_type(qu.steps@[nu].agent_type@) is None
                    })),
                    _ => false,
                }),
                _ => true,
            },
            stopped is Completed ==> (t.pipeline matches Some(qc) && seq_complete(qc.steps@)
                && !seq_failed(qc.steps@)) && t.status@ == "completed"@,
            stopped is Failed ==> (t.pipeline matches Some(qf) && seq_failed(qf.steps@)),
            match stopped {
                ChainStop::ManualGate { step_id: sid } => t.pipeline matches Some(qm)
                    && qm.has_step(sid@) && qm.status_of(sid@) is AwaitingApproval,
                _ => true,
            },
            (valid0 && !chain_halted_hard(stopped)) ==> (t.pipeline matches Some(
                q,
            ) && {
                &&& q.steps@.len() == p0.steps@.len()
                &&& (!done ==> q.has_step(current@) && q.index_of(current@) == i0 + advanced)
                &&& forall|k: int|
                    0 <= k < advanced ==> outcome_applied(q.steps@, i0 + k, #[trigger] outcomes@[k])
                &&& forall|j: int|
                    0 <= j < p0.steps@.len() && (j < i0 || j > i0 + advanced)
                        ==> #[trigger] q.steps@[j] == p0.steps@[j]
                &&& (!(stopped is Failed) ==> forall|k: int|
                    0 <= k < advanced ==> (#[trigger] outcomes@[k]).success)
                &&& (stopped is Failed ==> forall|k: int|
                    0 <= k < advanced - 1 ==> (#[trigger] outcomes@[k]).success)
                &&& (stopped is DepthLimit && advanced > 0 && i0 + advanced < p0.steps@.len()
                    ==> q.steps@[i0 + advanced] == p0.steps@[i0 + advanced])
            }),
        decreases n - idx + (if done { 0int } else { 1int }),
    {
        if depth >= MAX_AUTO_CHAIN_DEPTH {
            stopped = ChainStop::DepthLimit;
            done = true;
        } else {
            let o = &outcomes[idx];
            let ghost t0 = t;
            let ghost adv0 = advanced as int;
            let ghost k0 = idx as int;
            let outs = clone_opt_outputs(&o.outputs);
            let err = clone_opt_error(&o.error);
            let rec = record_step_outcome(&mut t, current.as_str(), o.success, outs, err);
            advanced = advanced + 1;
            depth = depth + 1;
            idx = idx + 1;
            match rec {
                Err(e) => {
                    proof {
                        // A wrong-status halt can only strike the first step: a
                        // chained step was just started and is running.
                        if !valid0 {
                            assert(adv0 == 0);
                            assert(t0 == ticket);
                            assert(current@ == first_step_id@);
                            assert(ticket.pipeline is Some);
                            assert(ticket.pipeline.unwrap().has_step(first_step_id@));
                            assert(false);
                        }
                        if adv0 > 0 {
                            assert(false);
                        }
                        assert(current@ == first_step_id@);
                    }
                    stopped = ChainStop::Halted { error: e };
                    done = true;
                },
                Ok(StepOutcomeResult::NotFound { .. }) => {
                    proof {
                        // A failed lookup can only strike the first step: a
                        // chained step's identifier came from the pipeline.
                        if valid0 {
                            if adv0 == 0 {
                                assert(t0 == ticket);
                            }
                            assert(false);
                        }
                        assert(adv0 == 0);
                    }
                    stopped = ChainStop::Halted {
                        error: EngineError::NotFound { kind: NotFoundKind::Step },
                    };
                    done = true;
                },
                Ok(StepOutcomeResult::FailureRecorded) => {
                    proof {
                        let p1 = t0.pipeline.unwrap();
                        let ii = p1.index_of(current@);
                        let q1 = t.pipeline.unwrap();
                        assert(q1.steps@[ii].status is Failed);
                        assert(seq_failed(q1.steps@));
                        if valid0 {
                            assert(ii == i0 + adv0);
                            assert(outcome_applied(q1.steps@, i0 + adv0, outcomes@[k0]));
                        }
                    }
                    stopped = ChainStop::Failed;
                    done = true;
                },
                Ok(StepOutcomeResult::PipelineCompleted) => {
                    proof {
                        let p1 = t0.pipeline.unwrap();
                        let ii = p1.index_of(current@);
                        let q1 = t.pipeline.unwrap();
                        q1.lemma_complete_excludes_failed();
                        if valid0 {
                            assert(ii == i0 + adv0);
                            assert(outcome_applied(q1.steps@, i0 + adv0, outcomes@[k0]));
                        }
                    }
                    stopped = ChainStop::Completed;
                    done = true;
                },
                Ok(StepOutcomeResult::Recorded) => {
                    proof {
                        // The recorded step was found, so the chain's entry
                        // state was sound.
                        if !valid0 {
                            assert(adv0 == 0);
                            assert(t0 == ticket);
                            assert(false);
                        }
                        let p1 = t0.pipeline.unwrap();
                        let ii = p1.index_of(current@);
                        let q1 = t.pipeline.unwrap();
                        assert(q1.steps@[ii].step_id@ == current@);
                        q1.lemma_index_of_unique(current@, ii);
                        assert(ii == i0 + adv0);
                        assert(outcome_applied(q1.steps@, i0 + adv0, outcomes@[k0]));
                    }
                    let ghost t1 = t;
                    match process_next_step(
                        &mut t,
                        current.as_str(),
                        depth,
                        o.next_session_id.as_str(),
                    ) {
                        Err(e) => {
                            stopped = ChainStop::Halted { error: e };
                            done = true;
                        },
                        Ok(PipelineProgressResult::MaxDepthReached) => {
                            stopped = ChainStop::DepthLimit;
                            done = true;
                        },
                        Ok(PipelineProgressResult::NoNextStep) => {
                            stopped = ChainStop::NoNext;
                            done = true;
                        },
                        Ok(PipelineProgressResult::AwaitingApproval { step_id }) => {
                            proof {
                                let q1 = t1.pipeline.unwrap();
                                let nn = q1.index_of(current@) + 1;
                                let q2 = t.pipeline.unwrap();
                                assert(q2.steps@ == awaiting_seq(q1.steps@, nn));
                                assert(q2.steps@[nn].step_id@ == step_id@);
                                q2.lemma_index_of_unique(step_id@, nn);
                                assert(q2.status_of(step_id@) is AwaitingApproval);
                            }
                            stopped = ChainStop::ManualGate { step_id };
                            done = true;
                        },
                        Ok(PipelineProgressResult::PipelineCompleted) => {
                            stopped = ChainStop::Completed;
                            done = true;
                        },
                        Ok(PipelineProgressResult::PipelineFailed { .. }) => {
                            stopped = ChainStop::Failed;
                            done = true;
                        },
                        Ok(PipelineProgressResult::AgentSpawned { step_id, .. }) => {
                            proof {
                                let q1 = t1.pipeline.unwrap();
                                let nn = q1.index_of(current@) + 1;
                                let q2 = t.pipeline.unwrap();
                                assert(started_seq_rel(q1.steps@, q2.steps@, nn, o.next_session_id@));
                                assert(q2.steps@[nn].step_id@ == step_id@);
                                q2.lemma_index_of_unique(step_id@, nn);
                            }
                            current = step_id;
                        },
                    }
                },
            }
        }
    }
    let report = ChainReport { steps_advanced: advanced, stopped };
    (t, report)
}

/// Puts a specific step into running under the given session for a live
/// streamed run: a queued step is started outright, and a step awaiting
/// approval is approved and bound in one motion.  Any other status is
/// rejected, naming the two source states the operation accepts.
pub fn begin_step_run(ticket: &mut Ticket, step_id: &str, session_id: &str) -> (r: Result<
    PipelineProgressResult,
    EngineError,
>)
    requires
        old(ticket).wf(),
    ensures
        final(ticket).wf(),
        same_ticket_core(*old(ticket), *final(ticket)),
        final(ticket).status == old(ticket).status,
        match r {
            Ok(res) => (old(ticket).pipeline matches Some(p) && {
                let i = p.index_of(step_id@);
                &&& p.has_step(step_id@)
                &&& (p.status_of(step_id@) is Queued || p.status_of(step_id@) is AwaitingApproval)
                &&& (res matches PipelineProgressResult::AgentSpawned { step_id: sid, session_id: ss }
                    && sid@ == step_id@ && ss@ == session_id@)
                &&& (final(ticket).pipeline matches Some(q) && started_seq_rel(
                    p.steps@,
                    q.steps@,
                    i,
                    session_id@,
                ))
            }),
            Err(e) => *final(ticket) == *old(ticket) && (match e {
                EngineError::NotFound { kind } => {
                    ||| (kind is Pipeline && old(ticket).pipeline is None)
                    ||| (kind is Step && (old(ticket).pipeline matches Some(p) && !p.has_step(
                        step_id@,
                    )))
                },
                EngineError::InvalidStateTransition { required, actual } => {
                    &&& required is QueuedOrAwaitingApproval
                    &&& old(ticket).pipeline matches Some(p)
                    &&& p.has_step(step_id@)
                    &&& actual == p.status_of(step_id@)
                    &&& !(actual is Queued || actual is AwaitingApproval)
                },
                _ => false,
            }),
        },
{
    match &mut ticket.pipeline {
        None => Err(EngineError::NotFound { kind: NotFoundKind::Pipeline }),
        Some(p) => {
            let i = match p.find_step(step_id) {
                Some(i) => i,
                None => {
                    return Err(EngineError::NotFound { kind: NotFoundKind::Step });
                },
            };
            proof {
                p.lemma_index_of_unique(step_id@, i as int);
            }
            let st = p.steps[i].status;
            if st == PipelineStepStatus::Queued {
                match p.start_step(step_id, session_id) {
                    Ok(_) => Ok(
                        PipelineProgressResult::AgentSpawned {
                            step_id: step_id.to_owned(),
                            session_id: session_id.to_owned(),
                        },
                    ),
                    Err(_) => {
                        proof {
                            assert(false);
                        }
                        Err(EngineError::PersistenceError)
                    },
                }
            } else if st == PipelineStepStatus::AwaitingApproval {
                match p.approve_step(step_id) {
                    Ok(_) => (),
                    Err(_) => {
                        proof {
                            assert(false);
                        }
                        return Err(EngineError::PersistenceError);
                    },
                }
                proof {
                    p.lemma_index_of_unique(step_id@, i as int);
                }
                match p.bind_agent_run(step_id, session_id) {
                    Ok(_) => Ok(
                        PipelineProgressResult::AgentSpawned {
                            step_id: step_id.to_owned(),
                            session_id: session_id.to_owned(),
                        },
                    ),
                    Err(_) => {
                        proof {
                            assert(false);
                        }
                        Err(EngineError::PersistenceError)
                    },
                }
            } else {
                Err(
                    EngineError::InvalidStateTransition {
                        required: RequiredStatus::QueuedOrAwaitingApproval,
                        actual: st,
                    },
                )
            }
        },
    }
}

/// Runs a pipeline from its first step.  The pipeline must exist, must not
/// already be running or completed, must have at least one step, and its
/// first step must be queued.  An automatic first step is bound to the
/// fresh session the caller names; a manual first step is put to awaiting
/// approval.
pub fn run_pipeline(ticket: &mut Ticket, session_id: &str) -> (r: Result<
    RunPipelineResponse,
    EngineError,
>)
    requires
        old(ticket).wf(),
    ensures
        final(ticket).wf(),
        same_ticket_core(*old(ticket), *final(ticket)),
        final(ticket).status == old(ticket).status,
        ticket_transitions_allowed(*old(ticket), *final(ticket)),
        match r {
            Ok(res) => (old(ticket).pipeline matches Some(p) && {
                &&& p.steps@.len() > 0
                &&& !(p.spec_status() is Running)
                &&& !(p.spec_status() is Completed)
                &&& p.steps@[0].status is Queued
                &&& res.started
                &&& (res.first_step_id matches Some(f) && f@ == p.steps@[0].step_id@)
                &&& if p.steps@[0].execution_type is Auto {
                    &&& spec_parse_agent_type(p.steps@[0].agent_type@) is Some
                    &&& (res.session_id matches Some(ss) && ss@ == session_id@)
                    &&& (final(ticket).pipeline matches Some(q) && started_seq_rel(
                        p.steps@,
                        q.steps@,
                        0,
                        session_id@,
                    ))
                } else {
                    &&& res.session_id is None
                    &&& (final(ticket).pipeline matches Some(q) && q.steps@ == awaiting_seq(
                        p.steps@,
                        0,
                    ))
                }
            }),
            Err(e) => match e {
                EngineError::NotFound { kind } => *final(ticket) == *old(ticket) && {
                    ||| (kind is Pipeline && old(ticket).pipeline is None)
                    ||| (kind is Step && (old(ticket).pipeline matches Some(p) && p.steps@.len()
                        == 0))
                },
                EngineError::InvalidStateTransition { required, actual } => *final(ticket) == *old(
                    ticket,
                ) && (old(ticket).pipeline matches Some(p) && {
                    &&& required is Queued
                    &&& p.steps@.len() > 0
                    &&& actual == p.steps@[0].status
                    &&& (p.spec_status() is Running || p.spec_status() is Completed || !(
                    p.steps@[0].status is Queued))
                }),
                EngineError::UnknownAgentType => (old(ticket).pipeline matches Some(p) && {
                    &&& p.steps@.len() > 0
                    &&& !(p.spec_status() is Running)
                    &&& !(p.spec_status() is Completed)
                    &&& p.steps@[0].status is Queued
                    &&& p.steps@[0].execution_type is Auto
                    &&& spec_parse_agent_type(p.steps@[0].agent_type@) is None
                    &&& *final(ticket) == *old(ticket)
                }),
                _ => false,
            },
        },
{
    let first_id: String;
    match &ticket.pipeline {
        None => {
            return Err(EngineError::NotFound { kind: NotFoundKind::Pipeline });
        },
        Some(p) => {
            if p.steps.len() == 0 {
                return Err(EngineError::NotFound { kind: NotFoundKind::Step });
            }
            let st = p.status();
            let first = &p.steps[0];
            if st == crate::pipeline::PipelineStatus::Running || st
                == crate::pipeline::PipelineStatus::Completed || !(first.status
                == PipelineStepStatus::Queued) {
                return Err(
                    EngineError::InvalidStateTransition {
                        required: RequiredStatus::Queued,
                        actual: first.status,
                    },
                );
            }
            first_id = first.step_id.clone();
            proof {
                p.lemma_index_of_unique(first_id@, 0);
            }
        },
    }
    match start_step_execution(ticket, first_id.as_str(), session_id) {
        Ok(PipelineProgressResult::AgentSpawned { step_id, session_id: ss }) => Ok(
            RunPipelineResponse {
                started: true,
                first_step_id: Some(step_id),
                session_id: Some(ss),
                message: "Started first step".to_owned(),
            },
        ),
        Ok(PipelineProgressResult::AwaitingApproval { step_id }) => Ok(
            RunPipelineResponse {
                started: true,
                first_step_id: Some(step_id),
                session_id: None,
                message: "First step is awaiting approval".to_owned(),
            },
        ),
        Ok(_) => {
            proof {
                assert(false);
            }
            Err(EngineError::PersistenceError)
        },
        Err(e) => match e {
            EngineError::UnknownAgentType => Err(EngineError::UnknownAgentType),
            _ => {
                proof {
                    assert(false);
                }
                Err(EngineError::PersistenceError)
            },
        },
    }
}

/// Retries a failed or skipped step: resets it (and any downstream skipped
/// steps) to queued, discards the prior agent-run records of this step's
/// agent kind on this ticket so the retry starts clean, and then starts the
/// step again — running it under the fresh session the caller names if it
/// is automatic, or gating it behind approval if it is manual.
pub fn retry_step(
    ticket: &mut Ticket,
    runs: &mut RunStore,
    step_id: &str,
    session_id: &str,
) -> (r: Result<PipelineProgressResult, EngineError>)
    requires
        old(ticket).wf(),
        old(runs).wf(),
    ensures
        final(ticket).wf(),
        final(runs).wf(),
        same_ticket_core(*old(ticket), *final(ticket)),
        final(ticket).status == old(ticket).status,
        match r {
            Ok(res) => (old(ticket).pipeline matches Some(p) && {
                let i = p.index_of(step_id@);
                let mid = retried_seq(p.steps@, i);
                &&& p.has_step(step_id@)
                &&& (p.status_of(step_id@) is Failed || p.status_of(step_id@) is Skipped)
                &&& final(runs).runs@ == old(runs).runs@.filter(
                    (|run: AgentRun| !run_matches(run, old(ticket).ticket_id@, p.steps@[i].agent_type@)),
                )
                &&& match res {
                    PipelineProgressResult::AgentSpawned { step_id: sid, session_id: ss } => {
                        &&& sid@ == step_id@
                        &&& ss@ == session_id@
                        &&& p.steps@[i].execution_type is Auto
                        &&& spec_parse_agent_type(p.steps@[i].agent_type@) is Some
                        &&& (final(ticket).pipeline matches Some(q) && started_seq_rel(
                            mid,
                            q.steps@,
                            i,
                            session_id@,
                        ))
                    },
                    PipelineProgressResult::AwaitingApproval { step_id: sid } => {
                        &&& sid@ == step_id@
                        &&& p.steps@[i].execution_type is Manual
                        &&& (final(ticket).pipeline matches Some(q) && q.steps@ == awaiting_seq(
                            mid,
                            i,
                        ))
                    },
                    _ => false,
                }
            }),
            Err(e) => match e {
                EngineError::NotFound { kind } => *final(ticket) == *old(ticket) && *final(runs)
                    == *old(runs) && {
                    ||| (kind is Pipeline && old(ticket).pipeline is None)
                    ||| (kind is Step && (old(ticket).pipeline matches Some(p) && !p.has_step(
                        step_id@,
                    )))
                },
                EngineError::InvalidStateTransition { required, actual } => *final(ticket) == *old(
                    ticket,
                ) && *final(runs) == *old(runs) && (old(ticket).pipeline matches Some(p) && {
                    &&& required is FailedOrSkipped
                    &&& p.has_step(step_id@)
                    &&& actual == p.status_of(step_id@)
                    &&& !(actual is Failed || actual is Skipped)
                }),
                EngineError::UnknownAgentType => (old(ticket).pipeline matches Some(p) && {
                    let i = p.index_of(step_id@);
                    &&& p.has_step(step_id@)
                    &&& (p.status_of(step_id@) is Failed || p.status_of(step_id@) is Skipped)
                    &&& p.steps@[i].execution_type is Auto
                    &&& spec_parse_agent_type(p.steps@[i].agent_type@) is None
                    &&& (final(ticket).pipeline matches Some(q) && q.steps@ == retried_seq(
                        p.steps@,
                        i,
                    ))
                    &&& final(runs).runs@ == old(runs).runs@.filter(
                        (|run: AgentRun| !run_matches(
                            run,
                            old(ticket).ticket_id@,
                            p.steps@[i].agent_type@,
                        )),
                    )
                }),
                _ => false,
            },
        },
{
    let agent_type: String;
    let step_i: usize;
    match &mut ticket.pipeline {
        None => {
            return Err(EngineError::NotFound { kind: NotFoundKind::Pipeline });
        },
        Some(p) => {
            let i = match p.find_step(step_id) {
                Some(i) => i,
                None => {
                    return Err(EngineError::NotFound { kind: NotFoundKind::Step });
                },
            };
            proof {
                p.lemma_index_of_unique(step_id@, i as int);
            }
            agent_type = p.steps[i].agent_type.clone();
            step_i = i;
            match p.retry_step(step_id) {
                Ok(_) => {
                    proof {
                        assert(p.steps@ =~= retried_seq(old(ticket).pipeline.unwrap().steps@, i as int));
                    }
                },
                Err(e) => {
                    return Err(e);
                },
            }
        },
    }
    let tid = ticket.ticket_id.clone();
    let _discarded = runs.delete_runs_for_ticket_agent(tid.as_str(), agent_type.as_str());
    let ghost mid_t = *ticket;
    proof {
        let m = mid_t.pipeline.unwrap();
        m.lemma_index_of_unique(step_id@, step_i as int);
    }
    match start_step_execution(ticket, step_id, session_id) {
        Ok(res) => match res {
            PipelineProgressResult::AgentSpawned { step_id: sid, session_id: ss } => Ok(
                PipelineProgressResult::AgentSpawned { step_id: sid, session_id: ss },
            ),
            PipelineProgressResult::AwaitingApproval { step_id: sid } => Ok(
                PipelineProgressResult::AwaitingApproval { step_id: sid },
            ),
            _ => {
                proof {
                    assert(false);
                }
                Err(EngineError::PersistenceError)
            },
        },
        Err(e) => match e {
            EngineError::UnknownAgentType => Err(EngineError::UnknownAgentType),
            _ => {
                proof {
                    assert(false);
                }
                Err(EngineError::PersistenceError)
            },
        },
    }
}

/// What the engine found when it examined the step after the current one.
enum NextKind {
    PastEnd,
    NotQueued,
    MissingCurrent,
    Auto,
    AutoUnknown,
    Manual,
}

/// Reconciles the ticket when its pipeline has no further work: reports
/// failure if any step failed, marks the ticket completed when every step
/// is completed or skipped, and reports no next step otherwise.
fn handle_pipeline_completion(ticket: &mut Ticket) -> (r: PipelineProgressResult)
    requires
        old(ticket).wf(),
        old(ticket).pipeline is Some,
    ensures
        final(ticket).wf(),
        same_ticket_core(*old(ticket), *final(ticket)),
        final(ticket).pipeline == old(ticket).pipeline,
        ({
            let p = old(ticket).pipeline.unwrap();
            if seq_failed(p.steps@) {
                &&& r matches PipelineProgressResult::PipelineFailed { .. }
                &&& final(ticket).status == old(ticket).status
            } else if seq_complete(p.steps@) {
                &&& r is PipelineCompleted
                &&& final(ticket).status@ == "completed"@
            } else {
                &&& r is NoNextStep
                &&& final(ticket).status == old(ticket).status
            }
        }),
{
    let (failed, complete) = match &ticket.pipeline {
        Some(p) => (p.has_failed(), p.is_complete()),
        None => {
            proof {
                assert(false);
            }
            (false, false)
        },
    };
    if failed {
        return PipelineProgressResult::PipelineFailed {
            reason: "One or more steps failed".to_owned(),
        };
    }
    if complete {
        ticket.status = "completed".to_owned();
        return PipelineProgressResult::PipelineCompleted;
    }
    PipelineProgressResult::NoNextStep
}

/// Decides what follows the step named `current_step_id`: chains into the
/// next automatic step (bound to the fresh session the caller names), halts
/// a manual step at an approval gate, reconciles completion, and enforces
/// the chain-depth bound.  Everything the call changes is an allowed edge
/// of the step state machine.
pub fn process_next_step(ticket: &mut Ticket, current_step_id: &str, depth: u32, session_id: &str)
    -> (r: Result<PipelineProgressResult, EngineError>)
    requires
        old(ticket).wf(),
    ensures
        final(ticket).wf(),
        same_ticket_core(*old(ticket), *final(ticket)),
        ticket_transitions_allowed(*old(ticket), *final(ticket)),
        depth >= MAX_AUTO_CHAIN_DEPTH ==> r == Ok::<PipelineProgressResult, EngineError>(
            PipelineProgressResult::MaxDepthReached,
        ) && *final(ticket) == *old(ticket),
        match r {
            Ok(res) => match res {
                PipelineProgressResult::MaxDepthReached => depth >= MAX_AUTO_CHAIN_DEPTH
                    && *final(ticket) == *old(ticket),
                PipelineProgressResult::NoNextStep => depth < MAX_AUTO_CHAIN_DEPTH && {
                    ||| (old(ticket).pipeline is None && *final(ticket) == *old(ticket))
                    ||| (old(ticket).pipeline matches Some(p) && *final(ticket) == *old(ticket)
                        && !seq_complete(p.steps@) && {
                        ||| !p.has_step(current_step_id@)
                        ||| (p.has_step(current_step_id@) && p.index_of(current_step_id@) + 1
                            < p.steps@.len() && !(p.steps@[p.index_of(current_step_id@)
                            + 1].status is Queued))
                        ||| (p.has_step(current_step_id@) && p.index_of(current_step_id@) + 1
                            >= p.steps@.len() && !seq_failed(p.steps@))
                    })
                },
                PipelineProgressResult::PipelineFailed { .. } => depth < MAX_AUTO_CHAIN_DEPTH
                    && *final(ticket) == *old(ticket) && (old(ticket).pipeline matches Some(p)
                    && seq_failed(p.steps@) && (seq_complete(p.steps@) || (p.has_step(
                    current_step_id@,
                ) && p.index_of(current_step_id@) + 1 >= p.steps@.len()))),
                PipelineProgressResult::PipelineCompleted => depth < MAX_AUTO_CHAIN_DEPTH && (old(
                    ticket,
                ).pipeline matches Some(p) && !seq_failed(p.steps@) && seq_complete(p.steps@)
                    && final(ticket).pipeline == old(ticket).pipeline && final(ticket).status@
                    == "completed"@),
                PipelineProgressResult::AgentSpawned { step_id: sid, session_id: ss } => depth
                    < MAX_AUTO_CHAIN_DEPTH && (old(ticket).pipeline matches Some(p) && {
                    let n = p.index_of(current_step_id@) + 1;
                    &&& !seq_complete(p.steps@)
                    &&& p.has_step(current_step_id@)
                    &&& n < p.steps@.len()
                    &&& p.steps@[n].status is Queued
                    &&& p.steps@[n].execution_type is Auto
                    &&& spec_parse_agent_type(p.steps@[n].agent_type@) is Some
                    &&& sid@ == p.steps@[n].step_id@
                    &&& ss@ == session_id@
                    &&& (final(ticket).pipeline matches Some(q) && started_seq_rel(
                        p.steps@,
                        q.steps@,
                        n,
                        session_id@,
                    ))
                    &&& final(ticket).status == old(ticket).status
                }),
                PipelineProgressResult::AwaitingApproval { step_id: sid } => depth
                    < MAX_AUTO_CHAIN_DEPTH && (old(ticket).pipeline matches Some(p) && {
                    let n = p.index_of(current_step_id@) + 1;
                    &&& !seq_complete(p.steps@)
                    &&& p.has_step(current_step_id@)
                    &&& n < p.steps@.len()
                    &&& p.steps@[n].status is Queued
                    &&& p.steps@[n].execution_type is Manual
                    &&& sid@ == p.steps@[n].step_id@
                    &&& (final(ticket).pipeline matches Some(q) && q.steps@ == awaiting_seq(
                        p.steps@,
                        n,
                    ))
                    &&& final(ticket).status == old(ticket).status
                }),
            },
            Err(e) => *final(ticket) == *old(ticket) && (match e {
                EngineError::UnknownAgentType => depth < MAX_AUTO_CHAIN_DEPTH && (old(
                    ticket,
                ).pipeline matches Some(p) && {
                    let n = p.index_of(current_step_id@) + 1;
                    &&& !seq_complete(p.steps@)
                    &&& p.has_step(current_step_id@)
                    &&& n < p.steps@.len()
                    &&& p.steps@[n].status is Queued
                    &&& p.steps@[n].execution_type is Auto
                    &&& spec_parse_agent_type(p.steps@[n].agent_type@) is None
                }),
                _ => false,
            }),
        },
{
    if depth >= MAX_AUTO_CHAIN_DEPTH {
        return Ok(PipelineProgressResult::MaxDepthReached);
    }
    if ticket.pipeline.is_none() {
        return Ok(PipelineProgressResult::NoNextStep);
    }
    let complete = match &ticket.pipeline {
        Some(p) => p.is_complete(),
        None => {
            proof {
                assert(false);
            }
            false
        },
    };
    if complete {
        return Ok(handle_pipeline_completion(ticket));
    }
    // Look up the current step and examine its successor.
    let (kind, next_id): (NextKind, Option<String>) = match &ticket.pipeline {
        Some(p) => {
            match p.find_step(current_step_id) {
                None => {
                    return Ok(PipelineProgressResult::NoNextStep);
                },
                Some(i) => {
                    proof {
                        p.lemma_index_of_unique(current_step_id@, i as int);
                    }
                    let plen = p.steps.len();
                    if i + 1 >= plen {
                        (NextKind::PastEnd, None)
                    } else {
                        let next = &p.steps[i + 1];
                        if !(next.status == PipelineStepStatus::Queued) {
                            return Ok(PipelineProgressResult::NoNextStep);
                        }
                        match next.execution_type {
                            ExecutionType::Auto => {
                                if parse_agent_type(next.agent_type.as_str()).is_none() {
                                    return Err(EngineError::UnknownAgentType);
                                }
                                (NextKind::Auto, Some(next.step_id.clone()))
                            },
                            ExecutionType::Manual => (NextKind::Manual, Some(next.step_id.clone())),
                        }
                    }
                },
            }
        },
        None => {
            proof {
                assert(false);
            }
            (NextKind::MissingCurrent, None)
        },
    };
    match kind {
        NextKind::MissingCurrent | NextKind::NotQueued | NextKind::AutoUnknown => {
            proof {
                assert(false);
            }
            Err(EngineError::PersistenceError)
        },
        NextKind::PastEnd => Ok(handle_pipeline_completion(ticket)),
        NextKind::Auto => {
            let nid = match next_id {
                Some(s) => s,
                None => {
                    proof {
                        assert(false);
                    }
                    return Err(EngineError::PersistenceError);
                },
            };
            match &mut ticket.pipeline {
                Some(p) => {
                    match p.start_step(nid.as_str(), session_id) {
                        Ok(_) => Ok(
                            PipelineProgressResult::AgentSpawned {
                                step_id: nid,
                                session_id: session_id.to_owned(),
                            },
                        ),
                        Err(_) => {
                            proof {
                                assert(false);
                            }
                            Err(EngineError::PersistenceError)
                        },
                    }
                },
                None => {
                    proof {
                        assert(false);
                    }
                    Err(EngineError::PersistenceError)
                },
            }
        },
        NextKind::Manual => {
            let nid = match next_id {
                Some(s) => s,
                None => {
                    proof {
                        assert(false);
                    }
                    return Err(EngineError::PersistenceError);
                },
            };
            match &mut ticket.pipeline {
                Some(p) => {
                    match p.await_approval(nid.as_str()) {
                        Ok(_) => Ok(PipelineProgressResult::AwaitingApproval { step_id: nid }),
                        Err(_) => {
                            proof {
                                assert(false);
                            }
                            Err(EngineError::PersistenceError)
                        },
                    }
                },
                None => {
                    proof {
                        assert(false);
                    }
                    Err(EngineError::PersistenceError)
                },
            }
        },
    }
}

} // verus!
