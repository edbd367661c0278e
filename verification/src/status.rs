//! Status vocabulary of the pipeline state machine and of agent runs.

use vstd::prelude::*;

verus! {

/// Status of one pipeline step.
#[derive(Clone, Copy, Debug, PartialEq, Eq, Structural)]
pub enum PipelineStepStatus {
    Queued,
    Running,
    AwaitingApproval,
    Completed,
    Failed,
    Skipped,
}

/// How a step is driven: automatically by the engine, or gated behind a
/// human approval.
#[derive(Clone, Copy, Debug, PartialEq, Eq, Structural)]
pub enum ExecutionType {
    Auto,
    Manual,
}

/// Status of one agent run (one execution attempt of one step).
#[derive(Clone, Copy, Debug, PartialEq, Eq, Structural)]
pub enum AgentRunStatus {
    Running,
    Completed,
    Failed,
    Cancelled,
}

/// The allowed-edge set of the step state machine.  Every status change a
/// step operation performs is one of these edges; every operation asked to
/// make any other change is rejected instead.
pub open spec fn step_edge_allowed(from: PipelineStepStatus, to: PipelineStepStatus) -> bool {
    ||| (from == PipelineStepStatus::Queued && to == PipelineStepStatus::Running)
    ||| (from == PipelineStepStatus::Queued && to == PipelineStepStatus::AwaitingApproval)
    ||| (from == PipelineStepStatus::AwaitingApproval && to == PipelineStepStatus::Running)
    ||| (from == PipelineStepStatus::AwaitingApproval && to == PipelineStepStatus::Failed)
    ||| (from == PipelineStepStatus::Running && to == PipelineStepStatus::Completed)
    ||| (from == PipelineStepStatus::Running && to == PipelineStepStatus::Failed)
    ||| (from == PipelineStepStatus::Failed && to == PipelineStepStatus::Queued)
    ||| (from == PipelineStepStatus::Skipped && to == PipelineStepStatus::Queued)
}

/// The canonical lower-case name of each run status.
pub open spec fn spec_agent_status_str(s: AgentRunStatus) -> Seq<char> {
    match s {
        AgentRunStatus::Running => "running"@,
        AgentRunStatus::Completed => "completed"@,
        AgentRunStatus::Failed => "failed"@,
        AgentRunStatus::Cancelled => "cancelled"@,
    }
}

impl AgentRunStatus {
    /// The canonical lower-case name of this status.
    pub fn as_str(&self) -> (r: &'static str)
        ensures
            r@ == spec_agent_status_str(*self),
    {
        match self {
            AgentRunStatus::Running => "running",
            AgentRunStatus::Completed => "completed",
            AgentRunStatus::Failed => "failed",
            AgentRunStatus::Cancelled => "cancelled",
        }
    }
}

} // verus!
