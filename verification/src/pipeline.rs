//! The pipeline data model: steps, their state machine, and the pure
//! status queries derived from the step list.
//!
//! A pipeline is an ordered sequence of steps attached to one ticket.  Step
//! order is fixed after creation and steps are addressed by a caller-assigned
//! `step_id`, unique within the pipeline.  Steps are never deleted: a failed
//! or skipped step is reset in place by retry.  Every mutating operation
//! validates the step's current status against the required source status and
//! performs only edges of [`step_edge_allowed`](crate::status::step_edge_allowed).

use vstd::prelude::*;
use crate::status::{PipelineStepStatus, ExecutionType, step_edge_allowed};
use crate::errors::{EngineError, NotFoundKind, RequiredStatus, required_matches};
use crate::strutil::str_eq;
use vstd::pervasive::VecAdditionalExecFns;

verus! {

/// Outputs a completed step carries.  The `summary` is the part the engine
/// reads when threading one step's result into the next step of a chain; the
/// `payload` carries any remaining agent-specific data opaquely, as text.
#[derive(Clone, Debug, PartialEq)]
pub struct StepOutputs {
    pub summary: Option<String>,
    pub payload: Option<String>,
}

/// Error a failed step carries: whether a human rejection caused it, and an
/// opaque message.
#[derive(Clone, Debug, PartialEq)]
pub struct StepError {
    pub rejected: bool,
    pub message: Option<String>,
}

/// One unit of work in a pipeline.
#[derive(Clone, Debug, PartialEq)]
pub struct PipelineStep {
    pub step_id: String,
    pub agent_type: String,
    pub execution_type: ExecutionType,
    pub status: PipelineStepStatus,
    pub agent_run_id: Option<String>,
    pub outputs: Option<StepOutputs>,
    pub error: Option<StepError>,
}

/// Derived status of a whole pipeline, computed from the step states and
/// never stored as independently mutable truth.
#[derive(Clone, Copy, Debug, PartialEq, Eq, Structural)]
pub enum PipelineStatus {
    NotStarted,
    Running,
    Completed,
    Failed,
}

/// An ordered list of steps attached to one ticket.
#[derive(Clone, Debug, PartialEq)]
pub struct Pipeline {
    pub steps: Vec<PipelineStep>,
}

/// The step `s` with the given status, run binding, outputs and error, and
/// its identity fields kept.
pub open spec fn step_with(
    s: PipelineStep,
    status: PipelineStepStatus,
    agent_run_id: Option<String>,
    outputs: Option<StepOutputs>,
    error: Option<StepError>,
) -> PipelineStep {
    PipelineStep {
        step_id: s.step_id,
        agent_type: s.agent_type,
        execution_type: s.execution_type,
        status,
        agent_run_id,
        outputs,
        error,
    }
}

/// Every step of the sequence is `Completed` or `Skipped`.
pub open spec fn seq_complete(s: Seq<PipelineStep>) -> bool {
    forall|i: int|
        0 <= i < s.len() ==> (#[trigger] s[i].status is Completed || s[i].status is Skipped)
}

/// Some step of the sequence is `Failed`.
pub open spec fn seq_failed(s: Seq<PipelineStep>) -> bool {
    exists|i: int| 0 <= i < s.len() && #[trigger] s[i].status is Failed
}

/// The step sequence after completing the step at index `i` with the given
/// outputs.
pub open spec fn completed_seq(
    s: Seq<PipelineStep>,
    i: int,
    outputs: Option<StepOutputs>,
) -> Seq<PipelineStep> {
    s.update(i, step_with(s[i], PipelineStepStatus::Completed, s[i].agent_run_id, outputs, s[i].error))
}

/// The step sequence after failing the step at index `i` with the given
/// error.
pub open spec fn failed_seq(
    s: Seq<PipelineStep>,
    i: int,
    error: Option<StepError>,
) -> Seq<PipelineStep> {
    s.update(i, step_with(s[i], PipelineStepStatus::Failed, s[i].agent_run_id, s[i].outputs, error))
}

/// The step sequence after marking the step at index `i` as awaiting
/// approval.
pub open spec fn awaiting_seq(s: Seq<PipelineStep>, i: int) -> Seq<PipelineStep> {
    s.update(
        i,
        step_with(s[i], PipelineStepStatus::AwaitingApproval, s[i].agent_run_id, s[i].outputs, s[i].error),
    )
}

/// The step sequence after retrying the step at index `i`: the step is
/// back to queued with its error and run binding cleared, and every
/// downstream skipped step is queued again.
pub open spec fn retried_seq(s: Seq<PipelineStep>, i: int) -> Seq<PipelineStep> {
    Seq::new(
        s.len(),
        |k: int|
            if k == i {
                step_with(s[k], PipelineStepStatus::Queued, None, s[k].outputs, None)
            } else if k > i && s[k].status is Skipped {
                step_with(s[k], PipelineStepStatus::Queued, s[k].agent_run_id, s[k].outputs, s[k].error)
            } else {
                s[k]
            },
    )
}

/// Relates a step sequence to the same sequence with the step at index `i`
/// started: running, and bound to an agent run named `session`.
pub open spec fn started_seq_rel(
    pre: Seq<PipelineStep>,
    post: Seq<PipelineStep>,
    i: int,
    session: Seq<char>,
) -> bool {
    &&& post.len() == pre.len()
    &&& 0 <= i < pre.len()
    &&& forall|k: int| 0 <= k < pre.len() && k != i ==> #[trigger] post[k] == pre[k]
    &&& post[i].step_id == pre[i].step_id
    &&& post[i].agent_type == pre[i].agent_type
    &&& post[i].execution_type == pre[i].execution_type
    &&& post[i].status is Running
    &&& (post[i].agent_run_id matches Some(rid) && rid@ == session)
    &&& post[i].outputs == pre[i].outputs
    &&& post[i].error == pre[i].error
}

/// True when every status change from `pre` to `post` is an edge of the
/// allowed-edge set, with step count and identities preserved.
pub open spec fn transitions_allowed(pre: Pipeline, post: Pipeline) -> bool {
    &&& pre.steps@.len() == post.steps@.len()
    &&& forall|i: int|
        0 <= i < pre.steps@.len() ==> (#[trigger] post.steps@[i].status == pre.steps@[i].status
            || step_edge_allowed(pre.steps@[i].status, post.steps@[i].status))
}

/// Clones an optional string, preserving its value.
pub fn clone_opt_string(o: &Option<String>) -> (r: Option<String>)
    ensures
        r == *o,
{
    match o {
        Some(s) => Some(s.clone()),
        None => None,
    }
}

/// Clones optional step outputs, preserving their value.
pub fn clone_opt_outputs(o: &Option<StepOutputs>) -> (r: Option<StepOutputs>)
    ensures
        r == *o,
{
    match o {
        Some(v) => Some(
            StepOutputs { summary: clone_opt_string(&v.summary), payload: clone_opt_string(&v.payload) },
        ),
        None => None,
    }
}

/// Clones an optional step error, preserving its value.
pub fn clone_opt_error(o: &Option<StepError>) -> (r: Option<StepError>)
    ensures
        r == *o,
{
    match o {
        Some(v) => Some(StepError { rejected: v.rejected, message: clone_opt_string(&v.message) }),
        None => None,
    }
}

impl Pipeline {
    /// Well-formedness: step identifiers are unique within the pipeline.
    pub open spec fn wf(self) -> bool {
        forall|i: int, j: int|
            0 <= i < j < self.steps@.len() ==> #[trigger] self.steps@[i].step_id@
                != #[trigger] self.steps@[j].step_id@
    }

    /// True when some step carries the given identifier.
    pub open spec fn has_step(self, id: Seq<char>) -> bool {
        exists|i: int| 0 <= i < self.steps@.len() && #[trigger] self.steps@[i].step_id@ == id
    }

    /// The index of the step with the given identifier (unique under `wf`).
    pub open spec fn index_of(self, id: Seq<char>) -> int {
        choose|i: int| 0 <= i < self.steps@.len() && #[trigger] self.steps@[i].step_id@ == id
    }

    /// The status of the step with the given identifier.
    pub open spec fn status_of(self, id: Seq<char>) -> PipelineStepStatus {
        self.steps@[self.index_of(id)].status
    }

    /// Any index holding the given identifier is `index_of` that identifier.
    pub proof fn lemma_index_of_unique(self, id: Seq<char>, i: int)
        requires
            self.wf(),
            0 <= i < self.steps@.len(),
            self.steps@[i].step_id@ == id,
        ensures
            self.has_step(id),
            self.index_of(id) == i,
    {
        assert(self.has_step(id));
        let c = self.index_of(id);
        assert(0 <= c < self.steps@.len() && self.steps@[c].step_id@ == id);
        if c < i {
            assert(self.steps@[c].step_id@ != self.steps@[i].step_id@);
        } else if i < c {
            assert(self.steps@[i].step_id@ != self.steps@[c].step_id@);
        }
    }

    /// Every step is `Completed` or `Skipped`.
    pub open spec fn spec_is_complete(self) -> bool {
        seq_complete(self.steps@)
    }

    /// Some step is `Failed`.
    pub open spec fn spec_has_failed(self) -> bool {
        seq_failed(self.steps@)
    }

    /// True iff every step is `Completed` or `Skipped`.  Pure over the step
    /// list; no side effects.
    pub fn is_complete(&self) -> (r: bool)
        ensures
            r == self.spec_is_complete(),
    {
        let n: usize = self.steps.len();
        let mut i: usize = 0;
        while i < n
            invariant
                0 <= i <= n,
                n == self.steps@.len(),
                forall|k: int|
                    0 <= k < i ==> (#[trigger] self.steps@[k].status is Completed
                        || self.steps@[k].status is Skipped),
            decreases n - i,
        {
            let st = self.steps[i].status;
            if !(st == PipelineStepStatus::Completed || st == PipelineStepStatus::Skipped) {
                return false;
            }
            i = i + 1;
        }
        true
    }

    /// True iff some step is `Failed`.  Pure over the step list; no side
    /// effects.
    pub fn has_failed(&self) -> (r: bool)
        ensures
            r == self.spec_has_failed(),
    {
        let n: usize = self.steps.len();
        let mut i: usize = 0;
        while i < n
            invariant
                0 <= i <= n,
                n == self.steps@.len(),
                forall|k: int| 0 <= k < i ==> !(#[trigger] self.steps@[k].status is Failed),
            decreases n - i,
        {
            if self.steps[i].status == PipelineStepStatus::Failed {
                return true;
            }
            i = i + 1;
        }
        false
    }

    /// A complete pipeline has no failed step.
    pub proof fn lemma_complete_excludes_failed(self)
        requires
            self.spec_is_complete(),
        ensures
            !self.spec_has_failed(),
    {
    }

    /// The derived pipeline status: failed when any step failed, completed
    /// when every step is completed or skipped, not started while all steps
    /// are still queued, running otherwise.
    pub open spec fn spec_status(self) -> PipelineStatus {
        if self.spec_has_failed() {
            PipelineStatus::Failed
        } else if self.spec_is_complete() {
            PipelineStatus::Completed
        } else if forall|i: int|
            0 <= i < self.steps@.len() ==> #[trigger] self.steps@[i].status is Queued {
            PipelineStatus::NotStarted
        } else {
            PipelineStatus::Running
        }
    }

    /// Computes the derived pipeline status.
    pub fn status(&self) -> (r: PipelineStatus)
        ensures
            r == self.spec_status(),
    {
        if self.has_failed() {
            return PipelineStatus::Failed;
        }
        if self.is_complete() {
            return PipelineStatus::Completed;
        }
        let n: usize = self.steps.len();
        let mut i: usize = 0;
        while i < n
            invariant
                0 <= i <= n,
                n == self.steps@.len(),
                !self.spec_has_failed(),
                !self.spec_is_complete(),
                forall|k: int| 0 <= k < i ==> #[trigger] self.steps@[k].status is Queued,
            decreases n - i,
        {
            if !(self.steps[i].status == PipelineStepStatus::Queued) {
                proof {
                    assert(!(forall|k: int|
                        0 <= k < self.steps@.len() ==> #[trigger] self.steps@[k].status
                            is Queued)) by {
                        assert(!(self.steps@[i as int].status is Queued));
                    }
                }
                return PipelineStatus::Running;
            }
            i = i + 1;
        }
        PipelineStatus::NotStarted
    }

    /// Finds the index of the step with the given identifier.
    pub fn find_step(&self, step_id: &str) -> (r: Option<usize>)
        ensures
            match r {
                Some(i) => 0 <= i < self.steps@.len() && self.steps@[i as int].step_id@
                    == step_id@,
                None => !self.has_step(step_id@),
            },
    {
        let n: usize = self.steps.len();
        let mut i: usize = 0;
        while i < n
            invariant
                0 <= i <= n,
                n == self.steps@.len(),
                forall|k: int| 0 <= k < i ==> #[trigger] self.steps@[k].step_id@ != step_id@,
            decreases n - i,
        {
            if str_eq(self.steps[i].step_id.as_str(), step_id) {
                return Some(i);
            }
            i = i + 1;
        }
        None
    }

    /// Replaces the mutable fields of the step at index `i`, keeping its
    /// identity fields.
    pub(crate) fn set_step_fields(
        &mut self,
        i: usize,
        status: PipelineStepStatus,
        agent_run_id: Option<String>,
        outputs: Option<StepOutputs>,
        error: Option<StepError>,
    )
        requires
            i < old(self).steps@.len(),
        ensures
            final(self).steps@ == old(self).steps@.update(
                i as int,
                step_with(old(self).steps@[i as int], status, agent_run_id, outputs, error),
            ),
            old(self).wf() ==> final(self).wf(),
    {
        let cur = &self.steps[i];
        let new_step = PipelineStep {
            step_id: cur.step_id.clone(),
            agent_type: cur.agent_type.clone(),
            execution_type: cur.execution_type,
            status,
            agent_run_id,
            outputs,
            error,
        };
        self.steps.set(i, new_step);
        proof {
            let post = final(self).steps@;
            let pre = old(self).steps@;
            if old(self).wf() {
                assert forall|a: int, b: int|
                    0 <= a < b < post.len() implies #[trigger] post[a].step_id@
                    != #[trigger] post[b].step_id@ by {
                    assert(post[a].step_id@ == pre[a].step_id@);
                    assert(post[b].step_id@ == pre[b].step_id@);
                }
            }
        }
    }

    /// Locates the step with the given identifier and validates its current
    /// status against the required source status.
    fn locate_step(&self, step_id: &str, required: RequiredStatus) -> (r: Result<
        usize,
        EngineError,
    >)
        requires
            self.wf(),
        ensures
            match r {
                Ok(i) => {
                    &&& 0 <= i < self.steps@.len()
                    &&& self.steps@[i as int].step_id@ == step_id@
                    &&& i as int == self.index_of(step_id@)
                    &&& self.has_step(step_id@)
                    &&& required_matches(required, self.steps@[i as int].status)
                },
                Err(e) => match e {
                    EngineError::NotFound { kind } => kind is Step && !self.has_step(step_id@),
                    EngineError::InvalidStateTransition { required: rq, actual } => {
                        &&& rq == required
                        &&& self.has_step(step_id@)
                        &&& actual == self.status_of(step_id@)
                        &&& !required_matches(required, actual)
                    },
                    _ => false,
                },
            },
    {
        let i = match self.find_step(step_id) {
            Some(i) => i,
            None => {
                return Err(EngineError::NotFound { kind: NotFoundKind::Step });
            },
        };
        proof {
            self.lemma_index_of_unique(step_id@, i as int);
        }
        let st = self.steps[i].status;
        let ok = match required {
            RequiredStatus::Queued => st == PipelineStepStatus::Queued,
            RequiredStatus::Running => st == PipelineStepStatus::Running,
            RequiredStatus::AwaitingApproval => st == PipelineStepStatus::AwaitingApproval,
            RequiredStatus::QueuedOrAwaitingApproval => st == PipelineStepStatus::Queued || st
                == PipelineStepStatus::AwaitingApproval,
            RequiredStatus::FailedOrSkipped => st == PipelineStepStatus::Failed || st
                == PipelineStepStatus::Skipped,
        };
        if ok {
            Ok(i)
        } else {
            Err(EngineError::InvalidStateTransition { required, actual: st })
        }
    }

    /// Starts a queued step: `Queued -> Running`, binding the agent run that
    /// will drive it.  Returns the step's index.
    pub fn start_step(&mut self, step_id: &str, agent_run_id: &str) -> (r: Result<
        usize,
        EngineError,
    >)
        requires
            old(self).wf(),
        ensures
            final(self).wf(),
            transitions_allowed(*old(self), *final(self)),
            match r {
                Ok(i) => {
                    &&& 0 <= i < old(self).steps@.len()
                    &&& i as int == old(self).index_of(step_id@)
                    &&& old(self).has_step(step_id@)
                    &&& old(self).status_of(step_id@) is Queued
                    &&& final(self).steps@.len() == old(self).steps@.len()
                    &&& forall|k: int|
                        0 <= k < old(self).steps@.len() && k != i
                            ==> #[trigger] final(self).steps@[k] == old(self).steps@[k]
                    &&& final(self).steps@[i as int].step_id == old(self).steps@[i as int].step_id
                    &&& final(self).steps@[i as int].agent_type
                        == old(self).steps@[i as int].agent_type
                    &&& final(self).steps@[i as int].execution_type
                        == old(self).steps@[i as int].execution_type
                    &&& final(self).steps@[i as int].status is Running
                    &&& (final(self).steps@[i as int].agent_run_id matches Some(rid) && rid@
                        == agent_run_id@)
                    &&& final(self).steps@[i as int].outputs == old(self).steps@[i as int].outputs
                    &&& final(self).steps@[i as int].error == old(self).steps@[i as int].error
                },
                Err(e) => *final(self) == *old(self) && (match e {
                    EngineError::NotFound { kind } => kind is Step && !old(self).has_step(
                        step_id@,
                    ),
                    EngineError::InvalidStateTransition { required, actual } => {
                        &&& required is Queued
                        &&& old(self).has_step(step_id@)
                        &&& actual == old(self).status_of(step_id@)
                        &&& !(actual is Queued)
                    },
                    _ => false,
                }),
            },
    {
        let i = match self.locate_step(step_id, RequiredStatus::Queued) {
            Ok(i) => i,
            Err(e) => {
                return Err(e);
            },
        };
        let outputs = clone_opt_outputs(&self.steps[i].outputs);
        let error = clone_opt_error(&self.steps[i].error);
        self.set_step_fields(
            i,
            PipelineStepStatus::Running,
            Some(agent_run_id.to_owned()),
            outputs,
            error,
        );
        Ok(i)
    }

    /// Marks a queued manual step as awaiting human approval:
    /// `Queued -> AwaitingApproval`.  Returns the step's index.
    pub fn await_approval(&mut self, step_id: &str) -> (r: Result<usize, EngineError>)
        requires
            old(self).wf(),
        ensures
            final(self).wf(),
            transitions_allowed(*old(self), *final(self)),
            match r {
                Ok(i) => {
                    &&& 0 <= i < old(self).steps@.len()
                    &&& i as int == old(self).index_of(step_id@)
                    &&& old(self).has_step(step_id@)
                    &&& old(self).status_of(step_id@) is Queued
                    &&& final(self).steps@ == old(self).steps@.update(
                        i as int,
                        (step_with(
                            old(self).steps@[i as int],
                            PipelineStepStatus::AwaitingApproval,
                            old(self).steps@[i as int].agent_run_id,
                            old(self).steps@[i as int].outputs,
                            old(self).steps@[i as int].error,
                        )),
                    )
                },
                Err(e) => *final(self) == *old(self) && (match e {
                    EngineError::NotFound { kind } => kind is Step && !old(self).has_step(
                        step_id@,
                    ),
                    EngineError::InvalidStateTransition { required, actual } => {
                        &&& required is Queued
                        &&& old(self).has_step(step_id@)
                        &&& actual == old(self).status_of(step_id@)
                        &&& !(actual is Queued)
                    },
                    _ => false,
                }),
            },
    {
        let i = match self.locate_step(step_id, RequiredStatus::Queued) {
            Ok(i) => i,
            Err(e) => {
                return Err(e);
            },
        };
        let run_id = clone_opt_string(&self.steps[i].agent_run_id);
        let outputs = clone_opt_outputs(&self.steps[i].outputs);
        let error = clone_opt_error(&self.steps[i].error);
        self.set_step_fields(i, PipelineStepStatus::AwaitingApproval, run_id, outputs, error);
        Ok(i)
    }

    /// Approves a step awaiting approval: `AwaitingApproval -> Running`.
    /// Returns the step's index.
    pub fn approve_step(&mut self, step_id: &str) -> (r: Result<usize, EngineError>)
        requires
            old(self).wf(),
        ensures
            final(self).wf(),
            transitions_allowed(*old(self), *final(self)),
            match r {
                Ok(i) => {
                    &&& 0 <= i < old(self).steps@.len()
                    &&& i as int == old(self).index_of(step_id@)
                    &&& old(self).has_step(step_id@)
                    &&& old(self).status_of(step_id@) is AwaitingApproval
                    &&& final(self).steps@ == old(self).steps@.update(
                        i as int,
                        (step_with(
                            old(self).steps@[i as int],
                            PipelineStepStatus::Running,
                            old(self).steps@[i as int].agent_run_id,
                            old(self).steps@[i as int].outputs,
                            old(self).steps@[i as int].error,
                        )),
                    )
                },
                Err(e) => *final(self) == *old(self) && (match e {
                    EngineError::NotFound { kind } => kind is Step && !old(self).has_step(
                        step_id@,
                    ),
                    EngineError::InvalidStateTransition { required, actual } => {
                        &&& required is AwaitingApproval
                        &&& old(self).has_step(step_id@)
                        &&& actual == old(self).status_of(step_id@)
                        &&& !(actual is AwaitingApproval)
                    },
                    _ => false,
                }),
            },
    {
        let i = match self.locate_step(step_id, RequiredStatus::AwaitingApproval) {
            Ok(i) => i,
            Err(e) => {
                return Err(e);
            },
        };
        let run_id = clone_opt_string(&self.steps[i].agent_run_id);
        let outputs = clone_opt_outputs(&self.steps[i].outputs);
        let error = clone_opt_error(&self.steps[i].error);
        self.set_step_fields(i, PipelineStepStatus::Running, run_id, outputs, error);
        Ok(i)
    }

    /// Rejects a step awaiting approval: `AwaitingApproval -> Failed`,
    /// recording the human feedback.  Returns the step's index.
    pub fn reject_step(&mut self, step_id: &str, feedback: Option<String>) -> (r: Result<
        usize,
        EngineError,
    >)
        requires
            old(self).wf(),
        ensures
            final(self).wf(),
            transitions_allowed(*old(self), *final(self)),
            match r {
                Ok(i) => {
                    &&& 0 <= i < old(self).steps@.len()
                    &&& i as int == old(self).index_of(step_id@)
                    &&& old(self).has_step(step_id@)
                    &&& old(self).status_of(step_id@) is AwaitingApproval
                    &&& final(self).steps@ == old(self).steps@.update(
                        i as int,
                        (step_with(
                            old(self).steps@[i as int],
                            PipelineStepStatus::Failed,
                            old(self).steps@[i as int].agent_run_id,
                            old(self).steps@[i as int].outputs,
                            Some((StepError { rejected: true, message: feedback })),
                        )),
                    )
                },
                Err(e) => *final(self) == *old(self) && (match e {
                    EngineError::NotFound { kind } => kind is Step && !old(self).has_step(
                        step_id@,
                    ),
                    EngineError::InvalidStateTransition { required, actual } => {
                        &&& required is AwaitingApproval
                        &&& old(self).has_step(step_id@)
                        &&& actual == old(self).status_of(step_id@)
                        &&& !(actual is AwaitingApproval)
                    },
                    _ => false,
                }),
            },
    {
        let i = match self.locate_step(step_id, RequiredStatus::AwaitingApproval) {
            Ok(i) => i,
            Err(e) => {
                return Err(e);
            },
        };
        let run_id = clone_opt_string(&self.steps[i].agent_run_id);
        let outputs = clone_opt_outputs(&self.steps[i].outputs);
        self.set_step_fields(
            i,
            PipelineStepStatus::Failed,
            run_id,
            outputs,
            Some(StepError { rejected: true, message: feedback }),
        );
        Ok(i)
    }

    /// Completes a running step: `Running -> Completed`, recording its
    /// outputs.  Returns the step's index.
    pub fn complete_step(&mut self, step_id: &str, outputs: Option<StepOutputs>) -> (r: Result<
        usize,
        EngineError,
    >)
        requires
            old(self).wf(),
        ensures
            final(self).wf(),
            transitions_allowed(*old(self), *final(self)),
            match r {
                Ok(i) => {
                    &&& 0 <= i < old(self).steps@.len()
                    &&& i as int == old(self).index_of(step_id@)
                    &&& old(self).has_step(step_id@)
                    &&& old(self).status_of(step_id@) is Running
                    &&& final(self).steps@ == old(self).steps@.update(
                        i as int,
                        (step_with(
                            old(self).steps@[i as int],
                            PipelineStepStatus::Completed,
                            old(self).steps@[i as int].agent_run_id,
                            outputs,
                            old(self).steps@[i as int].error,
                        )),
                    )
                },
                Err(e) => *final(self) == *old(self) && (match e {
                    EngineError::NotFound { kind } => kind is Step && !old(self).has_step(
                        step_id@,
                    ),
                    EngineError::InvalidStateTransition { required, actual } => {
                        &&& required is Running
                        &&& old(self).has_step(step_id@)
                        &&& actual == old(self).status_of(step_id@)
                        &&& !(actual is Running)
                    },
                    _ => false,
                }),
            },
    {
        let i = match self.locate_step(step_id, RequiredStatus::Running) {
            Ok(i) => i,
            Err(e) => {
                return Err(e);
            },
        };
        let run_id = clone_opt_string(&self.steps[i].agent_run_id);
        let error = clone_opt_error(&self.steps[i].error);
        self.set_step_fields(i, PipelineStepStatus::Completed, run_id, outputs, error);
        Ok(i)
    }

    /// Fails a running step: `Running -> Failed`, recording the error.
    /// Returns the step's index.
    pub fn fail_step(&mut self, step_id: &str, error: Option<StepError>) -> (r: Result<
        usize,
        EngineError,
    >)
        requires
            old(self).wf(),
        ensures
            final(self).wf(),
            transitions_allowed(*old(self), *final(self)),
            match r {
                Ok(i) => {
                    &&& 0 <= i < old(self).steps@.len()
                    &&& i as int == old(self).index_of(step_id@)
                    &&& old(self).has_step(step_id@)
                    &&& old(self).status_of(step_id@) is Running
                    &&& final(self).steps@ == old(self).steps@.update(
                        i as int,
                        (step_with(
                            old(self).steps@[i as int],
                            PipelineStepStatus::Failed,
                            old(self).steps@[i as int].agent_run_id,
                            old(self).steps@[i as int].outputs,
                            error,
                        )),
                    )
                },
                Err(e) => *final(self) == *old(self) && (match e {
                    EngineError::NotFound { kind } => kind is Step && !old(self).has_step(
                        step_id@,
                    ),
                    EngineError::InvalidStateTransition { required, actual } => {
                        &&& required is Running
                        &&& old(self).has_step(step_id@)
                        &&& actual == old(self).status_of(step_id@)
                        &&& !(actual is Running)
                    },
                    _ => false,
                }),
            },
    {
        let i = match self.locate_step(step_id, RequiredStatus::Running) {
            Ok(i) => i,
            Err(e) => {
                return Err(e);
            },
        };
        let run_id = clone_opt_string(&self.steps[i].agent_run_id);
        let outputs = clone_opt_outputs(&self.steps[i].outputs);
        self.set_step_fields(i, PipelineStepStatus::Failed, run_id, outputs, error);
        Ok(i)
    }

    /// The output summary carried by the step immediately preceding the
    /// named one: what a chained run is handed as its predecessor's output.
    /// Nothing when the step is unknown, first, or its predecessor carries
    /// no summary.
    pub fn previous_step_summary(&self, step_id: &str) -> (r: Option<String>)
        requires
            self.wf(),
        ensures
            ({
                if self.has_step(step_id@) {
                    let i = self.index_of(step_id@);
                    if i > 0 {
                        match self.steps@[i - 1].outputs {
                            Some(o) => match o.summary {
                                Some(x) => r matches Some(s) && s == x,
                                None => r is None,
                            },
                            None => r is None,
                        }
                    } else {
                        r is None
                    }
                } else {
                    r is None
                }
            }),
    {
        let i = match self.find_step(step_id) {
            Some(i) => i,
            None => {
                return None;
            },
        };
        proof {
            self.lemma_index_of_unique(step_id@, i as int);
        }
        if i == 0 {
            return None;
        }
        match &self.steps[i - 1].outputs {
            Some(o) => clone_opt_string(&o.summary),
            None => None,
        }
    }

    /// Binds a running step to the agent run driving it.  Only the run
    /// binding changes; no status moves.  Returns the step's index.
    pub fn bind_agent_run(&mut self, step_id: &str, agent_run_id: &str) -> (r: Result<
        usize,
        EngineError,
    >)
        requires
            old(self).wf(),
        ensures
            final(self).wf(),
            transitions_allowed(*old(self), *final(self)),
            match r {
                Ok(i) => {
                    &&& 0 <= i < old(self).steps@.len()
                    &&& i as int == old(self).index_of(step_id@)
                    &&& old(self).has_step(step_id@)
                    &&& old(self).status_of(step_id@) is Running
                    &&& final(self).steps@.len() == old(self).steps@.len()
                    &&& forall|k: int|
                        0 <= k < old(self).steps@.len() && k != i
                            ==> #[trigger] final(self).steps@[k] == old(self).steps@[k]
                    &&& final(self).steps@[i as int].step_id == old(self).steps@[i as int].step_id
                    &&& final(self).steps@[i as int].agent_type
                        == old(self).steps@[i as int].agent_type
                    &&& final(self).steps@[i as int].execution_type
                        == old(self).steps@[i as int].execution_type
                    &&& final(self).steps@[i as int].status is Running
                    &&& (final(self).steps@[i as int].agent_run_id matches Some(rid) && rid@
                        == agent_run_id@)
                    &&& final(self).steps@[i as int].outputs == old(self).steps@[i as int].outputs
                    &&& final(self).steps@[i as int].error == old(self).steps@[i as int].error
                },
                Err(e) => *final(self) == *old(self) && (match e {
                    EngineError::NotFound { kind } => kind is Step && !old(self).has_step(
                        step_id@,
                    ),
                    EngineError::InvalidStateTransition { required, actual } => {
                        &&& required is Running
                        &&& old(self).has_step(step_id@)
                        &&& actual == old(self).status_of(step_id@)
                        &&& !(actual is Running)
                    },
                    _ => false,
                }),
            },
    {
        let i = match self.locate_step(step_id, RequiredStatus::Running) {
            Ok(i) => i,
            Err(e) => {
                return Err(e);
            },
        };
        let outputs = clone_opt_outputs(&self.steps[i].outputs);
        let error = clone_opt_error(&self.steps[i].error);
        self.set_step_fields(
            i,
            PipelineStepStatus::Running,
            Some(agent_run_id.to_owned()),
            outputs,
            error,
        );
        Ok(i)
    }

    /// Retries a failed or skipped step: `Failed | Skipped -> Queued`.  The
    /// step's error and run binding are cleared, and every downstream step
    /// that was skipped is reset to `Queued` as well, since retrying may make
    /// it reachable again.  Steps upstream of the retried one are untouched.
    /// Returns the step's index.
    pub fn retry_step(&mut self, step_id: &str) -> (r: Result<usize, EngineError>)
        requires
            old(self).wf(),
        ensures
            final(self).wf(),
            transitions_allowed(*old(self), *final(self)),
            match r {
                Ok(i) => {
                    &&& 0 <= i < old(self).steps@.len()
                    &&& i as int == old(self).index_of(step_id@)
                    &&& old(self).has_step(step_id@)
                    &&& (old(self).status_of(step_id@) is Failed || old(self).status_of(step_id@)
                        is Skipped)
                    &&& final(self).steps@.len() == old(self).steps@.len()
                    &&& final(self).steps@[i as int] == (step_with(
                        old(self).steps@[i as int],
                        PipelineStepStatus::Queued,
                        None,
                        old(self).steps@[i as int].outputs,
                        None,
                    ))
                    &&& forall|k: int|
                        0 <= k < i ==> #[trigger] final(self).steps@[k] == old(self).steps@[k]
                    &&& forall|k: int|
                        i < k < old(self).steps@.len() ==> #[trigger] final(self).steps@[k] == (
                        if old(self).steps@[k].status is Skipped {
                            step_with(
                                old(self).steps@[k],
                                PipelineStepStatus::Queued,
                                old(self).steps@[k].agent_run_id,
                                old(self).steps@[k].outputs,
                                old(self).steps@[k].error,
                            )
                        } else {
                            old(self).steps@[k]
                        })
                },
                Err(e) => *final(self) == *old(self) && (match e {
                    EngineError::NotFound { kind } => kind is Step && !old(self).has_step(
                        step_id@,
                    ),
                    EngineError::InvalidStateTransition { required, actual } => {
                        &&& required is FailedOrSkipped
                        &&& old(self).has_step(step_id@)
                        &&& actual == old(self).status_of(step_id@)
                        &&& !(actual is Failed || actual is Skipped)
                    },
                    _ => false,
                }),
            },
    {
        let i = match self.locate_step(step_id, RequiredStatus::FailedOrSkipped) {
            Ok(i) => i,
            Err(e) => {
                return Err(e);
            },
        };
        let outputs = clone_opt_outputs(&self.steps[i].outputs);
        self.set_step_fields(i, PipelineStepStatus::Queued, None, outputs, None);
        let n: usize = self.steps.len();
        let mut k: usize = i + 1;
        while k < n
            invariant
                i < k <= n,
                i < n,
                n == self.steps@.len(),
                n == old(self).steps@.len(),
                self.wf(),
                self.steps@[i as int] == (step_with(
                    old(self).steps@[i as int],
                    PipelineStepStatus::Queued,
                    None,
                    old(self).steps@[i as int].outputs,
                    None,
                )),
                forall|t: int| 0 <= t < i ==> #[trigger] self.steps@[t] == old(self).steps@[t],
                forall|t: int|
                    i < t < k ==> #[trigger] self.steps@[t] == (
                    if old(self).steps@[t].status is Skipped {
                        step_with(
                            old(self).steps@[t],
                            PipelineStepStatus::Queued,
                            old(self).steps@[t].agent_run_id,
                            old(self).steps@[t].outputs,
                            old(self).steps@[t].error,
                        )
                    } else {
                        old(self).steps@[t]
                    }),
                forall|t: int|
                    k <= t < n ==> #[trigger] self.steps@[t] == old(self).steps@[t],
            decreases n - k,
        {
            if self.steps[k].status == PipelineStepStatus::Skipped {
                let run_id = clone_opt_string(&self.steps[k].agent_run_id);
                let outs = clone_opt_outputs(&self.steps[k].outputs);
                let err = clone_opt_error(&self.steps[k].error);
                self.set_step_fields(k, PipelineStepStatus::Queued, run_id, outs, err);
            }
            k = k + 1;
        }
        Ok(i)
    }
}

} // verus!
