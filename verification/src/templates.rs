//! Pipeline templates: reusable step definitions a ticket's pipeline is
//! instantiated from, and the default templates seeded at startup.

use vstd::prelude::*;
use crate::errors::EngineError;
use crate::pipeline::{Pipeline, PipelineStep};
use crate::status::{ExecutionType, PipelineStepStatus};
use crate::strutil::str_eq;

verus! {

/// One step of a pipeline template.
#[derive(Clone, Debug, PartialEq)]
pub struct PipelineTemplateStep {
    pub step_id: String,
    pub agent_type: String,
    pub execution_type: ExecutionType,
    pub name: Option<String>,
    pub default_inputs: Option<String>,
}

/// Request to create a pipeline template.
#[derive(Clone, Debug, PartialEq)]
pub struct CreatePipelineTemplateRequest {
    pub template_id: String,
    pub name: String,
    pub description: Option<String>,
    pub organization: Option<String>,
    pub epic_id: Option<String>,
    pub slice_id: Option<String>,
    pub steps: Vec<PipelineTemplateStep>,
}

/// Query narrowing a template listing.
#[derive(Clone, Debug, PartialEq)]
pub struct ListTemplatesQuery {
    pub organization: Option<String>,
    pub epic_id: Option<String>,
    pub slice_id: Option<String>,
}

/// Template step identifiers are pairwise distinct.
pub open spec fn template_steps_distinct(s: Seq<PipelineTemplateStep>) -> bool {
    forall|i: int, j: int|
        0 <= i < j < s.len() ==> #[trigger] s[i].step_id@ != #[trigger] s[j].step_id@
}

/// Instantiates a pipeline from template steps: every step queued, in
/// template order, carrying its template's identifier and agent kind.
/// Duplicate step identifiers are rejected at instantiation, which keeps
/// the pipeline's uniqueness invariant.
pub fn pipeline_from_template(steps: &Vec<PipelineTemplateStep>) -> (r: Result<
    Pipeline,
    EngineError,
>)
    ensures
        match r {
            Ok(p) => {
                &&& template_steps_distinct(steps@)
                &&& p.wf()
                &&& p.steps@.len() == steps@.len()
                &&& forall|i: int|
                    0 <= i < steps@.len() ==> {
                        let ps = #[trigger] p.steps@[i];
                        &&& ps.step_id == steps@[i].step_id
                        &&& ps.agent_type == steps@[i].agent_type
                        &&& ps.execution_type == steps@[i].execution_type
                        &&& ps.status is Queued
                        &&& ps.agent_run_id is None
                        &&& ps.outputs is None
                        &&& ps.error is None
                    }
            },
            Err(e) => e is PersistenceError && !template_steps_distinct(steps@),
        },
{
    let n: usize = steps.len();
    let mut i: usize = 0;
    while i < n
        invariant
            0 <= i <= n,
            n == steps@.len(),
            forall|a: int, b: int|
                0 <= a < b < steps@.len() && b < i ==> #[trigger] steps@[a].step_id@
                    != #[trigger] steps@[b].step_id@,
        decreases n - i,
    {
        let mut j: usize = 0;
        while j < i
            invariant
                0 <= j <= i < n,
                n == steps@.len(),
                forall|a: int| 0 <= a < j ==> #[trigger] steps@[a].step_id@ != steps@[i as int].step_id@,
            decreases i - j,
        {
            if str_eq(steps[j].step_id.as_str(), steps[i].step_id.as_str()) {
                return Err(EngineError::PersistenceError);
            }
            j = j + 1;
        }
        i = i + 1;
    }
    let mut out: Vec<PipelineStep> = Vec::new();
    let mut k: usize = 0;
    while k < n
        invariant
            0 <= k <= n,
            n == steps@.len(),
            out@.len() == k,
            forall|i2: int|
                0 <= i2 < k ==> {
                    let ps = #[trigger] out@[i2];
                    &&& ps.step_id == steps@[i2].step_id
                    &&& ps.agent_type == steps@[i2].agent_type
                    &&& ps.execution_type == steps@[i2].execution_type
                    &&& ps.status is Queued
                    &&& ps.agent_run_id is None
                    &&& ps.outputs is None
                    &&& ps.error is None
                },
        decreases n - k,
    {
        let t = &steps[k];
        out.push(
            PipelineStep {
                step_id: t.step_id.clone(),
                agent_type: t.agent_type.clone(),
                execution_type: t.execution_type,
                status: PipelineStepStatus::Queued,
                agent_run_id: None,
                outputs: None,
                error: None,
            },
        );
        k = k + 1;
    }
    Ok(Pipeline { steps: out })
}

/// Builds one template step.
fn template_step(
    step_id: &str,
    agent_type: &str,
    execution_type: ExecutionType,
    name: &str,
) -> (r: PipelineTemplateStep)
    ensures
        r.step_id@ == step_id@,
        r.agent_type@ == agent_type@,
        r.execution_type == execution_type,
        r.name matches Some(nm) && nm@ == name@,
        r.default_inputs is None,
{
    PipelineTemplateStep {
        step_id: step_id.to_owned(),
        agent_type: agent_type.to_owned(),
        execution_type,
        name: Some(name.to_owned()),
        default_inputs: None,
    }
}

/// Builds one global template request.
fn template(template_id: &str, name: &str, description: &str, steps: Vec<PipelineTemplateStep>)
    -> (r: CreatePipelineTemplateRequest)
    ensures
        r.template_id@ == template_id@,
        r.name@ == name@,
        r.description matches Some(d) && d@ == description@,
        r.organization is None,
        r.epic_id is None,
        r.slice_id is None,
        r.steps == steps,
{
    CreatePipelineTemplateRequest {
        template_id: template_id.to_owned(),
        name: name.to_owned(),
        description: Some(description.to_owned()),
        organization: None,
        epic_id: None,
        slice_id: None,
        steps,
    }
}

/// The default pipeline templates seeded at startup: the standard
/// development flow, a research-only flow, a quick fix, a fully gated
/// review, and a vendor evaluation.  Each is global and non-empty.
pub fn get_default_templates() -> (r: Vec<CreatePipelineTemplateRequest>)
    ensures
        r@.len() == 5,
        forall|i: int| 0 <= i < r@.len() ==> #[trigger] r@[i].steps@.len() > 0,
{
    let mut standard: Vec<PipelineTemplateStep> = Vec::new();
    standard.push(
        template_step("research", "technical-research", ExecutionType::Auto, "Research codebase"),
    );
    standard.push(
        template_step("plan", "planning", ExecutionType::Manual, "Review implementation plan"),
    );
    standard.push(template_step("execute", "execution", ExecutionType::Auto, "Implement changes"));
    standard.push(
        template_step("evaluate", "evaluation", ExecutionType::Auto, "Verify implementation"),
    );
    let mut research: Vec<PipelineTemplateStep> = Vec::new();
    research.push(
        template_step("research", "technical-research", ExecutionType::Auto, "Deep research"),
    );
    research.push(template_step("review", "planning", ExecutionType::Manual, "Review findings"));
    let mut quick: Vec<PipelineTemplateStep> = Vec::new();
    quick.push(template_step("execute", "execution", ExecutionType::Auto, "Make fix"));
    quick.push(template_step("evaluate", "evaluation", ExecutionType::Auto, "Verify fix"));
    let mut full: Vec<PipelineTemplateStep> = Vec::new();
    full.push(
        template_step("research", "technical-research", ExecutionType::Auto, "Understand impact"),
    );
    full.push(template_step("plan", "planning", ExecutionType::Manual, "Review plan"));
    full.push(template_step("execute", "execution", ExecutionType::Auto, "Implement"));
    full.push(
        template_step("evaluate", "evaluation", ExecutionType::Manual, "Human review of changes"),
    );
    let mut vendor: Vec<PipelineTemplateStep> = Vec::new();
    vendor.push(
        template_step("vendor-research", "vendor-research", ExecutionType::Auto, "Research vendors"),
    );
    vendor.push(
        template_step("competitive", "competitive-research", ExecutionType::Auto, "Compare options"),
    );
    vendor.push(
        template_step("review", "planning", ExecutionType::Manual, "Review recommendations"),
    );
    let mut out: Vec<CreatePipelineTemplateRequest> = Vec::new();
    out.push(
        template(
            "standard-dev",
            "Standard Development",
            "Research, plan review, execute, and evaluate. Best for most feature work.",
            standard,
        ),
    );
    out.push(
        template(
            "research-only",
            "Research Only",
            "Deep dive research followed by findings review. For investigation tasks.",
            research,
        ),
    );
    out.push(
        template(
            "quick-fix",
            "Quick Fix",
            "Execute and verify. For simple bug fixes or small changes.",
            quick,
        ),
    );
    out.push(
        template(
            "full-review",
            "Full Review",
            "Research, plan review, execute, human review. For risky or complex changes.",
            full,
        ),
    );
    out.push(
        template(
            "vendor-eval",
            "Vendor Evaluation",
            "Research vendors, compare options, review recommendations.",
            vendor,
        ),
    );
    out
}

} // verus!
