use pipeline_engine::errors::{EngineError, NotFoundKind, RequiredStatus};
use pipeline_engine::pipeline::{Pipeline, PipelineStatus, PipelineStep, StepError, StepOutputs};
use pipeline_engine::status::{ExecutionType, PipelineStepStatus};

fn step(id: &str, agent: &str, exec: ExecutionType, status: PipelineStepStatus) -> PipelineStep {
    PipelineStep {
        step_id: id.to_string(),
        agent_type: agent.to_string(),
        execution_type: exec,
        status,
        agent_run_id: None,
        outputs: None,
        error: None,
    }
}

fn two_step_pipeline() -> Pipeline {
    Pipeline {
        steps: vec![
            step("one", "execution", ExecutionType::Auto, PipelineStepStatus::Queued),
            step("two", "evaluation", ExecutionType::Auto, PipelineStepStatus::Queued),
        ],
    }
}

#[test]
fn start_step_requires_queued() {
    let mut p = two_step_pipeline();
    assert!(p.start_step("one", "run-1").is_ok());
    assert_eq!(p.steps[0].status, PipelineStepStatus::Running);
    assert_eq!(p.steps[0].agent_run_id.as_deref(), Some("run-1"));
    let err = p.start_step("one", "run-2").unwrap_err();
    assert_eq!(
        err,
        EngineError::InvalidStateTransition {
            required: RequiredStatus::Queued,
            actual: PipelineStepStatus::Running,
        }
    );
}

#[test]
fn start_step_unknown_id_is_not_found() {
    let mut p = two_step_pipeline();
    let err = p.start_step("missing", "run-1").unwrap_err();
    assert_eq!(err, EngineError::NotFound { kind: NotFoundKind::Step });
}

#[test]
fn complete_step_records_outputs() {
    let mut p = two_step_pipeline();
    p.start_step("one", "run-1").unwrap();
    let outputs = Some(StepOutputs { summary: Some("done".to_string()), payload: None });
    p.complete_step("one", outputs).unwrap();
    assert_eq!(p.steps[0].status, PipelineStepStatus::Completed);
    assert_eq!(
        p.steps[0].outputs.as_ref().unwrap().summary.as_deref(),
        Some("done")
    );
}

#[test]
fn complete_step_requires_running() {
    let mut p = two_step_pipeline();
    let err = p.complete_step("one", None).unwrap_err();
    assert_eq!(
        err,
        EngineError::InvalidStateTransition {
            required: RequiredStatus::Running,
            actual: PipelineStepStatus::Queued,
        }
    );
}

#[test]
fn fail_step_records_error() {
    let mut p = two_step_pipeline();
    p.start_step("one", "run-1").unwrap();
    let error = Some(StepError { rejected: false, message: Some("boom".to_string()) });
    p.fail_step("one", error).unwrap();
    assert_eq!(p.steps[0].status, PipelineStepStatus::Failed);
    assert_eq!(
        p.steps[0].error.as_ref().unwrap().message.as_deref(),
        Some("boom")
    );
}

#[test]
fn approve_and_reject_require_awaiting_approval() {
    let mut p = two_step_pipeline();
    assert!(p.approve_step("one").is_err());
    p.await_approval("one").unwrap();
    assert_eq!(p.steps[0].status, PipelineStepStatus::AwaitingApproval);
    p.approve_step("one").unwrap();
    assert_eq!(p.steps[0].status, PipelineStepStatus::Running);

    p.await_approval("two").unwrap();
    p.reject_step("two", Some("not yet".to_string())).unwrap();
    assert_eq!(p.steps[1].status, PipelineStepStatus::Failed);
    let err = p.steps[1].error.as_ref().unwrap();
    assert!(err.rejected);
    assert_eq!(err.message.as_deref(), Some("not yet"));
}

#[test]
fn retry_resets_step_and_unskips_downstream() {
    let mut p = Pipeline {
        steps: vec![
            step("a", "execution", ExecutionType::Auto, PipelineStepStatus::Completed),
            step("b", "execution", ExecutionType::Auto, PipelineStepStatus::Failed),
            step("c", "execution", ExecutionType::Auto, PipelineStepStatus::Skipped),
            step("d", "execution", ExecutionType::Auto, PipelineStepStatus::Queued),
        ],
    };
    p.steps[1].error = Some(StepError { rejected: false, message: Some("x".to_string()) });
    p.steps[1].agent_run_id = Some("run-b".to_string());

    p.retry_step("b").unwrap();
    assert_eq!(p.steps[0].status, PipelineStepStatus::Completed);
    assert_eq!(p.steps[1].status, PipelineStepStatus::Queued);
    assert!(p.steps[1].error.is_none());
    assert!(p.steps[1].agent_run_id.is_none());
    assert_eq!(p.steps[2].status, PipelineStepStatus::Queued);
    assert_eq!(p.steps[3].status, PipelineStepStatus::Queued);
}

#[test]
fn retry_requires_failed_or_skipped() {
    let mut p = two_step_pipeline();
    let err = p.retry_step("one").unwrap_err();
    assert_eq!(
        err,
        EngineError::InvalidStateTransition {
            required: RequiredStatus::FailedOrSkipped,
            actual: PipelineStepStatus::Queued,
        }
    );
}

#[test]
fn previous_step_summary_feeds_chaining() {
    let mut p = two_step_pipeline();
    p.start_step("one", "run-1").unwrap();
    let outputs = Some(StepOutputs { summary: Some("findings".to_string()), payload: None });
    p.complete_step("one", outputs).unwrap();

    assert_eq!(p.previous_step_summary("two"), Some("findings".to_string()));
    // The first step has no predecessor, and unknown steps yield nothing.
    assert_eq!(p.previous_step_summary("one"), None);
    assert_eq!(p.previous_step_summary("zzz"), None);
}

#[test]
fn completion_and_failure_queries() {
    let mut p = Pipeline {
        steps: vec![
            step("a", "execution", ExecutionType::Auto, PipelineStepStatus::Completed),
            step("b", "execution", ExecutionType::Auto, PipelineStepStatus::Skipped),
        ],
    };
    assert!(p.is_complete());
    assert!(!p.has_failed());
    assert_eq!(p.status(), PipelineStatus::Completed);

    p.steps[1].status = PipelineStepStatus::Failed;
    assert!(!p.is_complete());
    assert!(p.has_failed());
    assert_eq!(p.status(), PipelineStatus::Failed);
}

#[test]
fn derived_status_not_started_and_running() {
    let mut p = two_step_pipeline();
    assert_eq!(p.status(), PipelineStatus::NotStarted);
    p.start_step("one", "run-1").unwrap();
    assert_eq!(p.status(), PipelineStatus::Running);
}

#[test]
fn empty_pipeline_is_vacuously_complete() {
    let p = Pipeline { steps: Vec::new() };
    assert!(p.is_complete());
    assert!(!p.has_failed());
}
