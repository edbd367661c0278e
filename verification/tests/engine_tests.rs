use pipeline_engine::engine::{
    advance_pipeline_after_step, begin_step_run, outputs_from_summary, process_next_step,
    retry_step, run_auto_chain, run_pipeline, start_step_execution, ChainStep, ChainStop,
    PipelineAdvanceResult, PipelineProgressResult,
};
use pipeline_engine::errors::EngineError;
use pipeline_engine::models::Ticket;
use pipeline_engine::pipeline::{StepOutputs, StepError};
use pipeline_engine::runstore::RunStore;
use pipeline_engine::status::{ExecutionType, PipelineStepStatus};
use pipeline_engine::templates::{pipeline_from_template, PipelineTemplateStep};
use pipeline_engine::MAX_AUTO_CHAIN_DEPTH;

fn tstep(id: &str, agent: &str, exec: ExecutionType) -> PipelineTemplateStep {
    PipelineTemplateStep {
        step_id: id.to_string(),
        agent_type: agent.to_string(),
        execution_type: exec,
        name: None,
        default_inputs: None,
    }
}

fn ticket_with_steps(steps: Vec<PipelineTemplateStep>) -> Ticket {
    let pipeline = pipeline_from_template(&steps).unwrap();
    Ticket {
        ticket_id: "T-1".to_string(),
        epic_id: "E-1".to_string(),
        slice_id: "S-1".to_string(),
        organization: "org".to_string(),
        title: "a ticket".to_string(),
        intent: "do the thing".to_string(),
        description: Some("do the thing".to_string()),
        ticket_type: "task".to_string(),
        status: "in_progress".to_string(),
        priority: None,
        assignee: None,
        notes: None,
        blocks_tickets: None,
        blocked_by_tickets: None,
        caused_by_tickets: None,
        created_at: 0,
        updated_at: 0,
        created_at_iso: "1970-01-01T00:00:00Z".to_string(),
        updated_at_iso: "1970-01-01T00:00:00Z".to_string(),
        pipeline: Some(pipeline),
    }
}

fn ok_outcome(summary: &str, next_session: &str) -> ChainStep {
    ChainStep {
        success: true,
        outputs: Some(StepOutputs { summary: Some(summary.to_string()), payload: None }),
        error: None,
        next_session_id: next_session.to_string(),
    }
}

fn failed_outcome(message: &str, next_session: &str) -> ChainStep {
    ChainStep {
        success: false,
        outputs: None,
        error: Some(StepError { rejected: false, message: Some(message.to_string()) }),
        next_session_id: next_session.to_string(),
    }
}

fn step_status(t: &Ticket, id: &str) -> PipelineStepStatus {
    let p = t.pipeline.as_ref().unwrap();
    p.steps.iter().find(|s| s.step_id == id).unwrap().status
}

#[test]
fn scenario_auto_manual_auto_auto_completes_ticket() {
    // A four-step pipeline: automatic, manual, automatic, automatic.
    let t = ticket_with_steps(vec![
        tstep("research", "planning", ExecutionType::Auto),
        tstep("plan", "planning", ExecutionType::Manual),
        tstep("execute", "execution", ExecutionType::Auto),
        tstep("evaluate", "evaluation", ExecutionType::Auto),
    ]);

    // Starting the pipeline runs the first step.
    let mut t = t;
    let r = run_pipeline(&mut t, "sess-1").unwrap();
    assert!(r.started);
    assert_eq!(r.first_step_id.as_deref(), Some("research"));
    assert_eq!(step_status(&t, "research"), PipelineStepStatus::Running);

    // The first step completes; the chain halts at the manual gate.
    let (mut t, report) = run_auto_chain(t, "research", 0, &vec![ok_outcome("r out", "sess-2")]);
    assert_eq!(report.steps_advanced, 1);
    assert_eq!(report.stopped, ChainStop::ManualGate { step_id: "plan".to_string() });
    assert_eq!(step_status(&t, "research"), PipelineStepStatus::Completed);
    assert_eq!(step_status(&t, "plan"), PipelineStepStatus::AwaitingApproval);
    assert_eq!(step_status(&t, "execute"), PipelineStepStatus::Queued);

    // A human approves the gated step; it runs.
    t.pipeline.as_mut().unwrap().approve_step("plan").unwrap();
    assert_eq!(step_status(&t, "plan"), PipelineStepStatus::Running);

    // When its run finishes, reconciliation starts the next automatic step.
    let outs = Some(StepOutputs { summary: Some("plan out".to_string()), payload: None });
    let r = advance_pipeline_after_step(&mut t, "plan", true, outs, None, "sess-3").unwrap();
    assert_eq!(
        r,
        PipelineAdvanceResult::NextAutoStepSpawned {
            step_id: "execute".to_string(),
            session_id: "sess-3".to_string(),
        }
    );

    // The remaining automatic steps chain to completion.
    let (t, report) = run_auto_chain(
        t,
        "execute",
        0,
        &vec![ok_outcome("exec out", "sess-4"), ok_outcome("eval out", "sess-5")],
    );
    assert_eq!(report.steps_advanced, 2);
    assert_eq!(report.stopped, ChainStop::Completed);
    assert_eq!(step_status(&t, "execute"), PipelineStepStatus::Completed);
    assert_eq!(step_status(&t, "evaluate"), PipelineStepStatus::Completed);
    assert_eq!(t.status, "completed");
    assert!(t.pipeline.as_ref().unwrap().is_complete());
}

#[test]
fn scenario_failure_mid_chain_halts_automation() {
    let t = ticket_with_steps(vec![
        tstep("s1", "execution", ExecutionType::Auto),
        tstep("s2", "execution", ExecutionType::Auto),
        tstep("s3", "execution", ExecutionType::Auto),
        tstep("s4", "execution", ExecutionType::Auto),
    ]);
    let mut t = t;
    run_pipeline(&mut t, "sess-1").unwrap();

    let (t, report) = run_auto_chain(
        t,
        "s1",
        0,
        &vec![
            ok_outcome("one", "sess-2"),
            ok_outcome("two", "sess-3"),
            failed_outcome("agent crashed", "sess-4"),
        ],
    );
    assert_eq!(report.steps_advanced, 3);
    assert_eq!(report.stopped, ChainStop::Failed);
    assert_eq!(step_status(&t, "s3"), PipelineStepStatus::Failed);
    assert_eq!(step_status(&t, "s4"), PipelineStepStatus::Queued);
    assert!(t.pipeline.as_ref().unwrap().has_failed());
    assert_ne!(t.status, "completed");
}

#[test]
fn scenario_retry_resumes_and_completes() {
    // Reach the failed state of a mid-chain crash first.
    let t = ticket_with_steps(vec![
        tstep("s1", "execution", ExecutionType::Auto),
        tstep("s2", "execution", ExecutionType::Auto),
        tstep("s3", "execution", ExecutionType::Auto),
        tstep("s4", "execution", ExecutionType::Auto),
    ]);
    let mut t = t;
    run_pipeline(&mut t, "sess-1").unwrap();
    let (mut t, _) = run_auto_chain(
        t,
        "s1",
        0,
        &vec![
            ok_outcome("one", "sess-2"),
            ok_outcome("two", "sess-3"),
            failed_outcome("agent crashed", "sess-4"),
        ],
    );

    // Retrying the failed step resets and re-runs it.
    let mut store = RunStore::new();
    let r = retry_step(&mut t, &mut store, "s3", "sess-5").unwrap();
    assert_eq!(
        r,
        PipelineProgressResult::AgentSpawned {
            step_id: "s3".to_string(),
            session_id: "sess-5".to_string(),
        }
    );
    assert_eq!(step_status(&t, "s3"), PipelineStepStatus::Running);

    // On success, automation resumes and completes the rest.
    let (t, report) = run_auto_chain(
        t,
        "s3",
        0,
        &vec![ok_outcome("three", "sess-6"), ok_outcome("four", "sess-7")],
    );
    assert_eq!(report.stopped, ChainStop::Completed);
    assert_eq!(step_status(&t, "s4"), PipelineStepStatus::Completed);
    assert_eq!(t.status, "completed");
}

#[test]
fn chain_depth_never_exceeds_bound() {
    // Twelve consecutive automatic steps, more outcomes than the bound.
    let mut steps = Vec::new();
    for i in 0..12 {
        steps.push(tstep(&format!("s{}", i), "execution", ExecutionType::Auto));
    }
    let t = ticket_with_steps(steps);
    let mut t = t;
    run_pipeline(&mut t, "sess-0").unwrap();

    let mut outcomes = Vec::new();
    for i in 0..12 {
        outcomes.push(ok_outcome(&format!("out {}", i), &format!("sess-{}", i + 1)));
    }
    let (t, report) = run_auto_chain(t, "s0", 0, &outcomes);
    assert_eq!(report.stopped, ChainStop::DepthLimit);
    assert_eq!(report.steps_advanced as u32, MAX_AUTO_CHAIN_DEPTH);
    // The step past the bound is left queued for a manual nudge.
    assert_eq!(step_status(&t, "s10"), PipelineStepStatus::Queued);
    assert_eq!(step_status(&t, "s9"), PipelineStepStatus::Completed);
}

#[test]
fn process_next_step_honors_depth_limit() {
    let t = ticket_with_steps(vec![
        tstep("s1", "execution", ExecutionType::Auto),
        tstep("s2", "execution", ExecutionType::Auto),
    ]);
    let mut t = t;
    let r = process_next_step(&mut t, "s1", MAX_AUTO_CHAIN_DEPTH, "sess-1").unwrap();
    assert_eq!(r, PipelineProgressResult::MaxDepthReached);
    assert_eq!(step_status(&t, "s2"), PipelineStepStatus::Queued);
}

#[test]
fn unknown_agent_type_is_rejected_without_mutation() {
    let t = ticket_with_steps(vec![tstep("s1", "not-an-agent", ExecutionType::Auto)]);
    let mut t = t;
    let err = run_pipeline(&mut t, "sess-1").unwrap_err();
    assert_eq!(err, EngineError::UnknownAgentType);
    assert_eq!(step_status(&t, "s1"), PipelineStepStatus::Queued);
}

#[test]
fn advance_failure_halts_pipeline() {
    let t = ticket_with_steps(vec![
        tstep("s1", "execution", ExecutionType::Auto),
        tstep("s2", "execution", ExecutionType::Auto),
    ]);
    let mut t = t;
    run_pipeline(&mut t, "sess-1").unwrap();
    let err = Some(StepError { rejected: false, message: Some("broke".to_string()) });
    let r = advance_pipeline_after_step(&mut t, "s1", false, None, err, "sess-2").unwrap();
    assert_eq!(r, PipelineAdvanceResult::PipelineDone { completed: false });
    assert_eq!(step_status(&t, "s1"), PipelineStepStatus::Failed);
    assert_eq!(step_status(&t, "s2"), PipelineStepStatus::Queued);
}

#[test]
fn manual_first_step_awaits_approval_without_invocation() {
    let t = ticket_with_steps(vec![tstep("gate", "planning", ExecutionType::Manual)]);
    let mut t = t;
    let r = run_pipeline(&mut t, "sess-1").unwrap();
    assert!(r.started);
    assert!(r.session_id.is_none());
    assert_eq!(step_status(&t, "gate"), PipelineStepStatus::AwaitingApproval);
}

#[test]
fn begin_step_run_starts_queued_and_approved_steps() {
    let t = ticket_with_steps(vec![
        tstep("auto", "execution", ExecutionType::Auto),
        tstep("gate", "planning", ExecutionType::Manual),
    ]);
    let mut t = t;

    // A queued step starts outright.
    let r = begin_step_run(&mut t, "auto", "sess-1").unwrap();
    assert_eq!(
        r,
        PipelineProgressResult::AgentSpawned {
            step_id: "auto".to_string(),
            session_id: "sess-1".to_string(),
        }
    );
    assert_eq!(step_status(&t, "auto"), PipelineStepStatus::Running);

    // A running step cannot be started again.
    assert!(begin_step_run(&mut t, "auto", "sess-2").is_err());

    // A step awaiting approval is approved and bound in one motion.
    t.pipeline.as_mut().unwrap().await_approval("gate").unwrap();
    let r = begin_step_run(&mut t, "gate", "sess-3").unwrap();
    assert_eq!(
        r,
        PipelineProgressResult::AgentSpawned {
            step_id: "gate".to_string(),
            session_id: "sess-3".to_string(),
        }
    );
    assert_eq!(step_status(&t, "gate"), PipelineStepStatus::Running);
    let p = t.pipeline.as_ref().unwrap();
    let gate = p.steps.iter().find(|s| s.step_id == "gate").unwrap();
    assert_eq!(gate.agent_run_id.as_deref(), Some("sess-3"));
}

#[test]
fn step_outputs_come_from_the_run_summary() {
    let outs = outputs_from_summary(&Some("all findings".to_string())).unwrap();
    assert_eq!(outs.summary.as_deref(), Some("all findings"));
    assert!(outs.payload.is_none());
    assert!(outputs_from_summary(&None).is_none());
}

#[test]
fn missing_pipeline_is_a_not_found_error() {
    let mut t = ticket_with_steps(vec![tstep("s1", "execution", ExecutionType::Auto)]);
    t.pipeline = None;
    let err = start_step_execution(&mut t, "s1", "sess-1").unwrap_err();
    assert_eq!(
        err,
        EngineError::NotFound { kind: pipeline_engine::errors::NotFoundKind::Pipeline }
    );
}

#[test]
fn duplicate_template_step_ids_are_rejected() {
    let steps = vec![
        tstep("same", "execution", ExecutionType::Auto),
        tstep("same", "evaluation", ExecutionType::Auto),
    ];
    assert!(pipeline_from_template(&steps).is_err());
}

#[test]
fn default_templates_instantiate_queued_pipelines() {
    let templates = pipeline_engine::templates::get_default_templates();
    assert_eq!(templates.len(), 5);
    assert_eq!(templates[0].template_id, "standard-dev");
    for tpl in &templates {
        let p = pipeline_from_template(&tpl.steps).unwrap();
        assert_eq!(p.steps.len(), tpl.steps.len());
        assert!(p.steps.iter().all(|s| s.status == PipelineStepStatus::Queued));
    }
}

#[test]
fn start_step_execution_validates_source_state() {
    let t = ticket_with_steps(vec![tstep("s1", "execution", ExecutionType::Auto)]);
    let mut t = t;
    start_step_execution(&mut t, "s1", "sess-1").unwrap();
    let err = start_step_execution(&mut t, "s1", "sess-2").unwrap_err();
    assert!(matches!(err, EngineError::InvalidStateTransition { .. }));
}
