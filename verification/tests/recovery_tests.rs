use pipeline_engine::agents::AgentRun;
use pipeline_engine::engine::start_step_execution;
use pipeline_engine::models::Ticket;
use pipeline_engine::recovery::{reset_interrupted_pipeline_steps, sweep};
use pipeline_engine::runstore::RunStore;
use pipeline_engine::status::{AgentRunStatus, ExecutionType, PipelineStepStatus};
use pipeline_engine::templates::{pipeline_from_template, PipelineTemplateStep};

fn running_run(session: &str) -> AgentRun {
    AgentRun {
        session_id: session.to_string(),
        ticket_id: "T-1".to_string(),
        epic_id: "E-1".to_string(),
        slice_id: "S-1".to_string(),
        agent_type: "execution".to_string(),
        status: AgentRunStatus::Running,
        started_at: "2024-01-01T00:00:00Z".to_string(),
        completed_at: None,
        input_message: "go".to_string(),
        output_summary: None,
        email_output: None,
    }
}

fn ticket_with_running_step() -> Ticket {
    let steps = vec![
        PipelineTemplateStep {
            step_id: "s1".to_string(),
            agent_type: "execution".to_string(),
            execution_type: ExecutionType::Auto,
            name: None,
            default_inputs: None,
        },
        PipelineTemplateStep {
            step_id: "s2".to_string(),
            agent_type: "execution".to_string(),
            execution_type: ExecutionType::Auto,
            name: None,
            default_inputs: None,
        },
    ];
    let mut pipeline = pipeline_from_template(&steps).unwrap();
    pipeline.start_step("s1", "sess-1").unwrap();
    Ticket {
        ticket_id: "T-1".to_string(),
        epic_id: "E-1".to_string(),
        slice_id: "S-1".to_string(),
        organization: "org".to_string(),
        title: "a ticket".to_string(),
        intent: "do the thing".to_string(),
        description: None,
        ticket_type: "task".to_string(),
        status: "in_progress".to_string(),
        priority: None,
        assignee: None,
        notes: None,
        blocks_tickets: None,
        blocked_by_tickets: None,
        caused_by_tickets: None,
        created_at: 0,
        updated_at: 0,
        created_at_iso: "1970-01-01T00:00:00Z".to_string(),
        updated_at_iso: "1970-01-01T00:00:00Z".to_string(),
        pipeline: Some(pipeline),
    }
}

#[test]
fn scenario_restart_sweep_unsticks_run_and_step() {
    // A run and its step were left running when the process died.
    let mut t = ticket_with_running_step();
    let mut store = RunStore::new();
    store.create_run(running_run("sess-1")).unwrap();

    let (runs_fixed, steps_fixed) = sweep(&mut t, &mut store, "2024-01-02T00:00:00Z");
    assert_eq!(runs_fixed, 1);
    assert_eq!(steps_fixed, 1);

    // The run is failed with a completion time; the step is queued again.
    let run = store.get_run("sess-1").unwrap();
    assert_eq!(run.status, AgentRunStatus::Failed);
    assert_eq!(run.completed_at.as_deref(), Some("2024-01-02T00:00:00Z"));
    let p = t.pipeline.as_ref().unwrap();
    assert_eq!(p.steps[0].status, PipelineStepStatus::Queued);
    assert!(p.steps[0].agent_run_id.is_none());

    // The step is not stuck: it can be started again.
    let r = start_step_execution(&mut t, "s1", "sess-2");
    assert!(r.is_ok());
    assert_eq!(
        t.pipeline.as_ref().unwrap().steps[0].status,
        PipelineStepStatus::Running
    );
}

#[test]
fn initial_run_record_is_visible_to_the_sweep() {
    // The record persisted before execution begins is already running, so
    // a crash before any message arrives still leaves something to flip.
    let ctx = pipeline_engine::agents::TicketContext {
        epic_id: "E-1".to_string(),
        slice_id: "S-1".to_string(),
        ticket_id: "T-1".to_string(),
        title: "t".to_string(),
        intent: "i".to_string(),
    };
    let rec = pipeline_engine::lifecycle::initial_run_record(
        "sess-1".to_string(),
        &ctx,
        pipeline_engine::agents::AgentType::Execution,
        "2024-01-01T00:00:00Z".to_string(),
    );
    assert_eq!(rec.status, AgentRunStatus::Running);
    assert!(rec.completed_at.is_none());
    assert!(rec.output_summary.is_none());
    assert_eq!(rec.input_message, "i");

    let mut t = ticket_with_running_step();
    let mut store = RunStore::new();
    store.create_run(rec).unwrap();
    let (runs_fixed, _) = sweep(&mut t, &mut store, "2024-01-02T00:00:00Z");
    assert_eq!(runs_fixed, 1);
    assert_eq!(store.get_run("sess-1").unwrap().status, AgentRunStatus::Failed);
}

#[test]
fn sweep_leaves_terminal_records_alone() {
    let mut t = ticket_with_running_step();
    {
        let p = t.pipeline.as_mut().unwrap();
        p.complete_step("s1", None).unwrap();
    }
    let mut store = RunStore::new();
    let mut done = running_run("sess-1");
    done.status = AgentRunStatus::Completed;
    done.completed_at = Some("2024-01-01T01:00:00Z".to_string());
    store.create_run(done.clone()).unwrap();

    let (runs_fixed, steps_fixed) = sweep(&mut t, &mut store, "2024-01-02T00:00:00Z");
    assert_eq!(runs_fixed, 0);
    assert_eq!(steps_fixed, 0);
    assert_eq!(store.get_run("sess-1").unwrap(), &done);
    assert_eq!(
        t.pipeline.as_ref().unwrap().steps[0].status,
        PipelineStepStatus::Completed
    );
}

#[test]
fn reset_without_pipeline_changes_nothing() {
    let mut t = ticket_with_running_step();
    t.pipeline = None;
    assert_eq!(reset_interrupted_pipeline_steps(&mut t), 0);
    assert!(t.pipeline.is_none());
}

#[test]
fn run_store_discards_runs_for_retry() {
    let mut store = RunStore::new();
    store.create_run(running_run("sess-1")).unwrap();
    let mut other = running_run("sess-2");
    other.agent_type = "planning".to_string();
    store.create_run(other).unwrap();

    let removed = store.delete_runs_for_ticket_agent("T-1", "execution");
    assert_eq!(removed, 1);
    assert!(store.get_run("sess-1").is_none());
    assert!(store.get_run("sess-2").is_some());
}

#[test]
fn run_store_rejects_duplicate_sessions() {
    let mut store = RunStore::new();
    store.create_run(running_run("sess-1")).unwrap();
    assert!(store.create_run(running_run("sess-1")).is_err());
}

#[test]
fn run_store_updates_existing_run() {
    let mut store = RunStore::new();
    store.create_run(running_run("sess-1")).unwrap();
    let mut updated = running_run("sess-1");
    updated.status = AgentRunStatus::Completed;
    updated.output_summary = Some("all done".to_string());
    store.update_run(updated).unwrap();
    let run = store.get_run("sess-1").unwrap();
    assert_eq!(run.status, AgentRunStatus::Completed);
    assert_eq!(run.output_summary.as_deref(), Some("all done"));
}
