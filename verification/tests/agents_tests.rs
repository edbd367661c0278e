use pipeline_engine::agents::{
    build_prompt_vars, build_ticket_context, combine_context, initial_prompt, parse_agent_status,
    parse_agent_type, AgentConfig, AgentExecutor, AgentType, AgentsConfig, EmailOutput,
    TicketContext,
};
use pipeline_engine::artifacts::{artifact_content, artifact_dir, artifact_relative_path};
use pipeline_engine::extract::{generate_meeting_title, parse_selected_ticket};
use pipeline_engine::lifecycle::{
    finalize_run, get_event_type, join_output_parts, summarize_output, AgentMessage,
    RunAccumulator, StreamEvent, OUTPUT_SUMMARY_MAX,
};
use pipeline_engine::status::AgentRunStatus;

#[test]
fn agent_type_names_round_trip() {
    let all = vec![
        AgentType::Planning,
        AgentType::Execution,
        AgentType::Evaluation,
        AgentType::Email,
        AgentType::WorkspaceManager,
        AgentType::MeetingNotes,
        AgentType::TicketAssistant,
        AgentType::ExaResearch,
        AgentType::ResearchSynthesis,
        AgentType::TicketPlanner,
        AgentType::TicketCreator,
        AgentType::DocDrafter,
        AgentType::LifePlanner,
        AgentType::PullTicket,
    ];
    for t in all {
        assert_eq!(parse_agent_type(t.as_str()), Some(t));
    }
    assert_eq!(parse_agent_type("nonsense"), None);
    assert_eq!(AgentType::WorkspaceManager.as_str(), "workspace-manager");
}

#[test]
fn agent_status_names_parse() {
    assert_eq!(parse_agent_status("running"), AgentRunStatus::Running);
    assert_eq!(parse_agent_status("completed"), AgentRunStatus::Completed);
    assert_eq!(parse_agent_status("failed"), AgentRunStatus::Failed);
    assert_eq!(parse_agent_status("cancelled"), AgentRunStatus::Cancelled);
    // An unknown legacy name reads as a completed run.
    assert_eq!(parse_agent_status("archived"), AgentRunStatus::Completed);
}

fn sample_config() -> AgentsConfig {
    AgentsConfig {
        models: vec![("fast".to_string(), "model-fast-1".to_string())],
        agents: vec![(
            "execution".to_string(),
            AgentConfig {
                model: "fast".to_string(),
                max_turns: Some(12),
                prompt_file: "execution.txt".to_string(),
                tools: vec!["Read".to_string(), "Edit".to_string()],
                working_dir: None,
            },
        )],
    }
}

#[test]
fn model_aliases_resolve() {
    let cfg = sample_config();
    assert_eq!(cfg.resolve_model("fast"), "model-fast-1");
    assert_eq!(cfg.resolve_model("model-direct"), "model-direct");
}

#[test]
fn agent_configuration_lookups() {
    let cfg = sample_config();
    let t = AgentType::Execution;
    assert!(t.config(&cfg).is_some());
    assert_eq!(t.model(&cfg), "model-fast-1");
    assert_eq!(t.max_turns(&cfg), Some(12));
    assert_eq!(t.allowed_tools(&cfg), vec!["Read", "Edit"]);
    assert!(t.working_dir_template(&cfg).is_none());
    assert!(AgentType::Planning.config(&cfg).is_none());
}

#[test]
fn ticket_context_builder_copies_fields() {
    let ctx = build_ticket_context("E-1", "S-1", "T-1", "title".to_string(), "intent".to_string());
    assert_eq!(ctx.epic_id, "E-1");
    assert_eq!(ctx.slice_id, "S-1");
    assert_eq!(ctx.ticket_id, "T-1");
    assert_eq!(ctx.title, "title");
    assert_eq!(ctx.intent, "intent");
    let ex = AgentExecutor::new("/work".to_string());
    assert_eq!(ex.working_dir, "/work");
}

#[test]
fn email_parse_extracts_trimmed_fields() {
    let text = "preamble <email>\n<to> alice@example.com </to>\n<cc>bob@example.com</cc>\n<subject> Hi </subject>\n<body>\nLine one.\n</body>\n</email>\n<notes> follow up soon </notes>";
    let mail = EmailOutput::parse(text).unwrap();
    assert_eq!(mail.to, "alice@example.com");
    assert_eq!(mail.cc.as_deref(), Some("bob@example.com"));
    assert_eq!(mail.subject, "Hi");
    assert_eq!(mail.body, "Line one.");
    assert_eq!(mail.notes.as_deref(), Some("follow up soon"));
}

#[test]
fn email_parse_without_required_tags_is_none() {
    assert!(EmailOutput::parse("no email here").is_none());
    assert!(EmailOutput::parse("<email><to>x</to><subject>s</subject></email>").is_none());
    // A closing tag before the opening tag carries no email.
    assert!(EmailOutput::parse("</email> stray <email>").is_none());
}

#[test]
fn email_parse_cc_and_notes_are_optional() {
    let text = "<email><to>a@b.c</to><subject>s</subject><body>b</body></email>";
    let mail = EmailOutput::parse(text).unwrap();
    assert!(mail.cc.is_none());
    assert!(mail.notes.is_none());
}

#[test]
fn accumulator_normalizes_messages() {
    let mut acc = RunAccumulator::new("placeholder".to_string());
    let (e1, done1) = acc.process_message(&AgentMessage::Text { content: "part one".to_string() });
    assert!(!done1);
    assert_eq!(e1, StreamEvent::Text { content: "part one".to_string() });
    let (e2, done2) = acc.process_message(&AgentMessage::ToolUse {
        id: "t1".to_string(),
        name: "Read".to_string(),
        input: "{}".to_string(),
    });
    assert!(!done2);
    assert_eq!(get_event_type(&e2), "tool_use");
    let (e3, done3) = acc.process_message(&AgentMessage::Result {
        session_id: "real-session".to_string(),
        subtype: "success".to_string(),
        is_error: false,
    });
    assert!(done3);
    assert_eq!(get_event_type(&e3), "result");
    assert_eq!(acc.session_id, "real-session");
    assert_eq!(acc.status, AgentRunStatus::Completed);
    assert_eq!(acc.output_parts, vec!["part one".to_string()]);
}

#[test]
fn accumulator_error_result_fails_run() {
    let mut acc = RunAccumulator::new("p".to_string());
    acc.process_message(&AgentMessage::Result {
        session_id: "s".to_string(),
        subtype: "error_during_execution".to_string(),
        is_error: true,
    });
    assert_eq!(acc.status, AgentRunStatus::Failed);
}

#[test]
fn status_inference_falls_back_on_output() {
    let mut with_text = RunAccumulator::new("p".to_string());
    with_text.process_message(&AgentMessage::Text { content: "something".to_string() });
    assert_eq!(with_text.infer_status(), AgentRunStatus::Completed);

    let silent = RunAccumulator::new("p".to_string());
    assert_eq!(silent.infer_status(), AgentRunStatus::Failed);
}

#[test]
fn output_parts_join_with_blank_lines() {
    let parts = vec!["a".to_string(), "b".to_string(), "c".to_string()];
    assert_eq!(join_output_parts(&parts), "a\n\nb\n\nc");
    assert_eq!(summarize_output(&Vec::new()), None);
    assert_eq!(summarize_output(&parts).as_deref(), Some("a\n\nb\n\nc"));
}

#[test]
fn long_output_is_truncated_with_marker() {
    let big = "x".repeat(OUTPUT_SUMMARY_MAX + 50);
    let parts = vec![big];
    let summary = summarize_output(&parts).unwrap();
    assert!(summary.ends_with("...\n\n[Output truncated]"));
    assert_eq!(
        summary.len(),
        OUTPUT_SUMMARY_MAX + "...\n\n[Output truncated]".len()
    );
}

#[test]
fn finalize_run_builds_terminal_record() {
    let mut acc = RunAccumulator::new("placeholder".to_string());
    acc.process_message(&AgentMessage::Text { content: "did it".to_string() });
    let ctx = TicketContext {
        epic_id: "E-1".to_string(),
        slice_id: "S-1".to_string(),
        ticket_id: "T-1".to_string(),
        title: "t".to_string(),
        intent: "i".to_string(),
    };
    let run = finalize_run(
        &acc,
        AgentType::Execution,
        &ctx,
        "2024-01-01T00:00:00Z".to_string(),
        "2024-01-01T00:05:00Z".to_string(),
    );
    assert_eq!(run.session_id, "placeholder");
    assert_eq!(run.agent_type, "execution");
    assert_eq!(run.status, AgentRunStatus::Completed);
    assert_eq!(run.completed_at.as_deref(), Some("2024-01-01T00:05:00Z"));
    assert_eq!(run.output_summary.as_deref(), Some("did it"));
    assert!(run.email_output.is_none());
}

#[test]
fn finalize_run_parses_email_agent_output() {
    let mut acc = RunAccumulator::new("p".to_string());
    acc.process_message(&AgentMessage::Text {
        content: "<email><to>a@b.c</to><subject>s</subject><body>hello</body></email>".to_string(),
    });
    let ctx = TicketContext {
        epic_id: "E".to_string(),
        slice_id: "S".to_string(),
        ticket_id: "T".to_string(),
        title: "t".to_string(),
        intent: "i".to_string(),
    };
    let run = finalize_run(&acc, AgentType::Email, &ctx, "a".to_string(), "b".to_string());
    let mail = run.email_output.unwrap();
    assert_eq!(mail.to, "a@b.c");
    assert_eq!(mail.body, "hello");
}

#[test]
fn prompt_vars_carry_ticket_and_chaining_context() {
    let ctx = TicketContext {
        epic_id: "E-1".to_string(),
        slice_id: "S-1".to_string(),
        ticket_id: "T-1".to_string(),
        title: "A title".to_string(),
        intent: "An intent".to_string(),
    };
    let vars = build_prompt_vars(
        AgentType::Execution,
        &ctx,
        Some("the plan".to_string()),
        None,
        None,
    );
    assert_eq!(vars[0], ("epic_id".to_string(), "E-1".to_string()));
    assert_eq!(vars[4], ("ticket_intent".to_string(), "An intent".to_string()));
    assert_eq!(vars[5], ("previous_output".to_string(), "the plan".to_string()));
    // The execution agent reads its predecessor's output as the plan.
    assert_eq!(vars[6], ("plan_output".to_string(), "the plan".to_string()));
    assert_eq!(
        vars[7],
        (
            "selected_context".to_string(),
            "(No previous agent outputs selected)".to_string()
        )
    );
    assert_eq!(vars[8].0, "sender_info");
    assert_eq!(vars.len(), 9);

    let bare = build_prompt_vars(AgentType::Email, &ctx, None, Some("ctx".to_string()), None);
    assert_eq!(bare.len(), 7);
    assert_eq!(bare[5], ("selected_context".to_string(), "ctx".to_string()));
}

#[test]
fn initial_prompt_names_title_and_intent() {
    let ctx = TicketContext {
        epic_id: "E".to_string(),
        slice_id: "S".to_string(),
        ticket_id: "T".to_string(),
        title: "Fix login".to_string(),
        intent: "Users cannot log in".to_string(),
    };
    assert_eq!(
        initial_prompt(&ctx),
        "Work on this ticket:\n\nTitle: Fix login\nIntent: Users cannot log in"
    );
}

#[test]
fn context_blocks_combine_with_blank_line() {
    assert_eq!(
        combine_context(Some("a".to_string()), Some("b".to_string())),
        Some("a\n\nb".to_string())
    );
    assert_eq!(combine_context(Some("a".to_string()), None), Some("a".to_string()));
    assert_eq!(combine_context(None, Some("b".to_string())), Some("b".to_string()));
    assert_eq!(combine_context(None, None), None);
}

#[test]
fn artifact_paths_follow_agent_kind() {
    assert_eq!(artifact_dir("technical-research"), "docs/research");
    assert_eq!(artifact_dir("planning"), "docs/planning");
    assert_eq!(artifact_dir("evaluation"), "docs/evaluation");
    assert_eq!(artifact_dir("email"), "docs/agent-output");
    assert_eq!(
        artifact_relative_path("T-9", "planning"),
        "docs/planning/T-9-planning.md"
    );
}

#[test]
fn artifact_content_carries_frontmatter_and_output() {
    let doc = artifact_content("T-9", "planning", "2024-01-01T00:00:00Z", "My title", "Body.");
    assert_eq!(
        doc,
        "---\nticket_id: T-9\nagent_type: planning\ngenerated_at: 2024-01-01T00:00:00Z\ntitle: My title\n---\n\n# My title\n\nBody.\n"
    );
}

#[test]
fn selected_ticket_extraction() {
    assert_eq!(
        parse_selected_ticket("I pick <selected_ticket> T-42 </selected_ticket> for now"),
        Some("T-42".to_string())
    );
    assert_eq!(parse_selected_ticket("no tags at all"), None);
    assert_eq!(
        parse_selected_ticket("<selected_ticket>   </selected_ticket>"),
        None
    );
}

#[test]
fn meeting_title_prefers_first_issue_heading() {
    let notes = "# Notes\n**Issue 1: Flaky deploy pipeline** and more\nrest";
    assert_eq!(
        generate_meeting_title(notes),
        Some("Flaky deploy pipeline".to_string())
    );
}

#[test]
fn meeting_title_falls_back_to_first_line() {
    assert_eq!(
        generate_meeting_title("## Weekly sync\nmore text"),
        Some("Weekly sync".to_string())
    );
    assert_eq!(generate_meeting_title(""), None);
    let long_line = "y".repeat(150);
    assert_eq!(generate_meeting_title(&long_line), None);
}
