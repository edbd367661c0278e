use pipeline_engine::agents::AgentRun;
use pipeline_engine::events::{replay, EventLog, OUT_OF_BAND_INDEX_BASE};
use pipeline_engine::lifecycle::StreamEvent;
use pipeline_engine::status::AgentRunStatus;

fn text_event(s: &str) -> StreamEvent {
    StreamEvent::Text { content: s.to_string() }
}

fn run_with_status(status: AgentRunStatus, summary: Option<&str>) -> AgentRun {
    AgentRun {
        session_id: "sess-1".to_string(),
        ticket_id: "T-1".to_string(),
        epic_id: "E-1".to_string(),
        slice_id: "S-1".to_string(),
        agent_type: "execution".to_string(),
        status,
        started_at: "2024-01-01T00:00:00Z".to_string(),
        completed_at: None,
        input_message: "go".to_string(),
        output_summary: summary.map(|s| s.to_string()),
        email_output: None,
    }
}

#[test]
fn primary_indices_are_dense_from_zero() {
    let mut log = EventLog::new("sess-1".to_string());
    assert_eq!(log.append_primary(text_event("a")), 0);
    assert_eq!(log.append_primary(text_event("b")), 1);
    assert_eq!(log.append_primary(text_event("c")), 2);
    assert_eq!(log.next_primary, 3);
    let indices: Vec<i32> = log.events.iter().map(|e| e.index).collect();
    assert_eq!(indices, vec![0, 1, 2]);
}

#[test]
fn out_of_band_indices_start_at_reserved_base() {
    let mut log = EventLog::new("sess-1".to_string());
    log.append_primary(text_event("a"));
    assert_eq!(log.append_out_of_band(text_event("tool")), OUT_OF_BAND_INDEX_BASE);
    log.append_primary(text_event("b"));
    assert_eq!(log.append_out_of_band(text_event("tool 2")), OUT_OF_BAND_INDEX_BASE + 1);
    let indices: Vec<i32> = log.events.iter().map(|e| e.index).collect();
    assert_eq!(indices, vec![0, OUT_OF_BAND_INDEX_BASE, 1, OUT_OF_BAND_INDEX_BASE + 1]);
}

#[test]
fn both_writer_ranges_stay_gapless_when_interleaved() {
    let mut log = EventLog::new("sess-1".to_string());
    for i in 0..5 {
        if i % 2 == 0 {
            log.append_primary(text_event("p"));
        } else {
            log.append_out_of_band(text_event("o"));
        }
    }
    let mut primary: Vec<i32> = log
        .events
        .iter()
        .map(|e| e.index)
        .filter(|&i| i < OUT_OF_BAND_INDEX_BASE)
        .collect();
    let sorted = primary.clone();
    primary.sort();
    assert_eq!(primary, sorted);
    assert_eq!(primary, vec![0, 1, 2]);
    let oob: Vec<i32> = log
        .events
        .iter()
        .map(|e| e.index)
        .filter(|&i| i >= OUT_OF_BAND_INDEX_BASE)
        .collect();
    assert_eq!(oob, vec![OUT_OF_BAND_INDEX_BASE, OUT_OF_BAND_INDEX_BASE + 1]);
}

#[test]
fn index_order_puts_primary_before_out_of_band() {
    let mut log = EventLog::new("sess-1".to_string());
    log.append_out_of_band(text_event("tool"));
    log.append_primary(text_event("a"));
    log.append_primary(text_event("b"));
    let ordered = log.events_in_index_order();
    let indices: Vec<i32> = ordered.iter().map(|e| e.index).collect();
    assert_eq!(indices, vec![0, 1, OUT_OF_BAND_INDEX_BASE]);
}

#[test]
fn replay_of_terminal_run_ends_with_result() {
    let mut log = EventLog::new("sess-1".to_string());
    log.append_primary(text_event("hello"));
    log.append_primary(StreamEvent::Thinking { content: "hmm".to_string() });
    let run = run_with_status(AgentRunStatus::Completed, Some("hello"));
    let events = replay(&log, &run);
    assert_eq!(events.len(), 4);
    assert_eq!(events[0], text_event("hello"));
    assert_eq!(
        events[2],
        StreamEvent::ReplayComplete { total_events: 2, agent_status: "completed".to_string() }
    );
    assert_eq!(
        events[3],
        StreamEvent::Result {
            session_id: "sess-1".to_string(),
            status: "completed".to_string(),
            is_error: false,
        }
    );
}

#[test]
fn replay_of_running_run_ends_with_running_status() {
    let mut log = EventLog::new("sess-1".to_string());
    log.append_primary(text_event("partial"));
    let run = run_with_status(AgentRunStatus::Running, None);
    let events = replay(&log, &run);
    assert_eq!(events.len(), 3);
    assert_eq!(
        events[1],
        StreamEvent::ReplayComplete { total_events: 1, agent_status: "running".to_string() }
    );
    assert_eq!(
        events[2],
        StreamEvent::Status { status: "running".to_string(), message: None }
    );
}

#[test]
fn replay_without_stored_text_synthesizes_summary() {
    let mut log = EventLog::new("sess-1".to_string());
    log.append_primary(StreamEvent::ToolUse {
        id: "t1".to_string(),
        name: "search".to_string(),
        input: "{}".to_string(),
    });
    let run = run_with_status(AgentRunStatus::Failed, Some("the stored summary"));
    let events = replay(&log, &run);
    assert_eq!(events.len(), 4);
    assert_eq!(events[2], text_event("the stored summary"));
    assert_eq!(
        events[3],
        StreamEvent::Result {
            session_id: "sess-1".to_string(),
            status: "failed".to_string(),
            is_error: true,
        }
    );
}

#[test]
fn replay_of_empty_log_of_terminal_run_is_marker_text_result() {
    let log = EventLog::new("sess-1".to_string());
    let run = run_with_status(AgentRunStatus::Completed, Some("sum"));
    let events = replay(&log, &run);
    assert_eq!(events.len(), 3);
    assert_eq!(
        events[0],
        StreamEvent::ReplayComplete { total_events: 0, agent_status: "completed".to_string() }
    );
    assert_eq!(events[1], text_event("sum"));
    assert!(matches!(events[2], StreamEvent::Result { .. }));
}
