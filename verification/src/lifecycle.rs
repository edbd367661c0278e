//! The agent-run lifecycle: folds the invocation service's message stream
//! into normalized events, accumulated output, and a terminal status.
//!
//! The invocation service emits text, tool-use, tool-result and thinking
//! messages, and normally a terminal result message carrying its own session
//! identifier, a subtype and an error flag.  The stream may end without a
//! result message; the status is then inferred from whether any output text
//! was produced.  Accumulated output is capped for the persisted summary.

use vstd::prelude::*;
use crate::agents::{
    AgentRun, AgentType, EmailOutput, TicketContext, spec_agent_type_str, email_output_ok,
};
use crate::status::AgentRunStatus;
use crate::strutil::str_eq;
use vstd::string::StringSliceAdditionalSpecFns;
use vstd::string::StringExecFns;

verus! {

/// Longest output summary kept, in bytes; longer output is cut at a
/// character boundary and marked as truncated.
pub const OUTPUT_SUMMARY_MAX: usize = 100000;

/// A message received from the agent invocation service, normalized into
/// this crate's vocabulary.  Tool input is carried opaquely as text.
#[derive(Clone, Debug, PartialEq)]
pub enum AgentMessage {
    Text { content: String },
    ToolUse { id: String, name: String, input: String },
    ToolResult { tool_use_id: String, content: String, is_error: bool },
    Thinking { content: String },
    Result { session_id: String, subtype: String, is_error: bool },
}

/// One event of the stream a client observes: the normalized agent
/// messages, engine status updates, the terminal result, and the marker
/// closing a replay of stored history.
#[derive(Clone, Debug, PartialEq)]
pub enum StreamEvent {
    Text { content: String },
    ToolUse { id: String, name: String, input: String },
    ToolResult { tool_use_id: String, content: String, is_error: bool },
    Thinking { content: String },
    Status { status: String, message: Option<String> },
    Result { session_id: String, status: String, is_error: bool },
    ReplayComplete { total_events: usize, agent_status: String },
}

/// The wire name of each event kind.
pub fn get_event_type(event: &StreamEvent) -> (r: &'static str)
    ensures
        event is Text ==> r@ == "text"@,
        event is ToolUse ==> r@ == "tool_use"@,
        event is ToolResult ==> r@ == "tool_result"@,
        event is Thinking ==> r@ == "thinking"@,
        event is Status ==> r@ == "status"@,
        event is Result ==> r@ == "result"@,
        event is ReplayComplete ==> r@ == "replay_complete"@,
{
    match event {
        StreamEvent::Text { .. } => "text",
        StreamEvent::ToolUse { .. } => "tool_use",
        StreamEvent::ToolResult { .. } => "tool_result",
        StreamEvent::Thinking { .. } => "thinking",
        StreamEvent::Status { .. } => "status",
        StreamEvent::Result { .. } => "result",
        StreamEvent::ReplayComplete { .. } => "replay_complete",
    }
}

/// Folds the message stream of one agent run: accumulates output text,
/// tracks the authoritative session identifier, and records the terminal
/// status when a result message arrives.
#[derive(Clone, Debug, PartialEq)]
pub struct RunAccumulator {
    /// The text blocks produced so far, in order.
    pub output_parts: Vec<String>,
    /// `Running` until a result message settles it.
    pub status: AgentRunStatus,
    /// The session identifier: the placeholder issued up front, replaced by
    /// the invocation service's own identifier when its result arrives.
    pub session_id: String,
    /// Whether a terminal result message has arrived.
    pub saw_result: bool,
}

impl RunAccumulator {
    /// A fresh accumulator for a run issued the given placeholder session.
    pub fn new(placeholder_session: String) -> (r: RunAccumulator)
        ensures
            r.output_parts@.len() == 0,
            r.status is Running,
            r.session_id == placeholder_session,
            !r.saw_result,
    {
        RunAccumulator {
            output_parts: Vec::new(),
            status: AgentRunStatus::Running,
            session_id: placeholder_session,
            saw_result: false,
        }
    }

    /// Consumes one message: accumulates text, normalizes the message into
    /// the event forwarded to the log and any live listener, and, on a
    /// result message, adopts the service's session identifier and status.
    /// Returns the event and whether the stream is done (a result message
    /// ends it).
    pub fn process_message(&mut self, msg: &AgentMessage) -> (r: (StreamEvent, bool))
        ensures
            r.1 == (msg is Result),
            match msg {
                AgentMessage::Text { content } => {
                    &&& final(self).output_parts@ == old(self).output_parts@.push(*content)
                    &&& final(self).status == old(self).status
                    &&& final(self).session_id == old(self).session_id
                    &&& final(self).saw_result == old(self).saw_result
                    &&& (r.0 matches StreamEvent::Text { content: c } && c == *content)
                },
                AgentMessage::ToolUse { id, name, input } => {
                    &&& *final(self) == *old(self)
                    &&& (r.0 matches StreamEvent::ToolUse { id: i, name: n, input: p } && i == *id
                        && n == *name && p == *input)
                },
                AgentMessage::ToolResult { tool_use_id, content, is_error } => {
                    &&& *final(self) == *old(self)
                    &&& (r.0 matches StreamEvent::ToolResult { tool_use_id: t, content: c, is_error: e }
                        && t == *tool_use_id && c == *content && e == *is_error)
                },
                AgentMessage::Thinking { content } => {
                    &&& *final(self) == *old(self)
                    &&& (r.0 matches StreamEvent::Thinking { content: c } && c == *content)
                },
                AgentMessage::Result { session_id, subtype, is_error } => {
                    &&& final(self).output_parts == old(self).output_parts
                    &&& final(self).session_id == *session_id
                    &&& final(self).saw_result
                    &&& final(self).status == (if *is_error {
                        AgentRunStatus::Failed
                    } else if subtype@ == "success"@ {
                        AgentRunStatus::Completed
                    } else {
                        old(self).status
                    })
                    &&& (r.0 matches StreamEvent::Result { session_id: s, status: st, is_error: e }
                        && s == *session_id && st == *subtype && e == *is_error)
                },
            },
    {
        match msg {
            AgentMessage::Text { content } => {
                self.output_parts.push(content.clone());
                (StreamEvent::Text { content: content.clone() }, false)
            },
            AgentMessage::ToolUse { id, name, input } => {
                (
                    StreamEvent::ToolUse {
                        id: id.clone(),
                        name: name.clone(),
                        input: input.clone(),
                    },
                    false,
                )
            },
            AgentMessage::ToolResult { tool_use_id, content, is_error } => {
                (
                    StreamEvent::ToolResult {
                        tool_use_id: tool_use_id.clone(),
                        content: content.clone(),
                        is_error: *is_error,
                    },
                    false,
                )
            },
            AgentMessage::Thinking { content } => {
                (StreamEvent::Thinking { content: content.clone() }, false)
            },
            AgentMessage::Result { session_id, subtype, is_error } => {
                self.session_id = session_id.clone();
                self.saw_result = true;
                if *is_error {
                    self.status = AgentRunStatus::Failed;
                } else if str_eq(subtype.as_str(), "success") {
                    self.status = AgentRunStatus::Completed;
                }
                (
                    StreamEvent::Result {
                        session_id: session_id.clone(),
                        status: subtype.clone(),
                        is_error: *is_error,
                    },
                    true,
                )
            },
        }
    }

    /// The terminal status of the run once its stream has ended: what the
    /// result message settled, or, if none arrived, completed exactly when
    /// any output text was produced.  This inference is a deliberate
    /// fallback: the invocation service does not guarantee a result message
    /// on every exit path.
    pub fn infer_status(&self) -> (r: AgentRunStatus)
        ensures
            r == (if !(self.status is Running) {
                self.status
            } else if self.output_parts@.len() > 0 {
                AgentRunStatus::Completed
            } else {
                AgentRunStatus::Failed
            }),
    {
        if !(self.status == AgentRunStatus::Running) {
            self.status
        } else if self.output_parts.len() > 0 {
            AgentRunStatus::Completed
        } else {
            AgentRunStatus::Failed
        }
    }
}

/// The accumulated output blocks joined with blank lines between them.
pub open spec fn join_views(parts: Seq<String>) -> Seq<char>
    decreases parts.len(),
{
    if parts.len() == 0 {
        Seq::<char>::empty()
    } else if parts.len() == 1 {
        parts[0]@
    } else {
        join_views(parts.drop_last()) + "\n\n"@ + parts.last()@
    }
}

/// Joins the output blocks with blank lines between them.
pub fn join_output_parts(parts: &Vec<String>) -> (r: String)
    ensures
        r@ == join_views(parts@),
{
    let n: usize = parts.len();
    if n == 0 {
        proof {
            reveal_strlit("");
        }
        return "".to_owned();
    }
    let mut out: String = parts[0].clone();
    let mut i: usize = 1;
    while i < n
        invariant
            1 <= i <= n,
            n == parts@.len(),
            out@ == join_views(parts@.subrange(0, i as int)),
        decreases n - i,
    {
        proof {
            let cur = parts@.subrange(0, i as int);
            let nxt = parts@.subrange(0, i + 1);
            assert(nxt.drop_last() =~= cur);
            assert(nxt.last() == parts@[i as int]);
        }
        out = out.concat("\n\n").concat(parts[i].as_str());
        i = i + 1;
    }
    proof {
        assert(parts@.subrange(0, n as int) =~= parts@);
    }
    out
}

/// The relation between a run's output blocks and its persisted summary:
/// no summary exactly when no output text was produced; the joined output
/// when it fits the cap; otherwise the longest prefix ending at a
/// character boundary within the cap, with a marker appended.
pub open spec fn summary_ok(parts: Seq<String>, r: Option<String>) -> bool {
    &&& (parts.len() == 0) == (r is None)
    &&& (r matches Some(s) ==> ({
        let full = join_views(parts);
        let bytes = vstd::utf8::encode_utf8(full);
        if bytes.len() as usize <= OUTPUT_SUMMARY_MAX {
            s@ == full
        } else {
            exists|k: int|
                {
                    &&& 0 <= k <= OUTPUT_SUMMARY_MAX
                    &&& vstd::utf8::is_char_boundary(bytes, k)
                    &&& (forall|m: int|
                        k < m <= OUTPUT_SUMMARY_MAX ==> !vstd::utf8::is_char_boundary(bytes, m))
                    &&& s@ == vstd::utf8::decode_utf8(bytes.subrange(0, k))
                        + "...\n\n[Output truncated]"@
                }
        }
    }))
}

/// The summary persisted for a run: nothing when no output text was
/// produced; the joined output when it fits the cap; otherwise the longest
/// prefix ending at a character boundary within the cap, with a marker
/// appended.
pub fn summarize_output(parts: &Vec<String>) -> (r: Option<String>)
    ensures
        summary_ok(parts@, r),
{
    if parts.len() == 0 {
        return None;
    }
    let full = join_output_parts(parts);
    proof {
        vstd::utf8::encode_utf8_valid_utf8(full@);
    }
    let fs = full.as_str();
    let len: usize = fs.len();
    if len <= OUTPUT_SUMMARY_MAX {
        return Some(full);
    }
    proof {
        assert(vstd::utf8::encode_utf8(full@).len() > OUTPUT_SUMMARY_MAX);
    }
    let mut k: usize = OUTPUT_SUMMARY_MAX;
    while !fs.is_char_boundary(k)
        invariant
            0 <= k <= OUTPUT_SUMMARY_MAX,
            fs@ == full@,
            OUTPUT_SUMMARY_MAX < vstd::utf8::encode_utf8(full@).len(),
            vstd::utf8::valid_utf8(vstd::utf8::encode_utf8(full@)),
            forall|m: int|
                k < m <= OUTPUT_SUMMARY_MAX ==> !vstd::utf8::is_char_boundary(
                    vstd::utf8::encode_utf8(full@),
                    m,
                ),
        decreases k,
    {
        proof {
            if k == 0 {
                vstd::utf8::is_char_boundary_start_end_of_seq(vstd::utf8::encode_utf8(full@));
                assert(false);
            }
        }
        k = k - 1;
    }
    let prefix = crate::strutil::substr(fs, 0, k);
    let out = prefix.concat("...\n\n[Output truncated]");
    proof {
        let bytes = vstd::utf8::encode_utf8(full@);
        assert(fs@ == full@);
        assert(fs.spec_bytes() == bytes);
        assert(vstd::utf8::is_char_boundary(bytes, k as int));
        assert(prefix@ == vstd::utf8::decode_utf8(fs.spec_bytes().subrange(0, k as int)));
        assert(prefix@ == vstd::utf8::decode_utf8(bytes.subrange(0, k as int)));
        assert(out@ == vstd::utf8::decode_utf8(bytes.subrange(0, k as int))
            + "...\n\n[Output truncated]"@);
    }
    Some(out)
}

/// The initial run record, persisted with status running before the
/// invocation service is contacted, so that a concurrent status query or a
/// crash-recovery sweep sees the run in flight even before the service
/// confirms its own session identifier.
pub fn initial_run_record(
    session_id: String,
    context: &TicketContext,
    agent_type: AgentType,
    started_at: String,
) -> (r: AgentRun)
    ensures
        r.session_id == session_id,
        r.ticket_id == context.ticket_id,
        r.epic_id == context.epic_id,
        r.slice_id == context.slice_id,
        r.agent_type@ == spec_agent_type_str(agent_type),
        r.status is Running,
        r.started_at == started_at,
        r.completed_at is None,
        r.input_message == context.intent,
        r.output_summary is None,
        r.email_output is None,
{
    AgentRun {
        session_id,
        ticket_id: context.ticket_id.clone(),
        epic_id: context.epic_id.clone(),
        slice_id: context.slice_id.clone(),
        agent_type: agent_type.as_str().to_owned(),
        status: AgentRunStatus::Running,
        started_at,
        completed_at: None,
        input_message: context.intent.clone(),
        output_summary: None,
        email_output: None,
    }
}

/// Finalizes the run record exactly once, after its message stream ended:
/// terminal status (inferred when no result message arrived), completion
/// time, capped output summary, and, for the email agent only, the
/// structured email fields parsed from that summary.
pub fn finalize_run(
    acc: &RunAccumulator,
    agent_type: AgentType,
    context: &TicketContext,
    started_at: String,
    completed_at: String,
) -> (r: AgentRun)
    ensures
        r.session_id == acc.session_id,
        r.ticket_id == context.ticket_id,
        r.epic_id == context.epic_id,
        r.slice_id == context.slice_id,
        r.agent_type@ == spec_agent_type_str(agent_type),
        r.status == (if !(acc.status is Running) {
            acc.status
        } else if acc.output_parts@.len() > 0 {
            AgentRunStatus::Completed
        } else {
            AgentRunStatus::Failed
        }),
        r.started_at == started_at,
        r.completed_at matches Some(c) && c == completed_at,
        r.input_message == context.intent,
        summary_ok(acc.output_parts@, r.output_summary),
        agent_type is Email ==> (match r.output_summary {
            Some(s) => email_output_ok(s@, r.email_output),
            None => r.email_output is None,
        }),
        !(agent_type is Email) ==> r.email_output is None,
{
    let status = acc.infer_status();
    let output_summary = summarize_output(&acc.output_parts);
    let email_output = if agent_type == AgentType::Email {
        match &output_summary {
            Some(s) => EmailOutput::parse(s.as_str()),
            None => None,
        }
    } else {
        None
    };
    AgentRun {
        session_id: acc.session_id.clone(),
        ticket_id: context.ticket_id.clone(),
        epic_id: context.epic_id.clone(),
        slice_id: context.slice_id.clone(),
        agent_type: agent_type.as_str().to_owned(),
        status,
        started_at,
        completed_at: Some(completed_at),
        input_message: context.intent.clone(),
        output_summary,
        email_output,
    }
}

} // verus!
