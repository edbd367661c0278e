//! Agent vocabulary: the closed set of agent kinds, their configuration,
//! and the records describing one agent run.

use vstd::prelude::*;
use crate::status::AgentRunStatus;
use crate::strutil::{
    str_eq, find_from, first_match_from, lemma_first_match_some, lemma_first_match_none,
    spec_tag_segment, tag_segment, substr, trim_of, lemma_ascii_byte_is_boundary,
    lemma_boundary_after_ascii_run,
};
use vstd::utf8::{
    encode_utf8, decode_utf8, is_ascii_chars, is_ascii_chars_encode_utf8, is_ascii_chars_nat_bound,
    encode_utf8_valid_utf8,
};

verus! {

/// The closed set of agent kinds a step can name.  A step's `agent_type`
/// string is validated against this set before the engine spawns a run.
#[derive(Clone, Copy, Debug, PartialEq, Eq, Structural)]
pub enum AgentType {
    Planning,
    Execution,
    Evaluation,
    Email,
    WorkspaceManager,
    MeetingNotes,
    TicketAssistant,
    ExaResearch,
    ResearchSynthesis,
    TicketPlanner,
    TicketCreator,
    DocDrafter,
    LifePlanner,
    PullTicket,
}

/// The canonical name of each agent kind.
pub open spec fn spec_agent_type_str(t: AgentType) -> Seq<char> {
    match t {
        AgentType::Planning => "planning"@,
        AgentType::Execution => "execution"@,
        AgentType::Evaluation => "evaluation"@,
        AgentType::Email => "email"@,
        AgentType::WorkspaceManager => "workspace-manager"@,
        AgentType::MeetingNotes => "meeting-notes"@,
        AgentType::TicketAssistant => "ticket-assistant"@,
        AgentType::ExaResearch => "exa-research"@,
        AgentType::ResearchSynthesis => "research-synthesis"@,
        AgentType::TicketPlanner => "ticket-planner"@,
        AgentType::TicketCreator => "ticket-creator"@,
        AgentType::DocDrafter => "doc-drafter"@,
        AgentType::LifePlanner => "life-planner"@,
        AgentType::PullTicket => "pull-ticket"@,
    }
}

/// The agent kind a name denotes, if any.
pub open spec fn spec_parse_agent_type(s: Seq<char>) -> Option<AgentType> {
    if s == "planning"@ {
        Some(AgentType::Planning)
    } else if s == "execution"@ {
        Some(AgentType::Execution)
    } else if s == "evaluation"@ {
        Some(AgentType::Evaluation)
    } else if s == "email"@ {
        Some(AgentType::Email)
    } else if s == "workspace-manager"@ {
        Some(AgentType::WorkspaceManager)
    } else if s == "meeting-notes"@ {
        Some(AgentType::MeetingNotes)
    } else if s == "ticket-assistant"@ {
        Some(AgentType::TicketAssistant)
    } else if s == "exa-research"@ {
        Some(AgentType::ExaResearch)
    } else if s == "research-synthesis"@ {
        Some(AgentType::ResearchSynthesis)
    } else if s == "ticket-planner"@ {
        Some(AgentType::TicketPlanner)
    } else if s == "ticket-creator"@ {
        Some(AgentType::TicketCreator)
    } else if s == "doc-drafter"@ {
        Some(AgentType::DocDrafter)
    } else if s == "life-planner"@ {
        Some(AgentType::LifePlanner)
    } else if s == "pull-ticket"@ {
        Some(AgentType::PullTicket)
    } else {
        None
    }
}

impl AgentType {
    /// The canonical name of this agent kind.
    pub fn as_str(&self) -> (r: &'static str)
        ensures
            r@ == spec_agent_type_str(*self),
    {
        match self {
            AgentType::Planning => "planning",
            AgentType::Execution => "execution",
            AgentType::Evaluation => "evaluation",
            AgentType::Email => "email",
            AgentType::WorkspaceManager => "workspace-manager",
            AgentType::MeetingNotes => "meeting-notes",
            AgentType::TicketAssistant => "ticket-assistant",
            AgentType::ExaResearch => "exa-research",
            AgentType::ResearchSynthesis => "research-synthesis",
            AgentType::TicketPlanner => "ticket-planner",
            AgentType::TicketCreator => "ticket-creator",
            AgentType::DocDrafter => "doc-drafter",
            AgentType::LifePlanner => "life-planner",
            AgentType::PullTicket => "pull-ticket",
        }
    }
}

/// Resolves an agent kind from its canonical name; `None` for any other
/// name.
pub fn parse_agent_type(s: &str) -> (r: Option<AgentType>)
    ensures
        r == spec_parse_agent_type(s@),
{
    if str_eq(s, "planning") {
        Some(AgentType::Planning)
    } else if str_eq(s, "execution") {
        Some(AgentType::Execution)
    } else if str_eq(s, "evaluation") {
        Some(AgentType::Evaluation)
    } else if str_eq(s, "email") {
        Some(AgentType::Email)
    } else if str_eq(s, "workspace-manager") {
        Some(AgentType::WorkspaceManager)
    } else if str_eq(s, "meeting-notes") {
        Some(AgentType::MeetingNotes)
    } else if str_eq(s, "ticket-assistant") {
        Some(AgentType::TicketAssistant)
    } else if str_eq(s, "exa-research") {
        Some(AgentType::ExaResearch)
    } else if str_eq(s, "research-synthesis") {
        Some(AgentType::ResearchSynthesis)
    } else if str_eq(s, "ticket-planner") {
        Some(AgentType::TicketPlanner)
    } else if str_eq(s, "ticket-creator") {
        Some(AgentType::TicketCreator)
    } else if str_eq(s, "doc-drafter") {
        Some(AgentType::DocDrafter)
    } else if str_eq(s, "life-planner") {
        Some(AgentType::LifePlanner)
    } else if str_eq(s, "pull-ticket") {
        Some(AgentType::PullTicket)
    } else {
        None
    }
}

/// Configuration of one agent kind: the model it runs on, an optional turn
/// limit, the prompt template it loads, the tools it may use, and an
/// optional working-directory template.
#[derive(Clone, Debug, PartialEq)]
pub struct AgentConfig {
    pub model: String,
    pub max_turns: Option<i32>,
    pub prompt_file: String,
    pub tools: Vec<String>,
    pub working_dir: Option<String>,
}

/// The agent and model registry, constructed once at startup and passed by
/// reference into the engine and the invocation adapter.  `models` maps
/// model aliases to full model identifiers; `agents` maps agent names to
/// their configuration.
#[derive(Clone, Debug, PartialEq)]
pub struct AgentsConfig {
    pub models: Vec<(String, String)>,
    pub agents: Vec<(String, AgentConfig)>,
}

impl AgentsConfig {
    /// Well-formedness: the registry is a pair of maps, so model aliases
    /// and agent names are each pairwise distinct.
    pub open spec fn wf(self) -> bool {
        &&& forall|i: int, j: int|
            0 <= i < j < self.models@.len() ==> #[trigger] self.models@[i].0@
                != #[trigger] self.models@[j].0@
        &&& forall|i: int, j: int|
            0 <= i < j < self.agents@.len() ==> #[trigger] self.agents@[i].0@
                != #[trigger] self.agents@[j].0@
    }

    /// The full model identifier a model alias maps to, if any.
    pub open spec fn spec_resolve_model(self, alias: Seq<char>) -> Seq<char> {
        if exists|i: int| 0 <= i < self.models@.len() && #[trigger] self.models@[i].0@ == alias {
            let i = choose|i: int|
                0 <= i < self.models@.len() && #[trigger] self.models@[i].0@ == alias;
            self.models@[i].1@
        } else {
            alias
        }
    }

    /// The registry entry of an agent kind (unique under `wf`).
    pub open spec fn spec_agent_entry(self, t: AgentType) -> AgentConfig {
        let i = choose|i: int|
            0 <= i < self.agents@.len() && #[trigger] self.agents@[i].0@ == spec_agent_type_str(t);
        self.agents@[i].1
    }

    /// Any model index holding the given alias is the one
    /// `spec_resolve_model` reads.
    pub proof fn lemma_model_unique(self, alias: Seq<char>, i: int)
        requires
            self.wf(),
            0 <= i < self.models@.len(),
            self.models@[i].0@ == alias,
        ensures
            self.spec_resolve_model(alias) == self.models@[i].1@,
    {
        assert(exists|k: int| 0 <= k < self.models@.len() && #[trigger] self.models@[k].0@ == alias);
        let c = choose|k: int|
            0 <= k < self.models@.len() && #[trigger] self.models@[k].0@ == alias;
        if c < i {
            assert(self.models@[c].0@ != self.models@[i].0@);
        } else if i < c {
            assert(self.models@[i].0@ != self.models@[c].0@);
        }
    }

    /// Any agent index holding the given kind's name is the one
    /// `spec_agent_entry` reads.
    pub proof fn lemma_agent_unique(self, t: AgentType, i: int)
        requires
            self.wf(),
            0 <= i < self.agents@.len(),
            self.agents@[i].0@ == spec_agent_type_str(t),
        ensures
            t.spec_has_config(self),
            self.spec_agent_entry(t) == self.agents@[i].1,
    {
        assert(t.spec_has_config(self));
        let c = choose|k: int|
            0 <= k < self.agents@.len() && #[trigger] self.agents@[k].0@ == spec_agent_type_str(t);
        if c < i {
            assert(self.agents@[c].0@ != self.agents@[i].0@);
        } else if i < c {
            assert(self.agents@[i].0@ != self.agents@[c].0@);
        }
    }

    /// Resolves a model alias to a full model identifier.  An alias with no
    /// entry names the model directly and is returned as given.
    pub fn resolve_model<'a>(&'a self, alias: &'a str) -> (r: &'a str)
        requires
            self.wf(),
        ensures
            r@ == self.spec_resolve_model(alias@),
    {
        let n: usize = self.models.len();
        let mut i: usize = 0;
        while i < n
            invariant
                0 <= i <= n,
                n == self.models@.len(),
                self.wf(),
                forall|k: int| 0 <= k < i ==> #[trigger] self.models@[k].0@ != alias@,
            decreases n - i,
        {
            if str_eq(self.models[i].0.as_str(), alias) {
                proof {
                    self.lemma_model_unique(alias@, i as int);
                }
                return self.models[i].1.as_str();
            }
            i = i + 1;
        }
        alias
    }

    /// The configuration registered for an agent kind, if any.
    pub fn get_agent<'a>(&'a self, agent_type: &AgentType) -> (r: Option<&'a AgentConfig>)
        requires
            self.wf(),
        ensures
            match r {
                Some(c) => agent_type.spec_has_config(*self) && *c == self.spec_agent_entry(
                    *agent_type,
                ),
                None => !agent_type.spec_has_config(*self),
            },
    {
        let name = agent_type.as_str();
        let n: usize = self.agents.len();
        let mut i: usize = 0;
        while i < n
            invariant
                0 <= i <= n,
                n == self.agents@.len(),
                self.wf(),
                name@ == spec_agent_type_str(*agent_type),
                forall|k: int|
                    0 <= k < i ==> #[trigger] self.agents@[k].0@ != spec_agent_type_str(
                        *agent_type,
                    ),
            decreases n - i,
        {
            if str_eq(self.agents[i].0.as_str(), name) {
                proof {
                    self.lemma_agent_unique(*agent_type, i as int);
                }
                return Some(&self.agents[i].1);
            }
            i = i + 1;
        }
        None
    }
}

impl AgentType {
    /// True when the registry has an entry for this agent kind.
    pub open spec fn spec_has_config(self, cfg: AgentsConfig) -> bool {
        exists|i: int|
            0 <= i < cfg.agents@.len() && #[trigger] cfg.agents@[i].0@ == spec_agent_type_str(self)
    }

    /// The configuration of this agent kind in the given registry.
    pub fn config<'a>(&self, cfg: &'a AgentsConfig) -> (r: Option<&'a AgentConfig>)
        requires
            cfg.wf(),
        ensures
            match r {
                Some(c) => self.spec_has_config(*cfg) && *c == cfg.spec_agent_entry(*self),
                None => !self.spec_has_config(*cfg),
            },
    {
        cfg.get_agent(self)
    }

    /// The working-directory template of this agent kind: its registry
    /// entry's template, when one is configured.
    pub fn working_dir_template<'a>(&self, cfg: &'a AgentsConfig) -> (r: Option<&'a str>)
        requires
            cfg.wf(),
            self.spec_has_config(*cfg),
        ensures
            match r {
                Some(w) => cfg.spec_agent_entry(*self).working_dir matches Some(ww) && w@ == ww@,
                None => cfg.spec_agent_entry(*self).working_dir is None,
            },
    {
        match self.config(cfg) {
            Some(c) => match &c.working_dir {
                Some(w) => Some(w.as_str()),
                None => None,
            },
            None => {
                proof {
                    assert(false);
                }
                None
            },
        }
    }

    /// The tools this agent kind may use: exactly its registry entry's tool
    /// list, in order.
    pub fn allowed_tools<'a>(&self, cfg: &'a AgentsConfig) -> (r: Vec<&'a str>)
        requires
            cfg.wf(),
            self.spec_has_config(*cfg),
        ensures
            r@.len() == cfg.spec_agent_entry(*self).tools@.len(),
            forall|i: int|
                0 <= i < r@.len() ==> #[trigger] r@[i]@ == cfg.spec_agent_entry(
                    *self,
                ).tools@[i]@,
    {
        let c = match self.config(cfg) {
            Some(c) => c,
            None => {
                proof {
                    assert(false);
                }
                return Vec::new();
            },
        };
        let n: usize = c.tools.len();
        let mut out: Vec<&'a str> = Vec::new();
        let mut i: usize = 0;
        while i < n
            invariant
                0 <= i <= n,
                n == c.tools@.len(),
                out@.len() == i,
                forall|k: int| 0 <= k < i ==> #[trigger] out@[k]@ == c.tools@[k]@,
            decreases n - i,
        {
            out.push(c.tools[i].as_str());
            i = i + 1;
        }
        out
    }

    /// The full model identifier this agent kind runs on: its registry
    /// entry's model, resolved through the alias table.
    pub fn model<'a>(&self, cfg: &'a AgentsConfig) -> (r: &'a str)
        requires
            cfg.wf(),
            self.spec_has_config(*cfg),
        ensures
            r@ == cfg.spec_resolve_model(cfg.spec_agent_entry(*self).model@),
    {
        match self.config(cfg) {
            Some(c) => cfg.resolve_model(c.model.as_str()),
            None => {
                proof {
                    assert(false);
                }
                ""
            },
        }
    }

    /// The turn limit configured for this agent kind: its registry entry's
    /// limit.
    pub fn max_turns(&self, cfg: &AgentsConfig) -> (r: Option<i32>)
        requires
            cfg.wf(),
            self.spec_has_config(*cfg),
        ensures
            r == cfg.spec_agent_entry(*self).max_turns,
    {
        match self.config(cfg) {
            Some(c) => c.max_turns,
            None => {
                proof {
                    assert(false);
                }
                None
            },
        }
    }
}

/// Structured email fields parsed from an email agent's response.
#[derive(Clone, Debug, PartialEq)]
pub struct EmailOutput {
    pub to: String,
    pub cc: Option<String>,
    pub subject: String,
    pub body: String,
    pub notes: Option<String>,
}

/// The raw byte segments of a parsed email response, before trimming.
pub struct EmailSegments {
    pub to: Seq<u8>,
    pub cc: Option<Seq<u8>>,
    pub subject: Seq<u8>,
    pub body: Seq<u8>,
    pub notes: Option<Seq<u8>>,
}

/// The segments an email agent response parses into: the text between the
/// email tags must carry the recipient, subject and body tags; a carbon
/// copy inside the email and notes anywhere in the response are optional.
pub open spec fn spec_parse_email(t: Seq<u8>) -> Option<EmailSegments> {
    match first_match_from(t, encode_utf8("<email>"@), 0) {
        None => None,
        Some(es) => match first_match_from(t, encode_utf8("</email>"@), 0) {
            None => None,
            Some(ee) => {
                let olen = encode_utf8("<email>"@).len();
                if es + olen <= ee {
                    let c = t.subrange(es + olen, ee);
                    match spec_tag_segment(c, encode_utf8("<to>"@), encode_utf8("</to>"@), false) {
                        None => None,
                        Some(to) => match spec_tag_segment(
                            c,
                            encode_utf8("<subject>"@),
                            encode_utf8("</subject>"@),
                            false,
                        ) {
                            None => None,
                            Some(subject) => match spec_tag_segment(
                                c,
                                encode_utf8("<body>"@),
                                encode_utf8("</body>"@),
                                false,
                            ) {
                                None => None,
                                Some(body) => Some(
                                    EmailSegments {
                                        to,
                                        cc: spec_tag_segment(
                                            c,
                                            encode_utf8("<cc>"@),
                                            encode_utf8("</cc>"@),
                                            false,
                                        ),
                                        subject,
                                        body,
                                        notes: spec_tag_segment(
                                            t,
                                            encode_utf8("<notes>"@),
                                            encode_utf8("</notes>"@),
                                            false,
                                        ),
                                    },
                                ),
                            },
                        },
                    }
                } else {
                    None
                }
            },
        },
    }
}

/// The relation between a response text and the email fields parsed from
/// it.
pub open spec fn email_output_ok(t: Seq<char>, r: Option<EmailOutput>) -> bool {
    &&& (r is Some) == (spec_parse_email(encode_utf8(t)) is Some)
    &&& (r matches Some(e) ==> ({
        let seg = spec_parse_email(encode_utf8(t)).unwrap();
        &&& e.to@ == trim_of(decode_utf8(seg.to))
        &&& (match seg.cc {
            Some(ccb) => e.cc matches Some(c) && c@ == trim_of(decode_utf8(ccb)),
            None => e.cc is None,
        })
        &&& e.subject@ == trim_of(decode_utf8(seg.subject))
        &&& e.body@ == trim_of(decode_utf8(seg.body))
        &&& (match seg.notes {
            Some(nb) => e.notes matches Some(nn) && nn@ == trim_of(decode_utf8(nb)),
            None => e.notes is None,
        })
    }))
}

impl EmailOutput {
    /// Parses the structured email fields from an agent response carrying
    /// XML-like tags: a recipient, optional carbon copy, subject and body
    /// inside the email tags, and optional notes outside them.  Each field
    /// is trimmed.  A response whose closing tag precedes its opening tag
    /// carries no email.
    #[verifier::rlimit(100)]
    #[verifier::spinoff_prover]
    pub fn parse(text: &str) -> (r: Option<EmailOutput>)
        ensures
            email_output_ok(text@, r),
    {
        proof {
            reveal_strlit("<email>");
            reveal_strlit("</email>");
            assert(is_ascii_chars("<email>"@));
            assert(is_ascii_chars("</email>"@));
            encode_utf8_valid_utf8(text@);
            is_ascii_chars_encode_utf8("<email>"@);
            is_ascii_chars_encode_utf8("</email>"@);
            is_ascii_chars_nat_bound("<email>"@);
        }
        let tb = text.as_bytes();
        let e_open = "<email>".as_bytes();
        let e_close = "</email>".as_bytes();
        let es = match find_from(tb, e_open, 0) {
            None => {
                proof {
                    lemma_first_match_none(tb@, e_open@, 0);
                }
                return None;
            },
            Some(v) => v,
        };
        proof {
            lemma_first_match_some(tb@, e_open@, 0, es as int);
        }
        let ee = match find_from(tb, e_close, 0) {
            None => {
                proof {
                    lemma_first_match_none(tb@, e_close@, 0);
                }
                return None;
            },
            Some(v) => v,
        };
        proof {
            lemma_first_match_some(tb@, e_close@, 0, ee as int);
        }
        let olen: usize = e_open.len();
        let tblen: usize = tb.len();
        proof {
            assert(es + olen <= tblen);
        }
        if !(es + olen <= ee) {
            return None;
        }
        proof {
            let bytes = encode_utf8(text@);
            assert(bytes[es + olen - 1] == encode_utf8("<email>"@).last());
            lemma_ascii_byte_is_boundary(bytes, es + olen - 1);
            lemma_boundary_after_ascii_run(bytes, es + olen - 1, es + olen);
            assert(bytes[ee as int] == encode_utf8("</email>"@)[0]);
            lemma_ascii_byte_is_boundary(bytes, ee as int);
        }
        let content = substr(text, es + olen, ee);
        proof {
            reveal_strlit("<to>");
            reveal_strlit("</to>");
            reveal_strlit("<cc>");
            reveal_strlit("</cc>");
            reveal_strlit("<subject>");
            reveal_strlit("</subject>");
            reveal_strlit("<body>");
            reveal_strlit("</body>");
            reveal_strlit("<notes>");
            reveal_strlit("</notes>");
            assert(is_ascii_chars("<to>"@));
            assert(is_ascii_chars("</to>"@));
            assert(is_ascii_chars("<cc>"@));
            assert(is_ascii_chars("</cc>"@));
            assert(is_ascii_chars("<subject>"@));
            assert(is_ascii_chars("</subject>"@));
            assert(is_ascii_chars("<body>"@));
            assert(is_ascii_chars("</body>"@));
            assert(is_ascii_chars("<notes>"@));
            assert(is_ascii_chars("</notes>"@));
        }
        let to = match tag_segment(content.as_str(), "<to>", "</to>", false) {
            None => {
                return None;
            },
            Some(v) => v,
        };
        let subject = match tag_segment(content.as_str(), "<subject>", "</subject>", false) {
            None => {
                return None;
            },
            Some(v) => v,
        };
        let body = match tag_segment(content.as_str(), "<body>", "</body>", false) {
            None => {
                return None;
            },
            Some(v) => v,
        };
        let cc = tag_segment(content.as_str(), "<cc>", "</cc>", false);
        let notes = tag_segment(text, "<notes>", "</notes>", false);
        Some(EmailOutput { to, cc, subject, body, notes })
    }
}

/// One execution attempt of one step: created when the step starts running,
/// finalized exactly once with a terminal status, completion time and output
/// summary.
#[derive(Clone, Debug, PartialEq)]
pub struct AgentRun {
    pub session_id: String,
    pub ticket_id: String,
    pub epic_id: String,
    pub slice_id: String,
    pub agent_type: String,
    pub status: AgentRunStatus,
    pub started_at: String,
    pub completed_at: Option<String>,
    pub input_message: String,
    pub output_summary: Option<String>,
    pub email_output: Option<EmailOutput>,
}

/// The ticket fields threaded into an agent invocation.
#[derive(Clone, Debug, PartialEq)]
pub struct TicketContext {
    pub epic_id: String,
    pub slice_id: String,
    pub ticket_id: String,
    pub title: String,
    pub intent: String,
}

/// Builds the ticket context for an agent execution.
pub fn build_ticket_context(
    epic_id: &str,
    slice_id: &str,
    ticket_id: &str,
    title: String,
    intent: String,
) -> (r: TicketContext)
    ensures
        r.epic_id@ == epic_id@,
        r.slice_id@ == slice_id@,
        r.ticket_id@ == ticket_id@,
        r.title == title,
        r.intent == intent,
{
    TicketContext {
        epic_id: epic_id.to_owned(),
        slice_id: slice_id.to_owned(),
        ticket_id: ticket_id.to_owned(),
        title,
        intent,
    }
}

/// Request to run an agent on a ticket.
#[derive(Clone, Debug, PartialEq)]
pub struct RunAgentRequest {
    pub agent_type: AgentType,
    pub previous_session_id: Option<String>,
    pub selected_session_ids: Vec<String>,
    pub custom_input_message: Option<String>,
    pub step_id: Option<String>,
}

/// Response to a run-agent request.
#[derive(Clone, Debug, PartialEq)]
pub struct RunAgentResponse {
    pub session_id: String,
    pub status: String,
}

/// Request to send a follow-up message into an existing agent session.
#[derive(Clone, Debug, PartialEq)]
pub struct SendMessageRequest {
    pub message: String,
}

/// Response listing agent runs.
#[derive(Clone, Debug, PartialEq)]
pub struct AgentRunsResponse {
    pub runs: Vec<AgentRun>,
}

/// The extra prompt variable a chained agent kind reads its predecessor's
/// output under, beside the generic previous-output variable.
pub open spec fn spec_chain_var_key(t: AgentType) -> Option<Seq<char>> {
    match t {
        AgentType::Planning => Some("research_output"@),
        AgentType::Execution => Some("plan_output"@),
        AgentType::Evaluation => Some("execution_output"@),
        AgentType::ResearchSynthesis => Some("research_output"@),
        AgentType::TicketPlanner => Some("synthesis_output"@),
        AgentType::TicketCreator => Some("planner_output"@),
        AgentType::DocDrafter => Some("research_output"@),
        _ => None,
    }
}

/// Assembles the variables rendered into an agent's system prompt: the
/// ticket coordinates and text, the previous step's output when chaining
/// (also under the agent kind's own chaining variable), the selected
/// context, and the sender information, the latter two with explanatory
/// defaults when absent.
pub fn build_prompt_vars(
    agent_type: AgentType,
    context: &TicketContext,
    previous_output: Option<String>,
    selected_context: Option<String>,
    sender_info: Option<String>,
) -> (r: Vec<(String, String)>)
    ensures
        r@.len() == 7 + (if previous_output is Some {
            1int + (if spec_chain_var_key(agent_type) is Some {
                1int
            } else {
                0
            })
        } else {
            0
        }),
        r@[0].0@ == "epic_id"@ && r@[0].1 == context.epic_id,
        r@[1].0@ == "slice_id"@ && r@[1].1 == context.slice_id,
        r@[2].0@ == "ticket_id"@ && r@[2].1 == context.ticket_id,
        r@[3].0@ == "ticket_title"@ && r@[3].1 == context.title,
        r@[4].0@ == "ticket_intent"@ && r@[4].1 == context.intent,
        match previous_output {
            Some(p) => r@[5].0@ == "previous_output"@ && r@[5].1 == p && (match spec_chain_var_key(
                agent_type,
            ) {
                Some(k) => r@[6].0@ == k && r@[6].1 == p,
                None => true,
            }),
            None => true,
        },
        r@[r@.len() - 2].0@ == "selected_context"@ && (match selected_context {
            Some(c) => r@[r@.len() - 2].1 == c,
            None => r@[r@.len() - 2].1@ == "(No previous agent outputs selected)"@,
        }),
        r@[r@.len() - 1].0@ == "sender_info"@ && (match sender_info {
            Some(s) => r@[r@.len() - 1].1 == s,
            None => r@[r@.len() - 1].1@
                == "(No sender information available - please add your contact details)"@,
        }),
{
    let mut vars: Vec<(String, String)> = Vec::new();
    vars.push(("epic_id".to_owned(), context.epic_id.clone()));
    vars.push(("slice_id".to_owned(), context.slice_id.clone()));
    vars.push(("ticket_id".to_owned(), context.ticket_id.clone()));
    vars.push(("ticket_title".to_owned(), context.title.clone()));
    vars.push(("ticket_intent".to_owned(), context.intent.clone()));
    match previous_output {
        Some(prev) => {
            vars.push(("previous_output".to_owned(), prev.clone()));
            match agent_type {
                AgentType::Planning => vars.push(("research_output".to_owned(), prev)),
                AgentType::Execution => vars.push(("plan_output".to_owned(), prev)),
                AgentType::Evaluation => vars.push(("execution_output".to_owned(), prev)),
                AgentType::ResearchSynthesis => vars.push(("research_output".to_owned(), prev)),
                AgentType::TicketPlanner => vars.push(("synthesis_output".to_owned(), prev)),
                AgentType::TicketCreator => vars.push(("planner_output".to_owned(), prev)),
                AgentType::DocDrafter => vars.push(("research_output".to_owned(), prev)),
                _ => (),
            }
        },
        None => (),
    }
    match selected_context {
        Some(ctx) => vars.push(("selected_context".to_owned(), ctx)),
        None => vars.push(
            ("selected_context".to_owned(), "(No previous agent outputs selected)".to_owned()),
        ),
    }
    match sender_info {
        Some(info) => vars.push(("sender_info".to_owned(), info)),
        None => vars.push(
            (
                "sender_info".to_owned(),
                "(No sender information available - please add your contact details)".to_owned(),
            ),
        ),
    }
    vars
}

/// Joins two optional context blocks with a blank line, keeping whichever
/// is present when the other is absent.
pub fn combine_context(first: Option<String>, second: Option<String>) -> (r: Option<String>)
    ensures
        match (first, second) {
            (Some(a), Some(b)) => r matches Some(c) && c@ == a@ + "\n\n"@ + b@,
            (Some(a), None) => r == Some(a),
            (None, Some(b)) => r == Some(b),
            (None, None) => r is None,
        },
{
    match (first, second) {
        (Some(a), Some(b)) => Some(a.concat("\n\n").concat(b.as_str())),
        (Some(a), None) => Some(a),
        (None, Some(b)) => Some(b),
        (None, None) => None,
    }
}

/// The opening message of an agent run: the ticket's title and intent.
pub fn initial_prompt(context: &TicketContext) -> (r: String)
    ensures
        r@ == "Work on this ticket:\n\nTitle: "@ + context.title@ + "\nIntent: "@
            + context.intent@,
{
    "Work on this ticket:\n\nTitle: ".to_owned().concat(context.title.as_str()).concat(
        "\nIntent: ",
    ).concat(context.intent.as_str())
}

/// Executes agents from a given working directory.
#[derive(Clone, Debug, PartialEq)]
pub struct AgentExecutor {
    pub working_dir: String,
}

impl AgentExecutor {
    /// Creates an executor rooted at the given working directory.
    pub fn new(working_dir: String) -> (r: AgentExecutor)
        ensures
            r.working_dir == working_dir,
    {
        AgentExecutor { working_dir }
    }
}

/// Resolves an agent run status from its canonical name.  Any unknown name
/// denotes a completed run, so that legacy records remain readable.
pub open spec fn spec_parse_agent_status(s: Seq<char>) -> AgentRunStatus {
    if s == "running"@ {
        AgentRunStatus::Running
    } else if s == "completed"@ {
        AgentRunStatus::Completed
    } else if s == "failed"@ {
        AgentRunStatus::Failed
    } else if s == "cancelled"@ {
        AgentRunStatus::Cancelled
    } else {
        AgentRunStatus::Completed
    }
}

/// Parses an agent run status name, defaulting to `Completed` for unknown
/// names.
pub fn parse_agent_status(s: &str) -> (r: AgentRunStatus)
    ensures
        r == spec_parse_agent_status(s@),
{
    if str_eq(s, "running") {
        AgentRunStatus::Running
    } else if str_eq(s, "completed") {
        AgentRunStatus::Completed
    } else if str_eq(s, "failed") {
        AgentRunStatus::Failed
    } else if str_eq(s, "cancelled") {
        AgentRunStatus::Cancelled
    } else {
        AgentRunStatus::Completed
    }
}

} // verus!
