//! The registry of agent runs: independently persisted records, one per
//! execution attempt, addressed by their session identifier.

use vstd::prelude::*;
use crate::agents::{AgentRun, EmailOutput};
use crate::errors::{EngineError, NotFoundKind};
use crate::pipeline::clone_opt_string;
use crate::status::AgentRunStatus;
use crate::strutil::str_eq;
use vstd::pervasive::VecAdditionalExecFns;

verus! {

/// Clones an optional email output, preserving its value.
pub fn clone_opt_email(o: &Option<EmailOutput>) -> (r: Option<EmailOutput>)
    ensures
        r == *o,
{
    match o {
        Some(v) => Some(
            EmailOutput {
                to: v.to.clone(),
                cc: clone_opt_string(&v.cc),
                subject: v.subject.clone(),
                body: v.body.clone(),
                notes: clone_opt_string(&v.notes),
            },
        ),
        None => None,
    }
}

/// Clones an agent run record, preserving its value.
pub fn clone_run(run: &AgentRun) -> (r: AgentRun)
    ensures
        r == *run,
{
    AgentRun {
        session_id: run.session_id.clone(),
        ticket_id: run.ticket_id.clone(),
        epic_id: run.epic_id.clone(),
        slice_id: run.slice_id.clone(),
        agent_type: run.agent_type.clone(),
        status: run.status,
        started_at: run.started_at.clone(),
        completed_at: clone_opt_string(&run.completed_at),
        input_message: run.input_message.clone(),
        output_summary: clone_opt_string(&run.output_summary),
        email_output: clone_opt_email(&run.email_output),
    }
}

/// True when a run belongs to the given ticket and agent kind.
pub open spec fn run_matches(run: AgentRun, ticket_id: Seq<char>, agent_type: Seq<char>) -> bool {
    run.ticket_id@ == ticket_id && run.agent_type@ == agent_type
}

/// Session identifiers are pairwise distinct.
pub open spec fn unique_sessions(s: Seq<AgentRun>) -> bool {
    forall|i: int, j: int|
        0 <= i < j < s.len() ==> #[trigger] s[i].session_id@ != #[trigger] s[j].session_id@
}

/// Every element of a filtered sequence occurs in the source sequence.
proof fn lemma_filter_sub(s: Seq<AgentRun>, pred: spec_fn(AgentRun) -> bool)
    ensures
        forall|i: int|
            0 <= i < s.filter(pred).len() ==> exists|k: int|
                0 <= k < s.len() && s[k] == #[trigger] s.filter(pred)[i],
    decreases s.len(),
{
    reveal(Seq::filter);
    if s.len() > 0 {
        let head = s.drop_last();
        lemma_filter_sub(head, pred);
        let sub = head.filter(pred);
        let out = s.filter(pred);
        assert forall|i: int| 0 <= i < out.len() implies exists|k: int|
            0 <= k < s.len() && s[k] == #[trigger] out[i] by {
            if i < sub.len() {
                let k = choose|k: int| 0 <= k < head.len() && head[k] == sub[i];
                assert(s[k] == out[i]);
            } else {
                assert(s[s.len() - 1] == out[i]);
            }
        }
    }
}

/// Filtering a run sequence keeps its session identifiers distinct.
proof fn lemma_filter_keeps_unique(s: Seq<AgentRun>, pred: spec_fn(AgentRun) -> bool)
    requires
        unique_sessions(s),
    ensures
        unique_sessions(s.filter(pred)),
    decreases s.len(),
{
    reveal(Seq::filter);
    if s.len() > 0 {
        let head = s.drop_last();
        assert(unique_sessions(head));
        lemma_filter_keeps_unique(head, pred);
        let sub = head.filter(pred);
        if pred(s.last()) {
            let out = sub.push(s.last());
            lemma_filter_sub(head, pred);
            assert forall|i: int, j: int|
                0 <= i < j < out.len() implies #[trigger] out[i].session_id@
                != #[trigger] out[j].session_id@ by {
                if j == out.len() - 1 {
                    let k = choose|k: int| 0 <= k < head.len() && head[k] == sub[i];
                    assert(s[k] == head[k]);
                    assert(s[s.len() - 1] == s.last());
                }
            }
        }
    }
}

/// How many of the runs are still marked running.
pub open spec fn count_running_runs(s: Seq<AgentRun>) -> int
    decreases s.len(),
{
    if s.len() == 0 {
        0
    } else {
        count_running_runs(s.drop_last()) + if s.last().status is Running {
            1int
        } else {
            0
        }
    }
}

/// In-memory model of the agent-run registry.
#[derive(Clone, Debug, PartialEq)]
pub struct RunStore {
    pub runs: Vec<AgentRun>,
}

impl RunStore {
    /// Well-formedness: session identifiers are unique.
    pub open spec fn wf(self) -> bool {
        unique_sessions(self.runs@)
    }

    /// True when some run carries the given session identifier.
    pub open spec fn has_run(self, session_id: Seq<char>) -> bool {
        exists|i: int|
            0 <= i < self.runs@.len() && #[trigger] self.runs@[i].session_id@ == session_id
    }

    /// The index of the run with the given session identifier (unique under
    /// `wf`).
    pub open spec fn index_of_run(self, session_id: Seq<char>) -> int {
        choose|i: int|
            0 <= i < self.runs@.len() && #[trigger] self.runs@[i].session_id@ == session_id
    }

    /// Any index holding the given session identifier is `index_of_run`.
    pub proof fn lemma_index_of_run_unique(self, session_id: Seq<char>, i: int)
        requires
            self.wf(),
            0 <= i < self.runs@.len(),
            self.runs@[i].session_id@ == session_id,
        ensures
            self.has_run(session_id),
            self.index_of_run(session_id) == i,
    {
        assert(self.has_run(session_id));
        let c = self.index_of_run(session_id);
        if c < i {
            assert(self.runs@[c].session_id@ != self.runs@[i].session_id@);
        } else if i < c {
            assert(self.runs@[i].session_id@ != self.runs@[c].session_id@);
        }
    }

    /// An empty registry.
    pub fn new() -> (r: RunStore)
        ensures
            r.runs@.len() == 0,
            r.wf(),
    {
        RunStore { runs: Vec::new() }
    }

    /// Finds the index of the run with the given session identifier.
    pub fn find_run(&self, session_id: &str) -> (r: Option<usize>)
        ensures
            match r {
                Some(i) => 0 <= i < self.runs@.len() && self.runs@[i as int].session_id@
                    == session_id@,
                None => !self.has_run(session_id@),
            },
    {
        let n: usize = self.runs.len();
        let mut i: usize = 0;
        while i < n
            invariant
                0 <= i <= n,
                n == self.runs@.len(),
                forall|k: int| 0 <= k < i ==> #[trigger] self.runs@[k].session_id@ != session_id@,
            decreases n - i,
        {
            if str_eq(self.runs[i].session_id.as_str(), session_id) {
                return Some(i);
            }
            i = i + 1;
        }
        None
    }

    /// Looks up the run with the given session identifier.
    pub fn get_run<'a>(&'a self, session_id: &str) -> (r: Option<&'a AgentRun>)
        requires
            self.wf(),
        ensures
            match r {
                Some(run) => self.has_run(session_id@) && *run == self.runs@[self.index_of_run(
                    session_id@,
                )],
                None => !self.has_run(session_id@),
            },
    {
        match self.find_run(session_id) {
            Some(i) => {
                proof {
                    self.lemma_index_of_run_unique(session_id@, i as int);
                }
                Some(&self.runs[i])
            },
            None => None,
        }
    }

    /// Records a fresh run.  The session identifier must not be in use yet;
    /// a duplicate is rejected and the registry is left unchanged.
    pub fn create_run(&mut self, run: AgentRun) -> (r: Result<(), EngineError>)
        requires
            old(self).wf(),
        ensures
            final(self).wf(),
            match r {
                Ok(()) => !old(self).has_run(run.session_id@) && final(self).runs@ == old(
                    self,
                ).runs@.push(run),
                Err(e) => *final(self) == *old(self) && e is PersistenceError && old(self).has_run(
                    run.session_id@,
                ),
            },
    {
        if self.find_run(run.session_id.as_str()).is_some() {
            return Err(EngineError::PersistenceError);
        }
        self.runs.push(run);
        proof {
            let post = final(self).runs@;
            let pre = old(self).runs@;
            assert forall|i: int, j: int|
                0 <= i < j < post.len() implies #[trigger] post[i].session_id@
                != #[trigger] post[j].session_id@ by {
                if j == post.len() - 1 {
                    assert(!old(self).has_run(run.session_id@));
                    assert(post[i] == pre[i]);
                }
            }
        }
        Ok(())
    }

    /// Replaces the run carrying the given record's session identifier.
    pub fn update_run(&mut self, run: AgentRun) -> (r: Result<(), EngineError>)
        requires
            old(self).wf(),
        ensures
            final(self).wf(),
            match r {
                Ok(()) => old(self).has_run(run.session_id@) && final(self).runs@ == old(
                    self,
                ).runs@.update(old(self).index_of_run(run.session_id@), run),
                Err(e) => *final(self) == *old(self) && (e matches EngineError::NotFound { kind }
                    && kind is Run) && !old(self).has_run(run.session_id@),
            },
    {
        let i = match self.find_run(run.session_id.as_str()) {
            Some(i) => i,
            None => {
                return Err(EngineError::NotFound { kind: NotFoundKind::Run });
            },
        };
        proof {
            self.lemma_index_of_run_unique(run.session_id@, i as int);
        }
        let ghost pre = self.runs@;
        self.runs.set(i, run);
        proof {
            let post = final(self).runs@;
            assert forall|a: int, b: int|
                0 <= a < b < post.len() implies #[trigger] post[a].session_id@
                != #[trigger] post[b].session_id@ by {
                assert(pre[a].session_id@ != pre[b].session_id@);
                if a == i {
                    assert(post[a].session_id@ == pre[i as int].session_id@);
                } else if b == i {
                    assert(post[b].session_id@ == pre[i as int].session_id@);
                }
            }
        }
        Ok(())
    }

    /// Discards every run of the given agent kind on the given ticket, so a
    /// retried step starts clean.  Returns how many runs were discarded.
    pub fn delete_runs_for_ticket_agent(&mut self, ticket_id: &str, agent_type: &str) -> (n: usize)
        requires
            old(self).wf(),
        ensures
            final(self).wf(),
            final(self).runs@ == old(self).runs@.filter(
                |run: AgentRun| !run_matches(run, ticket_id@, agent_type@),
            ),
            n as int == old(self).runs@.len() - final(self).runs@.len(),
    {
        let ghost pred = |run: AgentRun| !run_matches(run, ticket_id@, agent_type@);
        let ghost pre = self.runs@;
        let total: usize = self.runs.len();
        let mut kept: Vec<AgentRun> = Vec::new();
        let mut i: usize = 0;
        proof {
            reveal(Seq::filter);
            assert(pre.subrange(0, 0).filter(pred) =~= Seq::<AgentRun>::empty());
        }
        #[verifier::loop_isolation(false)]
        while i < total
            invariant
                0 <= i <= total,
                total == pre.len(),
                self.runs@ == pre,
                kept@ == pre.subrange(0, i as int).filter(pred),
                kept@.len() <= i,
            decreases total - i,
        {
            let run = &self.runs[i];
            let matches_target = str_eq(run.ticket_id.as_str(), ticket_id) && str_eq(
                run.agent_type.as_str(),
                agent_type,
            );
            if !matches_target {
                kept.push(clone_run(run));
            }
            proof {
                reveal(Seq::filter);
                let cur = pre.subrange(0, i as int);
                let nxt = pre.subrange(0, i + 1);
                assert(nxt.drop_last() =~= cur);
                assert(nxt.last() == pre[i as int]);
                if pred(pre[i as int]) {
                    assert(nxt.filter(pred) == cur.filter(pred).push(pre[i as int]));
                } else {
                    assert(nxt.filter(pred) == cur.filter(pred));
                }
            }
            i = i + 1;
        }
        proof {
            assert(pre.subrange(0, total as int) =~= pre);
            lemma_filter_keeps_unique(pre, pred);
        }
        let n_before = self.runs.len();
        let n_after = kept.len();
        proof {
            pre.lemma_filter_len(pred);
        }
        self.runs = kept;
        n_before - n_after
    }

    /// Flips every run still marked running to failed, stamping the given
    /// completion time: the recovery sweep for runs abandoned by an abrupt
    /// process exit.  Returns how many runs were flipped.
    pub fn mark_all_running_as_interrupted(&mut self, completed_at: &str) -> (n: usize)
        requires
            old(self).wf(),
        ensures
            final(self).wf(),
            final(self).runs@.len() == old(self).runs@.len(),
            forall|i: int|
                0 <= i < old(self).runs@.len() ==> {
                    let pre = old(self).runs@[i];
                    let post = #[trigger] final(self).runs@[i];
                    if pre.status is Running {
                        &&& post.status is Failed
                        &&& (post.completed_at matches Some(c) && c@ == completed_at@)
                        &&& post.session_id == pre.session_id
                        &&& post.ticket_id == pre.ticket_id
                        &&& post.epic_id == pre.epic_id
                        &&& post.slice_id == pre.slice_id
                        &&& post.agent_type == pre.agent_type
                        &&& post.started_at == pre.started_at
                        &&& post.input_message == pre.input_message
                        &&& post.output_summary == pre.output_summary
                        &&& post.email_output == pre.email_output
                    } else {
                        post == pre
                    }
                },
            !(exists|i: int|
                0 <= i < final(self).runs@.len() && #[trigger] final(self).runs@[i].status
                    is Running),
            n as int == count_running_runs(old(self).runs@),
    {
        let total: usize = self.runs.len();
        let mut i: usize = 0;
        let mut count: usize = 0;
        proof {
            assert(old(self).runs@.subrange(0, 0) =~= Seq::<AgentRun>::empty());
        }
        #[verifier::loop_isolation(false)]
        while i < total
            invariant
                0 <= i <= total,
                count <= i,
                count as int == count_running_runs(old(self).runs@.subrange(0, i as int)),
                total == self.runs@.len(),
                total == old(self).runs@.len(),
                self.wf(),
                forall|k: int|
                    0 <= k < i ==> {
                        let pre = old(self).runs@[k];
                        let post = #[trigger] self.runs@[k];
                        if pre.status is Running {
                            &&& post.status is Failed
                            &&& (post.completed_at matches Some(c) && c@ == completed_at@)
                            &&& post.session_id == pre.session_id
                            &&& post.ticket_id == pre.ticket_id
                            &&& post.epic_id == pre.epic_id
                            &&& post.slice_id == pre.slice_id
                            &&& post.agent_type == pre.agent_type
                            &&& post.started_at == pre.started_at
                            &&& post.input_message == pre.input_message
                            &&& post.output_summary == pre.output_summary
                            &&& post.email_output == pre.email_output
                        } else {
                            post == pre
                        }
                    },
                forall|k: int|
                    i <= k < total ==> #[trigger] self.runs@[k] == old(self).runs@[k],
            decreases total - i,
        {
            if self.runs[i].status == AgentRunStatus::Running {
                let cur = &self.runs[i];
                let updated = AgentRun {
                    session_id: cur.session_id.clone(),
                    ticket_id: cur.ticket_id.clone(),
                    epic_id: cur.epic_id.clone(),
                    slice_id: cur.slice_id.clone(),
                    agent_type: cur.agent_type.clone(),
                    status: AgentRunStatus::Failed,
                    started_at: cur.started_at.clone(),
                    completed_at: Some(completed_at.to_owned()),
                    input_message: cur.input_message.clone(),
                    output_summary: clone_opt_string(&cur.output_summary),
                    email_output: clone_opt_email(&cur.email_output),
                };
                self.runs.set(i, updated);
                count = count + 1;
                proof {
                    let post = self.runs@;
                    assert forall|a: int, b: int|
                        0 <= a < b < post.len() implies #[trigger] post[a].session_id@
                        != #[trigger] post[b].session_id@ by {
                        assert(post[a].session_id@ == old(self).runs@[a].session_id@);
                        assert(post[b].session_id@ == old(self).runs@[b].session_id@);
                    }
                }
            }
            proof {
                let pre = old(self).runs@;
                let cur = pre.subrange(0, i as int);
                let nxt = pre.subrange(0, i + 1);
                assert(nxt.drop_last() =~= cur);
                assert(nxt.last() == pre[i as int]);
            }
            i = i + 1;
        }
        proof {
            assert(old(self).runs@.subrange(0, total as int) =~= old(self).runs@);
        }
        count
    }
}

} // verus!
