//! The durable, append-only, per-session event log, and the replay that
//! reconstructs a client's view of a run from it.
//!
//! Two producers may write into one session's log concurrently: the primary
//! streaming loop, whose indices start at 0, and an out-of-band tool-result
//! capture path, whose indices start at a reserved high offset.  Within each
//! writer's range, indices are strictly increasing with no gaps; between the
//! ranges, index order need not follow wall-clock arrival order.  That is a
//! deliberate trade-off, not a fault: replay orders by index, and both
//! ranges sort correctly within themselves.

use vstd::prelude::*;
use crate::agents::AgentRun;
use crate::lifecycle::StreamEvent;
use crate::pipeline::clone_opt_string;
use crate::status::{AgentRunStatus, spec_agent_status_str};
use vstd::pervasive::VecAdditionalExecFns;

verus! {

/// First index of the out-of-band writer's reserved range.
pub const OUT_OF_BAND_INDEX_BASE: i32 = 10000;

/// One stored event of a session's log.
#[derive(Clone, Debug, PartialEq)]
pub struct RunEvent {
    pub index: i32,
    pub event: StreamEvent,
}

/// Clones a stream event, preserving its value.
pub fn clone_stream_event(e: &StreamEvent) -> (r: StreamEvent)
    ensures
        r == *e,
{
    match e {
        StreamEvent::Text { content } => StreamEvent::Text { content: content.clone() },
        StreamEvent::ToolUse { id, name, input } => StreamEvent::ToolUse {
            id: id.clone(),
            name: name.clone(),
            input: input.clone(),
        },
        StreamEvent::ToolResult { tool_use_id, content, is_error } => StreamEvent::ToolResult {
            tool_use_id: tool_use_id.clone(),
            content: content.clone(),
            is_error: *is_error,
        },
        StreamEvent::Thinking { content } => StreamEvent::Thinking { content: content.clone() },
        StreamEvent::Status { status, message } => StreamEvent::Status {
            status: status.clone(),
            message: clone_opt_string(message),
        },
        StreamEvent::Result { session_id, status, is_error } => StreamEvent::Result {
            session_id: session_id.clone(),
            status: status.clone(),
            is_error: *is_error,
        },
        StreamEvent::ReplayComplete { total_events, agent_status } => StreamEvent::ReplayComplete {
            total_events: *total_events,
            agent_status: agent_status.clone(),
        },
    }
}

/// True when the event's index lies in the primary writer's range.
pub open spec fn is_primary(e: RunEvent) -> bool {
    e.index < OUT_OF_BAND_INDEX_BASE
}

/// How many of the events lie in the primary writer's range.
pub open spec fn count_primary(s: Seq<RunEvent>) -> int
    decreases s.len(),
{
    if s.len() == 0 {
        0
    } else {
        count_primary(s.drop_last()) + if is_primary(s.last()) {
            1int
        } else {
            0
        }
    }
}

/// How many of the events lie in the out-of-band writer's range.
pub open spec fn count_oob(s: Seq<RunEvent>) -> int
    decreases s.len(),
{
    if s.len() == 0 {
        0
    } else {
        count_oob(s.drop_last()) + if is_primary(s.last()) {
            0
        } else {
            1int
        }
    }
}

/// Appending one event extends the prefix counts by at most one.
proof fn lemma_count_step(s: Seq<RunEvent>, i: int)
    requires
        0 <= i < s.len(),
    ensures
        count_primary(s.subrange(0, i + 1)) == count_primary(s.subrange(0, i)) + (
        if is_primary(s[i]) {
            1int
        } else {
            0
        }),
        count_oob(s.subrange(0, i + 1)) == count_oob(s.subrange(0, i)) + (if is_primary(s[i]) {
            0
        } else {
            1int
        }),
{
    let cur = s.subrange(0, i);
    let nxt = s.subrange(0, i + 1);
    assert(nxt.drop_last() =~= cur);
    assert(nxt.last() == s[i]);
}

/// Prefix counts are monotone and bounded by the prefix length.
proof fn lemma_count_mono(s: Seq<RunEvent>, i: int, j: int)
    requires
        0 <= i <= j <= s.len(),
    ensures
        count_primary(s.subrange(0, i)) <= count_primary(s.subrange(0, j)),
        count_oob(s.subrange(0, i)) <= count_oob(s.subrange(0, j)),
        count_primary(s.subrange(0, j)) - count_primary(s.subrange(0, i)) <= j - i,
        count_oob(s.subrange(0, j)) - count_oob(s.subrange(0, i)) <= j - i,
    decreases j - i,
{
    if i < j {
        lemma_count_mono(s, i, j - 1);
        lemma_count_step(s, j - 1);
    }
}

/// The append-only event log of one session.
#[derive(Clone, Debug, PartialEq)]
pub struct EventLog {
    pub session_id: String,
    pub events: Vec<RunEvent>,
    /// Next index the primary writer assigns; starts at 0.
    pub next_primary: i32,
    /// Next index the out-of-band writer assigns; starts at the reserved
    /// base.
    pub next_oob: i32,
}

impl EventLog {
    /// Well-formedness: each stored event carries the index its writer
    /// assigned, so within each writer's range the stored indices are
    /// exactly 0, 1, ... in arrival order (primary), respectively base,
    /// base + 1, ... (out of band).
    pub open spec fn wf(self) -> bool {
        &&& 0 <= self.next_primary <= OUT_OF_BAND_INDEX_BASE
        &&& OUT_OF_BAND_INDEX_BASE <= self.next_oob
        &&& self.next_primary == count_primary(self.events@)
        &&& self.next_oob == OUT_OF_BAND_INDEX_BASE + count_oob(self.events@)
        &&& forall|i: int|
            0 <= i < self.events@.len() ==> #[trigger] self.events@[i].index == (
            if is_primary(self.events@[i]) {
                count_primary(self.events@.subrange(0, i))
            } else {
                OUT_OF_BAND_INDEX_BASE + count_oob(self.events@.subrange(0, i))
            })
    }

    /// An empty log for the given session.
    pub fn new(session_id: String) -> (r: EventLog)
        ensures
            r.wf(),
            r.session_id == session_id,
            r.events@.len() == 0,
            r.next_primary == 0,
            r.next_oob == OUT_OF_BAND_INDEX_BASE,
    {
        EventLog {
            session_id,
            events: Vec::new(),
            next_primary: 0,
            next_oob: OUT_OF_BAND_INDEX_BASE,
        }
    }

    /// Appends an event as the primary writer, assigning the next index of
    /// the primary range.  The range is bounded by the reserved base.
    pub fn append_primary(&mut self, event: StreamEvent) -> (idx: i32)
        requires
            old(self).wf(),
            old(self).next_primary < OUT_OF_BAND_INDEX_BASE,
        ensures
            final(self).wf(),
            idx == old(self).next_primary,
            final(self).events@ == old(self).events@.push(RunEvent { index: idx, event }),
            final(self).next_primary == old(self).next_primary + 1,
            final(self).next_oob == old(self).next_oob,
            final(self).session_id == old(self).session_id,
    {
        let idx = self.next_primary;
        self.events.push(RunEvent { index: idx, event });
        self.next_primary = self.next_primary + 1;
        proof {
            let post = final(self).events@;
            let pre = old(self).events@;
            assert(post.drop_last() =~= pre);
            assert forall|i: int|
                0 <= i < post.len() implies #[trigger] post[i].index == (
            if is_primary(post[i]) {
                count_primary(post.subrange(0, i))
            } else {
                OUT_OF_BAND_INDEX_BASE + count_oob(post.subrange(0, i))
            }) by {
                if i < pre.len() {
                    assert(post.subrange(0, i) =~= pre.subrange(0, i));
                    assert(post[i] == pre[i]);
                } else {
                    assert(post.subrange(0, i) =~= pre);
                    assert(post[i].index == old(self).next_primary);
                }
            }
        }
        idx
    }

    /// Appends an event as the out-of-band writer, assigning the next index
    /// of the reserved range.
    pub fn append_out_of_band(&mut self, event: StreamEvent) -> (idx: i32)
        requires
            old(self).wf(),
            old(self).next_oob < i32::MAX,
        ensures
            final(self).wf(),
            idx == old(self).next_oob,
            final(self).events@ == old(self).events@.push(RunEvent { index: idx, event }),
            final(self).next_oob == old(self).next_oob + 1,
            final(self).next_primary == old(self).next_primary,
            final(self).session_id == old(self).session_id,
    {
        let idx = self.next_oob;
        self.events.push(RunEvent { index: idx, event });
        self.next_oob = self.next_oob + 1;
        proof {
            let post = final(self).events@;
            let pre = old(self).events@;
            assert(post.drop_last() =~= pre);
            assert forall|i: int|
                0 <= i < post.len() implies #[trigger] post[i].index == (
            if is_primary(post[i]) {
                count_primary(post.subrange(0, i))
            } else {
                OUT_OF_BAND_INDEX_BASE + count_oob(post.subrange(0, i))
            }) by {
                if i < pre.len() {
                    assert(post.subrange(0, i) =~= pre.subrange(0, i));
                    assert(post[i] == pre[i]);
                } else {
                    assert(post.subrange(0, i) =~= pre);
                    assert(post[i].index == old(self).next_oob);
                    assert(!is_primary(post[i]));
                }
            }
        }
        idx
    }

    /// Within either writer's range, the stored indices are strictly
    /// increasing in order of appearance.
    pub proof fn lemma_writer_indices_strictly_increasing(self, i: int, j: int)
        requires
            self.wf(),
            0 <= i < j < self.events@.len(),
            is_primary(self.events@[i]) == is_primary(self.events@[j]),
        ensures
            self.events@[i].index < self.events@[j].index,
    {
        lemma_count_step(self.events@, i);
        lemma_count_mono(self.events@, i + 1, j);
    }

    /// Within either writer's range, the stored indices have no gaps: every
    /// index between the range's start and its next free index is carried
    /// by exactly one stored event of that range.
    pub proof fn lemma_writer_indices_gapless(self, v: int)
        requires
            self.wf(),
            (0 <= v < self.next_primary) || (OUT_OF_BAND_INDEX_BASE <= v < self.next_oob),
        ensures
            exists|i: int|
                0 <= i < self.events@.len() && #[trigger] self.events@[i].index == v,
    {
        let s = self.events@;
        assert(s.subrange(0, s.len() as int) =~= s);
        if v < self.next_primary {
            lemma_gapless_primary(s, v, s.len() as int);
        } else {
            lemma_gapless_oob(s, v - OUT_OF_BAND_INDEX_BASE, s.len() as int);
        }
    }
}

/// The events of the primary writer's range, in order of appearance.
pub open spec fn primary_events(s: Seq<RunEvent>) -> Seq<RunEvent> {
    s.filter(|e: RunEvent| is_primary(e))
}

/// The events of the out-of-band writer's range, in order of appearance.
pub open spec fn oob_events(s: Seq<RunEvent>) -> Seq<RunEvent> {
    s.filter(|e: RunEvent| !is_primary(e))
}

/// The whole log sorted by index: under `wf` each range appears in index
/// order, and every primary index precedes every out-of-band index.
pub open spec fn ordered_events(s: Seq<RunEvent>) -> Seq<RunEvent> {
    primary_events(s) + oob_events(s)
}

impl EventLog {
    /// The stored events sorted by index: the primary range first, then the
    /// out-of-band range, each in order of appearance.
    pub fn events_in_index_order(&self) -> (r: Vec<RunEvent>)
        ensures
            r@ == ordered_events(self.events@),
    {
        let ghost pred_p = |e: RunEvent| is_primary(e);
        let ghost pred_o = |e: RunEvent| !is_primary(e);
        let ghost pre = self.events@;
        let total: usize = self.events.len();
        let mut out: Vec<RunEvent> = Vec::new();
        proof {
            reveal(Seq::filter);
            assert(pre.subrange(0, 0).filter(pred_p) =~= Seq::<RunEvent>::empty());
            assert(pre.subrange(0, 0).filter(pred_o) =~= Seq::<RunEvent>::empty());
        }
        let mut i: usize = 0;
        #[verifier::loop_isolation(false)]
        while i < total
            invariant
                0 <= i <= total,
                out@ == pre.subrange(0, i as int).filter(pred_p),
            decreases total - i,
        {
            let e = &self.events[i];
            if e.index < OUT_OF_BAND_INDEX_BASE {
                out.push(RunEvent { index: e.index, event: clone_stream_event(&e.event) });
            }
            proof {
                reveal(Seq::filter);
                let cur = pre.subrange(0, i as int);
                let nxt = pre.subrange(0, i + 1);
                assert(nxt.drop_last() =~= cur);
                assert(nxt.last() == pre[i as int]);
                if pred_p(pre[i as int]) {
                    assert(nxt.filter(pred_p) == cur.filter(pred_p).push(pre[i as int]));
                } else {
                    assert(nxt.filter(pred_p) == cur.filter(pred_p));
                }
            }
            i = i + 1;
        }
        let mut j: usize = 0;
        #[verifier::loop_isolation(false)]
        while j < total
            invariant
                0 <= j <= total,
                out@ == pre.subrange(0, total as int).filter(pred_p) + pre.subrange(
                    0,
                    j as int,
                ).filter(pred_o),
            decreases total - j,
        {
            let e = &self.events[j];
            if !(e.index < OUT_OF_BAND_INDEX_BASE) {
                out.push(RunEvent { index: e.index, event: clone_stream_event(&e.event) });
            }
            proof {
                reveal(Seq::filter);
                let cur = pre.subrange(0, j as int);
                let nxt = pre.subrange(0, j + 1);
                assert(nxt.drop_last() =~= cur);
                assert(nxt.last() == pre[j as int]);
                if pred_o(pre[j as int]) {
                    assert(nxt.filter(pred_o) == cur.filter(pred_o).push(pre[j as int]));
                    assert(out@ =~= pre.subrange(0, total as int).filter(pred_p) + nxt.filter(
                        pred_o,
                    ));
                } else {
                    assert(nxt.filter(pred_o) == cur.filter(pred_o));
                }
            }
            j = j + 1;
        }
        proof {
            assert(pre.subrange(0, total as int) =~= pre);
        }
        out
    }
}

/// Reconstructs a client's view of a run from the durable log: every stored
/// event in index order, a marker closing the replay, then either a running
/// indicator (the run is still in flight) or the terminal result, preceded
/// by one synthesized text event when the run finished but the stored
/// events carry no text at all — a defensive fallback that surfaces the
/// persisted output summary.
pub fn replay(log: &EventLog, run: &AgentRun) -> (r: Vec<StreamEvent>)
    ensures
        ({
            let ordered = ordered_events(log.events@);
            let n = ordered.len() as int;
            let has_text = exists|k: int| 0 <= k < n && (#[trigger] ordered[k].event) is Text;
            let synth = !(run.status is Running) && !has_text && run.output_summary is Some;
            &&& forall|k: int| 0 <= k < n ==> #[trigger] r@[k] == ordered[k].event
            &&& (r@[n] matches StreamEvent::ReplayComplete { total_events: t, agent_status: a }
                && t as int == n && a@ == spec_agent_status_str(run.status))
            &&& if run.status is Running {
                &&& r@.len() == n + 2
                &&& (r@[n + 1] matches StreamEvent::Status { status: s, message: m } && s@
                    == "running"@ && m is None)
            } else {
                &&& r@.len() == n + 2 + (if synth {
                    1int
                } else {
                    0
                })
                &&& (synth ==> (r@[n + 1] matches StreamEvent::Text { content: c } && c
                    == run.output_summary.unwrap()))
                &&& (r@[r@.len() - 1] matches StreamEvent::Result { session_id: sid, status: st, is_error: e }
                    && sid == run.session_id && st@ == spec_agent_status_str(run.status) && e == (
                    run.status is Failed))
            }
        }),
{
    let ordered = log.events_in_index_order();
    let n: usize = ordered.len();
    let mut out: Vec<StreamEvent> = Vec::new();
    let mut has_text: bool = false;
    let mut i: usize = 0;
    while i < n
        invariant
            0 <= i <= n,
            n == ordered@.len(),
            out@.len() == i,
            forall|k: int| 0 <= k < i ==> #[trigger] out@[k] == ordered@[k].event,
            has_text == exists|k: int|
                0 <= k < i && (#[trigger] ordered@[k].event) is Text,
        decreases n - i,
    {
        let is_txt = match &ordered[i].event {
            StreamEvent::Text { .. } => true,
            _ => false,
        };
        if is_txt {
            has_text = true;
        }
        out.push(clone_stream_event(&ordered[i].event));
        i = i + 1;
    }
    out.push(
        StreamEvent::ReplayComplete { total_events: n, agent_status: run.status.as_str().to_owned() },
    );
    if run.status == AgentRunStatus::Running {
        out.push(StreamEvent::Status { status: "running".to_owned(), message: None });
    } else {
        if !has_text {
            match &run.output_summary {
                Some(o) => {
                    out.push(StreamEvent::Text { content: o.clone() });
                },
                None => (),
            }
        }
        out.push(
            StreamEvent::Result {
                session_id: run.session_id.clone(),
                status: run.status.as_str().to_owned(),
                is_error: run.status == AgentRunStatus::Failed,
            },
        );
    }
    out
}

/// Every primary count value below the prefix count is the index of some
/// primary event of the prefix.
proof fn lemma_gapless_primary(s: Seq<RunEvent>, v: int, n: int)
    requires
        0 <= n <= s.len(),
        0 <= v < count_primary(s.subrange(0, n)),
        forall|i: int|
            0 <= i < s.len() ==> #[trigger] s[i].index == (if is_primary(s[i]) {
                count_primary(s.subrange(0, i))
            } else {
                OUT_OF_BAND_INDEX_BASE + count_oob(s.subrange(0, i))
            }),
    ensures
        exists|i: int| 0 <= i < n && #[trigger] s[i].index == v && is_primary(s[i]),
    decreases n,
{
    lemma_count_step(s, n - 1);
    if is_primary(s[n - 1]) && count_primary(s.subrange(0, n - 1)) == v {
        assert(s[n - 1].index == v && is_primary(s[n - 1]));
    } else {
        lemma_gapless_primary(s, v, n - 1);
    }
}

/// Every out-of-band count value below the prefix count is carried (offset
/// by the reserved base) by some out-of-band event of the prefix.
proof fn lemma_gapless_oob(s: Seq<RunEvent>, v: int, n: int)
    requires
        0 <= n <= s.len(),
        0 <= v < count_oob(s.subrange(0, n)),
        forall|i: int|
            0 <= i < s.len() ==> #[trigger] s[i].index == (if is_primary(s[i]) {
                count_primary(s.subrange(0, i))
            } else {
                OUT_OF_BAND_INDEX_BASE + count_oob(s.subrange(0, i))
            }),
    ensures
        exists|i: int|
            0 <= i < n && #[trigger] s[i].index == OUT_OF_BAND_INDEX_BASE + v && !is_primary(
                s[i],
            ),
    decreases n,
{
    lemma_count_step(s, n - 1);
    if !is_primary(s[n - 1]) && count_oob(s.subrange(0, n - 1)) == v {
        assert(s[n - 1].index == OUT_OF_BAND_INDEX_BASE + v && !is_primary(s[n - 1]));
    } else {
        lemma_gapless_oob(s, v, n - 1);
    }
}

} // verus!
