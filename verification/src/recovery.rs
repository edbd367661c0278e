//! The recovery sweep: run on process start and on graceful shutdown, it
//! reconciles whatever an abrupt process exit left mid-flight, so that no
//! run and no step is permanently stuck.
//!
//! Runs still marked running are flipped to failed with a completion time
//! (see [`RunStore::mark_all_running_as_interrupted`]); steps still marked
//! running are reset to queued, which makes them retryable.  The step reset
//! is a crash-recovery measure and deliberately stands outside the step
//! state machine's operation edges: no operation of a live engine ever
//! moves a running step back to queued.

use vstd::prelude::*;
use crate::models::Ticket;
use crate::pipeline::{PipelineStep, step_with, clone_opt_outputs, clone_opt_error};
use crate::runstore::{RunStore, count_running_runs};
use crate::status::PipelineStepStatus;
use crate::engine::same_ticket_core;

verus! {

/// How many of the steps are still marked running.
pub open spec fn count_running_steps(s: Seq<PipelineStep>) -> int
    decreases s.len(),
{
    if s.len() == 0 {
        0
    } else {
        count_running_steps(s.drop_last()) + if s.last().status is Running {
            1int
        } else {
            0
        }
    }
}

/// Resets every step of the ticket's pipeline that is still marked running
/// back to queued, clearing its stale run binding.  Returns how many steps
/// were reset.  A ticket without a pipeline is left untouched.
pub fn reset_interrupted_pipeline_steps(ticket: &mut Ticket) -> (n: usize)
    requires
        old(ticket).wf(),
    ensures
        final(ticket).wf(),
        same_ticket_core(*old(ticket), *final(ticket)),
        final(ticket).status == old(ticket).status,
        old(ticket).pipeline is None ==> *final(ticket) == *old(ticket) && n == 0,
        old(ticket).pipeline matches Some(p) ==> (final(ticket).pipeline matches Some(q) && {
            &&& q.steps@.len() == p.steps@.len()
            &&& forall|i: int|
                0 <= i < p.steps@.len() ==> #[trigger] q.steps@[i] == (
                if p.steps@[i].status is Running {
                    step_with(
                        p.steps@[i],
                        PipelineStepStatus::Queued,
                        None,
                        p.steps@[i].outputs,
                        p.steps@[i].error,
                    )
                } else {
                    p.steps@[i]
                })
            &&& !(exists|i: int|
                0 <= i < q.steps@.len() && #[trigger] q.steps@[i].status is Running)
            &&& n as int == count_running_steps(p.steps@)
        }),
{
    match &mut ticket.pipeline {
        None => 0,
        Some(p) => {
            let ghost pre = p.steps@;
            let total: usize = p.steps.len();
            let mut i: usize = 0;
            let mut count: usize = 0;
            proof {
                assert(pre.subrange(0, 0) =~= Seq::<PipelineStep>::empty());
            }
            #[verifier::loop_isolation(false)]
            while i < total
                invariant
                    0 <= i <= total,
                    count <= i,
                    count as int == count_running_steps(pre.subrange(0, i as int)),
                    total == p.steps@.len(),
                    total == pre.len(),
                    p.wf(),
                    forall|k: int|
                        0 <= k < i ==> #[trigger] p.steps@[k] == (
                        if pre[k].status is Running {
                            step_with(
                                pre[k],
                                PipelineStepStatus::Queued,
                                None,
                                pre[k].outputs,
                                pre[k].error,
                            )
                        } else {
                            pre[k]
                        }),
                    forall|k: int| i <= k < total ==> #[trigger] p.steps@[k] == pre[k],
                decreases total - i,
            {
                if p.steps[i].status == PipelineStepStatus::Running {
                    let outs = clone_opt_outputs(&p.steps[i].outputs);
                    let err = clone_opt_error(&p.steps[i].error);
                    p.set_step_fields(i, PipelineStepStatus::Queued, None, outs, err);
                    count = count + 1;
                }
                proof {
                    let cur = pre.subrange(0, i as int);
                    let nxt = pre.subrange(0, i + 1);
                    assert(nxt.drop_last() =~= cur);
                    assert(nxt.last() == pre[i as int]);
                }
                i = i + 1;
            }
            proof {
                assert(pre.subrange(0, total as int) =~= pre);
            }
            count
        },
    }
}

/// The full recovery sweep: flips abandoned runs to failed and resets
/// abandoned steps to queued, for one ticket and the run registry.
/// Returns how many runs and how many steps were reconciled.
pub fn sweep(ticket: &mut Ticket, runs: &mut RunStore, completed_at: &str) -> (n: (usize, usize))
    requires
        old(ticket).wf(),
        old(runs).wf(),
    ensures
        final(ticket).wf(),
        final(runs).wf(),
        same_ticket_core(*old(ticket), *final(ticket)),
        final(ticket).status == old(ticket).status,
        n.0 as int == count_running_runs(old(runs).runs@),
        n.1 as int == (match old(ticket).pipeline {
            Some(p) => count_running_steps(p.steps@),
            None => 0,
        }),
        final(runs).runs@.len() == old(runs).runs@.len(),
        forall|i: int|
            0 <= i < old(runs).runs@.len() ==> {
                let pre = old(runs).runs@[i];
                let post = #[trigger] final(runs).runs@[i];
                if pre.status is Running {
                    &&& post.status is Failed
                    &&& (post.completed_at matches Some(c) && c@ == completed_at@)
                    &&& post.session_id == pre.session_id
                    &&& post.ticket_id == pre.ticket_id
                    &&& post.agent_type == pre.agent_type
                    &&& post.started_at == pre.started_at
                    &&& post.input_message == pre.input_message
                    &&& post.output_summary == pre.output_summary
                } else {
                    post == pre
                }
            },
        old(ticket).pipeline is None ==> final(ticket).pipeline is None,
        old(ticket).pipeline matches Some(p) ==> (final(ticket).pipeline matches Some(q) && {
            &&& q.steps@.len() == p.steps@.len()
            &&& forall|i: int|
                0 <= i < p.steps@.len() ==> #[trigger] q.steps@[i] == (
                if p.steps@[i].status is Running {
                    step_with(
                        p.steps@[i],
                        PipelineStepStatus::Queued,
                        None,
                        p.steps@[i].outputs,
                        p.steps@[i].error,
                    )
                } else {
                    p.steps@[i]
                })
        }),
        !(exists|i: int|
            0 <= i < final(runs).runs@.len() && #[trigger] final(runs).runs@[i].status
                is Running),
        final(ticket).pipeline matches Some(q) ==> !(exists|i: int|
            0 <= i < q.steps@.len() && #[trigger] q.steps@[i].status is Running),
{
    let nr = runs.mark_all_running_as_interrupted(completed_at);
    let ns = reset_interrupted_pipeline_steps(ticket);
    (nr, ns)
}

} // verus!
