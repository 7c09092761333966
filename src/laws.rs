//! Properties of the fleet that span several calls.
use vstd::prelude::*;

use crate::fleet::Fleet;
use crate::reconciler::{reclaimed, reconcile, report_job, Reconciliation, Report};
use crate::job::{is_terminal, step_or_stay, JobStatus};
use crate::node::{busy_iff_assigned, NodeStatus};

verus! {

/// In every well-formed fleet (every operation keeps it so), a node is Busy
/// exactly when it holds an assigned job.
pub proof fn lemma_busy_iff_assigned(f: &Fleet)
    requires
        f.wf(),
    ensures
        forall|n: u128| #[trigger]
            f.model().nodes.contains_key(n) ==> busy_iff_assigned(f.model().nodes[n]),
{
    f.lemma_consistent();
}

/// No job leaves a terminal state: the only status that can follow a
/// terminal one (see `evolves`, which every operation ensures) is itself.
pub proof fn lemma_terminal_is_final(from: JobStatus, to: JobStatus)
    requires
        is_terminal(from),
        step_or_stay(from, to),
    ensures
        to == from,
{
}

/// Taking the same heartbeat twice leaves the fleet as taking it once; in
/// particular a repeated report that a job finished changes nothing more.
pub proof fn lemma_heartbeat_idempotent(f: &Fleet, id: u128, report: Report, now: u64)
    requires
        f.wf(),
        f.model().nodes.contains_key(id),
    ensures
        ({
            let grace = f.config().grace_period_ms;
            let once = reconcile(f.model(), grace, id, report, now).0;
            reconcile(once, grace, id, report, now).0 == once
        }),
{
    f.lemma_consistent();
    let m = f.model();
    let grace = f.config().grace_period_ms;
    let once = reconcile(m, grace, id, report, now).0;
    let twice = reconcile(once, grace, id, report, now).0;
    assert(once.nodes =~= twice.nodes);
    assert(once.jobs =~= twice.jobs);
}

/// A node whose assignment is contradicted by a heartbeat after the grace
/// period gets its job requeued and is itself Available and unassigned; the
/// same heartbeat again requeues nothing more.
pub proof fn lemma_drift_requeued_once(f: &Fleet, id: u128, report: Report, now: u64)
    requires
        f.wf(),
        f.model().nodes.contains_key(id),
        f.model().nodes[id].assigned_job_id is Some,
        report_job(report) != f.model().nodes[id].assigned_job_id,
        now >= f.model().nodes[id].heartbeat_timestamp,
        now - f.model().nodes[id].confirmed_at > f.config().grace_period_ms,
    ensures
        ({
            let grace = f.config().grace_period_ms;
            let a = f.model().nodes[id].assigned_job_id->Some_0;
            let (m1, r1) = reconcile(f.model(), grace, id, report, now);
            &&& r1 == Reconciliation::Requeued(a)
            &&& m1.jobs[a].status == JobStatus::Queued
            &&& m1.jobs[a].node_id is None
            &&& m1.nodes[id].status == NodeStatus::Available
            &&& m1.nodes[id].assigned_job_id is None
            &&& !(reconcile(m1, grace, id, report, now).1 is Requeued)
        }),
{
    f.lemma_consistent();
}

/// Reclaiming the lost assignment of a silent node requeues its job and
/// frees the node once; reclaiming again at the same time does nothing.
pub proof fn lemma_reclaim_once(f: &Fleet, id: u128, now: u64)
    requires
        f.wf(),
        f.model().nodes.contains_key(id),
        f.model().nodes[id].assigned_job_id is Some,
        now - f.model().nodes[id].confirmed_at > f.config().grace_period_ms,
    ensures
        ({
            let grace = f.config().grace_period_ms;
            let a = f.model().nodes[id].assigned_job_id->Some_0;
            let (m1, r1) = reclaimed(f.model(), grace, id, now);
            &&& r1 == Some(a)
            &&& m1.jobs[a].status == JobStatus::Queued
            &&& m1.jobs[a].node_id is None
            &&& m1.nodes[id].status == NodeStatus::Available
            &&& m1.nodes[id].assigned_job_id is None
            &&& reclaimed(m1, grace, id, now) == (m1, None::<u128>)
        }),
{
    f.lemma_consistent();
}

} // verus!
