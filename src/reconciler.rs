//! Reconciliation of what the scheduler assigned with what nodes report.
use vstd::prelude::*;

use crate::fleet::{consistent, evolves, node_key, running, vacated, Fleet, FleetError, Model};
use crate::job::{is_terminal, outcome_status, status_is_terminal, JobStatus, Outcome};
use crate::keyed::lemma_keyed_update;
use crate::node::{assignment_lost, ClusterNode};

verus! {

/// What a node says in a heartbeat: nothing running, a job running, or a
/// job finished with an outcome.
#[derive(Clone, Copy, Debug, PartialEq, Eq, Structural)]
pub enum Report {
    Idle,
    Running(u128),
    Finished(u128, Outcome),
}

/// What reconciling one heartbeat did.
#[derive(Clone, Copy, Debug, PartialEq, Eq, Structural)]
pub enum Reconciliation {
    /// Older than the last heartbeat taken: nothing changed.
    Ignored,
    /// Report and assignment agree; nothing to do beyond recording it.
    InSync,
    /// The assigned job was Starting and is now Running.
    Confirmed(u128),
    /// The assigned job ended; its node is Available again.
    Completed(u128),
    /// Report and assignment disagree, still within the grace period.
    Pending,
    /// The assignment was lost: the job is Queued again, the node Available.
    Requeued(u128),
    /// The node reports a job that is not assigned to it; flagged only.
    Stray(u128),
}

pub open spec fn report_job(r: Report) -> Option<u128> {
    match r {
        Report::Idle => None,
        Report::Running(j) => Some(j),
        Report::Finished(j, _) => Some(j),
    }
}

/// `n` after a heartbeat at `now` that carries `report`; a report naming
/// the assigned job confirms the assignment.
pub open spec fn heard(n: ClusterNode, report: Report, now: u64) -> ClusterNode {
    ClusterNode {
        heartbeat_timestamp: now,
        reported_job_id: report_job(report),
        confirmed_at: if report_job(report) is Some && report_job(report) == n.assigned_job_id {
            now
        } else {
            n.confirmed_at
        },
        updated_at: now,
        ..n
    }
}

/// The effect of one heartbeat of a known node `id`: the new state and what
/// was done. The heartbeat is recorded, then the reported job is compared
/// with the assigned one.
pub open spec fn reconcile(
    m: Model,
    grace: u64,
    id: u128,
    report: Report,
    now: u64,
) -> (Model, Reconciliation) {
    let n = m.nodes[id];
    let m1 = Model { nodes: m.nodes.insert(id, heard(n, report, now)), jobs: m.jobs };
    if now < n.heartbeat_timestamp {
        (m, Reconciliation::Ignored)
    } else {
        match n.assigned_job_id {
            Some(a) => match report {
                Report::Running(j) if j == a => if m.jobs[a].status == JobStatus::Starting {
                    (running(m1, a, now), Reconciliation::Confirmed(a))
                } else {
                    (m1, Reconciliation::InSync)
                },
                Report::Finished(j, o) if j == a => (
                    vacated(m1, a, outcome_status(o), now),
                    Reconciliation::Completed(a),
                ),
                _ => if now - n.confirmed_at > grace {
                    (vacated(m1, a, JobStatus::Queued, now), Reconciliation::Requeued(a))
                } else {
                    (m1, Reconciliation::Pending)
                },
            },
            None => match report {
                Report::Idle => (m1, Reconciliation::InSync),
                Report::Running(j) => (m1, Reconciliation::Stray(j)),
                Report::Finished(j, _) => if m.jobs.contains_key(j) && is_terminal(
                    m.jobs[j].status,
                ) {
                    (m1, Reconciliation::InSync)
                } else {
                    (m1, Reconciliation::Stray(j))
                },
            },
        }
    }
}

/// The assignment of node `id` taken back at `now` if it went unconfirmed
/// past `grace`: its job Queued again and the node Available.
pub open spec fn reclaimed(m: Model, grace: u64, id: u128, now: u64) -> (Model, Option<u128>) {
    let n = m.nodes[id];
    if assignment_lost(n, now, grace) {
        (vacated(m, n.assigned_job_id->Some_0, JobStatus::Queued, now), n.assigned_job_id)
    } else {
        (m, None)
    }
}

impl Fleet {
    /// Takes one heartbeat of node `id` at `now`: records it, then resolves
    /// any disagreement between the job assigned to the node and the job it
    /// reports (see `reconcile`).
    pub fn ingest_heartbeat(&mut self, id: u128, report: Report, now: u64) -> (r: Result<
        Reconciliation,
        FleetError,
    >)
        requires
            old(self).wf(),
        ensures
            final(self).wf(),
            final(self).config() == old(self).config(),
            evolves(old(self).model(), final(self).model()),
            r is Err <==> !old(self).model().nodes.contains_key(id),
            r is Err ==> r == Err::<Reconciliation, FleetError>(FleetError::UnknownNode)
                && final(self).model() == old(self).model(),
            r matches Ok(a) ==> (final(self).model(), a) == reconcile(
                old(self).model(),
                old(self).config().grace_period_ms,
                id,
                report,
                now,
            ),
    {
        let ghost m = self.model();
        let grace = self.config.grace_period_ms;
        let ni = match self.find_node(id) {
            Some(i) => i,
            None => return Err(FleetError::UnknownNode),
        };
        let n = self.nodes[ni];
        if now < n.heartbeat_timestamp {
            return Ok(Reconciliation::Ignored);
        }
        let reported = match report {
            Report::Idle => None,
            Report::Running(j) => Some(j),
            Report::Finished(j, _) => Some(j),
        };
        let mut h = n;
        h.heartbeat_timestamp = now;
        h.reported_job_id = reported;
        if reported.is_some() && reported == n.assigned_job_id {
            h.confirmed_at = now;
        }
        h.updated_at = now;
        proof {
            lemma_keyed_update(self.nodes@, node_key(), ni as int, h);
        }
        self.nodes.set(ni, h);
        let ghost m1 = self.model();
        assert(m1 == Model { nodes: m.nodes.insert(id, heard(n, report, now)), jobs: m.jobs });
        assert(consistent(m1));
        match n.assigned_job_id {
            Some(a) => {
                let matched = match report {
                    Report::Running(j) => j == a,
                    Report::Finished(j, _) => j == a,
                    Report::Idle => false,
                };
                if matched {
                    match report {
                        Report::Finished(_, o) => {
                            let ji = self.find_job(a).unwrap();
                            let status = match o {
                                Outcome::Succeeded => JobStatus::Succeeded,
                                Outcome::Failed => JobStatus::Failed,
                            };
                            self.vacate(ji, status, now);
                            Ok(Reconciliation::Completed(a))
                        },
                        _ => {
                            let ji = self.find_job(a).unwrap();
                            if self.jobs[ji].status == JobStatus::Starting {
                                let res = self.mark_running(a, now);
                                assert(res is Ok);
                                Ok(Reconciliation::Confirmed(a))
                            } else {
                                Ok(Reconciliation::InSync)
                            }
                        },
                    }
                } else if now > n.confirmed_at && now - n.confirmed_at > grace {
                    let ji = self.find_job(a).unwrap();
                    self.vacate(ji, JobStatus::Queued, now);
                    Ok(Reconciliation::Requeued(a))
                } else {
                    Ok(Reconciliation::Pending)
                }
            },
            None => match report {
                Report::Idle => Ok(Reconciliation::InSync),
                Report::Running(j) => Ok(Reconciliation::Stray(j)),
                Report::Finished(j, _) => {
                    let known_done = match self.find_job(j) {
                        Some(ji) => status_is_terminal(self.jobs[ji].status),
                        None => false,
                    };
                    if known_done {
                        Ok(Reconciliation::InSync)
                    } else {
                        Ok(Reconciliation::Stray(j))
                    }
                },
            },
        }
    }

    /// Takes back the assignment of node `id` if the node has not confirmed
    /// it for longer than the grace period (the node went silent or keeps
    /// reporting something else): the job is Queued again and the node
    /// Available. Returns the requeued job.
    pub fn reclaim_if_lost(&mut self, id: u128, now: u64) -> (r: Result<Option<u128>, FleetError>)
        requires
            old(self).wf(),
        ensures
            final(self).wf(),
            final(self).config() == old(self).config(),
            evolves(old(self).model(), final(self).model()),
            r is Err <==> !old(self).model().nodes.contains_key(id),
            r is Err ==> r == Err::<Option<u128>, FleetError>(FleetError::UnknownNode)
                && final(self).model() == old(self).model(),
            r matches Ok(j) ==> (final(self).model(), j) == reclaimed(
                old(self).model(),
                old(self).config().grace_period_ms,
                id,
                now,
            ),
    {
        let ni = match self.find_node(id) {
            Some(i) => i,
            None => return Err(FleetError::UnknownNode),
        };
        let n = self.nodes[ni];
        if n.is_assignment_lost(now, self.config.grace_period_ms) {
            let a = n.assigned_job_id.unwrap();
            let ji = self.find_job(a).unwrap();
            self.vacate(ji, JobStatus::Queued, now);
            Ok(Some(a))
        } else {
            Ok(None)
        }
    }
}

} // verus!
