//! The node registry and job lifecycle manager, kept in one structure so
//! that a node's assignment and its job's placement always change together.
use vstd::prelude::*;

use crate::job::{
    is_placed, is_terminal, outcome_status, step_or_stay, JobStatus, Outcome, TrainingJob,
};
use crate::keyed::{keyed, lemma_keyed_index, lemma_keyed_push, lemma_keyed_update, unique_keys};
use crate::node::{assigned, busy_iff_assigned, fresh_node, released, ClusterNode, NodeStatus};
use crate::resources::Resources;

verus! {

/// Durations in milliseconds: a node unheard for longer than
/// `staleness_threshold_ms` takes no new work; an assignment that the node
/// has not confirmed for longer than `grace_period_ms` is taken back.
#[derive(Clone, Copy, Debug, PartialEq, Eq, Structural)]
pub struct FleetConfig {
    pub staleness_threshold_ms: u64,
    pub grace_period_ms: u64,
}

#[derive(Clone, Copy, Debug, PartialEq, Eq, Structural)]
pub enum FleetError {
    UnknownNode,
    DuplicateNode,
    UnknownJob,
    DuplicateJob,
    InvalidTransition,
    /// Stored records that break the fleet's invariant.
    Inconsistent,
}

/// The state of the fleet: nodes and jobs by id.
pub struct Model {
    pub nodes: Map<u128, ClusterNode>,
    pub jobs: Map<u128, TrainingJob>,
}

/// Each record sits under its own id; a node is Busy exactly when it holds
/// an assignment; a job holds a node exactly while Starting or Running; and
/// assignment and placement always point at each other.
pub open spec fn consistent(m: Model) -> bool {
    &&& forall|n: u128| #[trigger]
        m.nodes.contains_key(n) ==> {
            &&& m.nodes[n].id == n
            &&& busy_iff_assigned(m.nodes[n])
            &&& m.nodes[n].assigned_job_id matches Some(j) ==> {
                &&& m.jobs.contains_key(j)
                &&& m.jobs[j].node_id == Some(n)
            }
        }
    &&& forall|j: u128| #[trigger]
        m.jobs.contains_key(j) ==> {
            &&& m.jobs[j].id == j
            &&& m.jobs[j].wf()
            &&& m.jobs[j].node_id matches Some(n) ==> {
                &&& m.nodes.contains_key(n)
                &&& m.nodes[n].assigned_job_id == Some(j)
            }
        }
}

/// The node half of `consistent`, for one node.
pub open spec fn node_ok(m: Model, n: u128) -> bool {
    &&& m.nodes[n].id == n
    &&& busy_iff_assigned(m.nodes[n])
    &&& m.nodes[n].assigned_job_id matches Some(j) ==> {
        &&& m.jobs.contains_key(j)
        &&& m.jobs[j].node_id == Some(n)
    }
}

/// The job half of `consistent`, for one job.
pub open spec fn job_ok(m: Model, j: u128) -> bool {
    &&& m.jobs[j].id == j
    &&& m.jobs[j].wf()
    &&& m.jobs[j].node_id matches Some(n) ==> {
        &&& m.nodes.contains_key(n)
        &&& m.nodes[n].assigned_job_id == Some(j)
    }
}

pub open spec fn node_key() -> spec_fn(ClusterNode) -> u128 {
    |n: ClusterNode| n.id
}

pub open spec fn job_key() -> spec_fn(TrainingJob) -> u128 {
    |j: TrainingJob| j.id
}

/// `j` moved to `status` at `now`, placed on `node`.
pub open spec fn moved(
    j: TrainingJob,
    status: JobStatus,
    node: Option<u128>,
    now: u64,
) -> TrainingJob {
    TrainingJob { status, node_id: node, updated_at: now, ..j }
}

/// Job `job` placed on node `node` at `now`: the node is reserved for it and
/// the job is Starting, in one step.
pub open spec fn started(m: Model, job: u128, node: u128, now: u64) -> Model {
    Model {
        nodes: m.nodes.insert(node, assigned(m.nodes[node], job, now)),
        jobs: m.jobs.insert(job, moved(m.jobs[job], JobStatus::Starting, Some(node), now)),
    }
}

/// Job `job` confirmed Running at `now`.
pub open spec fn running(m: Model, job: u128, now: u64) -> Model {
    Model {
        nodes: m.nodes,
        jobs: m.jobs.insert(job, moved(m.jobs[job], JobStatus::Running, m.jobs[job].node_id, now)),
    }
}

/// Job `job` moved to `status` (Queued again, or terminal) at `now`; the
/// node it held, if any, is returned to Available in the same step.
pub open spec fn vacated(m: Model, job: u128, status: JobStatus, now: u64) -> Model {
    Model {
        nodes: match m.jobs[job].node_id {
            Some(n) => m.nodes.insert(n, released(m.nodes[n], now)),
            None => m.nodes,
        },
        jobs: m.jobs.insert(job, moved(m.jobs[job], status, None, now)),
    }
}

pub open spec fn start_result(m: Model, job: u128, node: u128) -> Result<(), FleetError> {
    if !m.jobs.contains_key(job) {
        Err(FleetError::UnknownJob)
    } else if !m.nodes.contains_key(node) {
        Err(FleetError::UnknownNode)
    } else if m.jobs[job].status != JobStatus::Queued || m.nodes[node].status
        != NodeStatus::Available {
        Err(FleetError::InvalidTransition)
    } else {
        Ok(())
    }
}

pub open spec fn run_result(m: Model, job: u128) -> Result<(), FleetError> {
    if !m.jobs.contains_key(job) {
        Err(FleetError::UnknownJob)
    } else if m.jobs[job].status != JobStatus::Starting {
        Err(FleetError::InvalidTransition)
    } else {
        Ok(())
    }
}

/// A terminal report is accepted for a placed job, and again (as a no-op)
/// once the job already ended with that same status.
pub open spec fn terminal_result(m: Model, job: u128, status: JobStatus) -> Result<(), FleetError> {
    if !m.jobs.contains_key(job) {
        Err(FleetError::UnknownJob)
    } else if is_placed(m.jobs[job].status) || m.jobs[job].status == status {
        Ok(())
    } else {
        Err(FleetError::InvalidTransition)
    }
}

/// The state after `terminal_result` accepted the report.
pub open spec fn terminated(m: Model, job: u128, status: JobStatus, now: u64) -> Model {
    if is_placed(m.jobs[job].status) {
        vacated(m, job, status, now)
    } else {
        m
    }
}

pub open spec fn cancel_result(m: Model, job: u128) -> Result<(), FleetError> {
    if !m.jobs.contains_key(job) {
        Err(FleetError::UnknownJob)
    } else if is_terminal(m.jobs[job].status) && m.jobs[job].status != JobStatus::Cancelled {
        Err(FleetError::InvalidTransition)
    } else {
        Ok(())
    }
}

pub open spec fn cancelled(m: Model, job: u128, now: u64) -> Model {
    if m.jobs[job].status == JobStatus::Cancelled {
        m
    } else {
        vacated(m, job, JobStatus::Cancelled, now)
    }
}

/// Between two states, no job disappears and each job's status stays or
/// follows one edge of the lifecycle.
pub open spec fn evolves(m0: Model, m1: Model) -> bool {
    forall|j: u128| #[trigger]
        m0.jobs.contains_key(j) ==> m1.jobs.contains_key(j) && step_or_stay(
            m0.jobs[j].status,
            m1.jobs[j].status,
        )
}

/// The state that stored node and job records describe.
pub open spec fn stored(nodes: Seq<ClusterNode>, jobs: Seq<TrainingJob>) -> Model {
    Model { nodes: keyed(nodes, node_key()), jobs: keyed(jobs, job_key()) }
}

/// Stored records a fleet can be rebuilt from: unique ids, consistent state.
pub open spec fn restorable(nodes: Seq<ClusterNode>, jobs: Seq<TrainingJob>) -> bool {
    &&& unique_keys(nodes, node_key())
    &&& unique_keys(jobs, job_key())
    &&& consistent(stored(nodes, jobs))
}

/// The registry of nodes and the jobs placed on them. Every operation keeps
/// `wf`: ids unique, and the records `consistent`.
pub struct Fleet {
    pub(crate) nodes: Vec<ClusterNode>,
    pub(crate) jobs: Vec<TrainingJob>,
    pub(crate) config: FleetConfig,
}

impl Fleet {
    /// Nodes and jobs by id.
    pub open(crate) spec fn model(&self) -> Model {
        stored(self.nodes@, self.jobs@)
    }

    pub open(crate) spec fn config(&self) -> FleetConfig {
        self.config
    }

    pub open(crate) spec fn wf(&self) -> bool {
        restorable(self.nodes@, self.jobs@)
    }

    /// The node records in storage order, which the aggregates fold over.
    pub open(crate) spec fn node_seq(&self) -> Seq<ClusterNode> {
        self.nodes@
    }

    /// The job records in storage order.
    pub open(crate) spec fn job_seq(&self) -> Seq<TrainingJob> {
        self.jobs@
    }

    /// The records in storage order are those of the model.
    pub proof fn lemma_seqs(&self)
        requires
            self.wf(),
        ensures
            self.model().nodes == keyed(self.node_seq(), node_key()),
            self.model().jobs == keyed(self.job_seq(), job_key()),
            unique_keys(self.node_seq(), node_key()),
            unique_keys(self.job_seq(), job_key()),
    {
    }

    /// A well-formed fleet is in a consistent state.
    pub proof fn lemma_consistent(&self)
        requires
            self.wf(),
        ensures
            consistent(self.model()),
    {
    }

    /// An empty fleet.
    pub fn new(config: FleetConfig) -> (r: Fleet)
        ensures
            r.wf(),
            r.config() == config,
            r.model().nodes.is_empty(),
            r.model().jobs.is_empty(),
    {
        let r = Fleet { nodes: Vec::new(), jobs: Vec::new(), config };
        assert(r.model().nodes =~= Map::empty());
        assert(r.model().jobs =~= Map::empty());
        r
    }

    /// The staleness threshold and grace period in force.
    pub fn config_value(&self) -> (r: FleetConfig)
        ensures
            r == self.config(),
    {
        self.config
    }

    /// The index of the node with this id.
    pub(crate) fn find_node(&self, id: u128) -> (r: Option<usize>)
        requires
            unique_keys(self.nodes@, node_key()),
        ensures
            r matches Some(i) ==> i < self.nodes@.len() && self.nodes@[i as int].id == id
                && self.model().nodes.contains_key(id) && self.model().nodes[id]
                == self.nodes@[i as int],
            r is None ==> !self.model().nodes.contains_key(id),
    {
        let mut i: usize = 0;
        while i < self.nodes.len()
            invariant
                unique_keys(self.nodes@, node_key()),
                i <= self.nodes@.len(),
                forall|k: int| 0 <= k < i ==> self.nodes@[k].id != id,
            decreases self.nodes@.len() - i,
        {
            if self.nodes[i].id == id {
                proof {
                    lemma_keyed_index(self.nodes@, node_key(), i as int);
                }
                return Some(i);
            }
            i += 1;
        }
        None
    }

    /// The index of the job with this id.
    pub(crate) fn find_job(&self, id: u128) -> (r: Option<usize>)
        requires
            unique_keys(self.jobs@, job_key()),
        ensures
            r matches Some(i) ==> i < self.jobs@.len() && self.jobs@[i as int].id == id
                && self.model().jobs.contains_key(id) && self.model().jobs[id]
                == self.jobs@[i as int],
            r is None ==> !self.model().jobs.contains_key(id),
    {
        let mut i: usize = 0;
        while i < self.jobs.len()
            invariant
                unique_keys(self.jobs@, job_key()),
                i <= self.jobs@.len(),
                forall|k: int| 0 <= k < i ==> self.jobs@[k].id != id,
            decreases self.jobs@.len() - i,
        {
            if self.jobs[i].id == id {
                proof {
                    lemma_keyed_index(self.jobs@, job_key(), i as int);
                }
                return Some(i);
            }
            i += 1;
        }
        None
    }

    /// The node with this id.
    pub fn get_node(&self, id: u128) -> (r: Option<ClusterNode>)
        requires
            self.wf(),
        ensures
            r == (if self.model().nodes.contains_key(id) {
                Some(self.model().nodes[id])
            } else {
                None
            }),
    {
        match self.find_node(id) {
            Some(i) => Some(self.nodes[i]),
            None => None,
        }
    }

    /// The status of the job with this id.
    pub fn job_status(&self, id: u128) -> (r: Option<JobStatus>)
        requires
            self.wf(),
        ensures
            r == (if self.model().jobs.contains_key(id) {
                Some(self.model().jobs[id].status)
            } else {
                None
            }),
    {
        match self.find_job(id) {
            Some(i) => Some(self.jobs[i].status),
            None => None,
        }
    }

    /// The node the job with this id is placed on.
    pub fn job_node(&self, id: u128) -> (r: Option<u128>)
        requires
            self.wf(),
        ensures
            r == (if self.model().jobs.contains_key(id) {
                self.model().jobs[id].node_id
            } else {
                None
            }),
    {
        match self.find_job(id) {
            Some(i) => self.jobs[i].node_id,
            None => None,
        }
    }

    /// Adds a node to `cluster_id`, Available and heard from at `now`.
    pub fn register_node(
        &mut self,
        id: u128,
        cluster_id: u128,
        capacity: Resources,
        now: u64,
    ) -> (r: Result<(), FleetError>)
        requires
            old(self).wf(),
        ensures
            final(self).wf(),
            final(self).config() == old(self).config(),
            evolves(old(self).model(), final(self).model()),
            r is Err <==> old(self).model().nodes.contains_key(id),
            r is Err ==> r == Err::<(), FleetError>(FleetError::DuplicateNode)
                && final(self).model() == old(self).model(),
            r is Ok ==> final(self).model() == (Model {
                nodes: old(self).model().nodes.insert(
                    id,
                    fresh_node(id, cluster_id, capacity, now),
                ),
                jobs: old(self).model().jobs,
            }),
    {
        if self.find_node(id).is_some() {
            return Err(FleetError::DuplicateNode);
        }
        let n = ClusterNode::new(id, cluster_id, capacity, now);
        proof {
            lemma_keyed_push(self.nodes@, node_key(), n);
        }
        self.nodes.push(n);
        Ok(())
    }

    /// Enters a new job in the Queued state.
    pub fn submit(
        &mut self,
        id: u128,
        name: String,
        definition: String,
        requirements: Resources,
        queue_id: Option<u128>,
        now: u64,
    ) -> (r: Result<(), FleetError>)
        requires
            old(self).wf(),
        ensures
            final(self).wf(),
            final(self).config() == old(self).config(),
            evolves(old(self).model(), final(self).model()),
            r is Err <==> old(self).model().jobs.contains_key(id),
            r is Err ==> r == Err::<(), FleetError>(FleetError::DuplicateJob) && final(self).model()
                == old(self).model(),
            r is Ok ==> final(self).model() == (Model {
                nodes: old(self).model().nodes,
                jobs: old(self).model().jobs.insert(
                    id,
                    TrainingJob {
                        id,
                        name,
                        definition,
                        status: JobStatus::Queued,
                        node_id: None,
                        queue_id,
                        requirements,
                        created_at: now,
                        updated_at: now,
                    },
                ),
            }),
    {
        if self.find_job(id).is_some() {
            return Err(FleetError::DuplicateJob);
        }
        let j = TrainingJob {
            id,
            name,
            definition,
            status: JobStatus::Queued,
            node_id: None,
            queue_id,
            requirements,
            created_at: now,
            updated_at: now,
        };
        proof {
            lemma_keyed_push(self.jobs@, job_key(), j);
        }
        self.jobs.push(j);
        Ok(())
    }

    /// Moves the job at index `ji` to `status`, clearing its placement and
    /// returning its node to Available.
    pub(crate) fn vacate(&mut self, ji: usize, status: JobStatus, now: u64)
        requires
            old(self).wf(),
            ji < old(self).jobs@.len(),
            !is_placed(status),
        ensures
            final(self).wf(),
            final(self).config == old(self).config,
            final(self).model() == vacated(
                old(self).model(),
                old(self).jobs@[ji as int].id,
                status,
                now,
            ),
    {
        let ghost m = self.model();
        let ghost jid = self.jobs@[ji as int].id;
        proof {
            lemma_keyed_index(self.jobs@, job_key(), ji as int);
        }
        let placed = self.jobs[ji].node_id;
        if let Some(n) = placed {
            let ni = self.find_node(n).unwrap();
            let mut nd = self.nodes[ni];
            nd.status = NodeStatus::Available;
            nd.assigned_job_id = None;
            nd.updated_at = now;
            proof {
                lemma_keyed_update(self.nodes@, node_key(), ni as int, nd);
            }
            self.nodes.set(ni, nd);
        }
        let ghost js = self.jobs@;
        self.jobs[ji].status = status;
        self.jobs[ji].node_id = None;
        self.jobs[ji].updated_at = now;
        proof {
            lemma_keyed_update(js, job_key(), ji as int, self.jobs@[ji as int]);
            assert(self.jobs@ == js.update(ji as int, self.jobs@[ji as int]));
            assert(self.model() == vacated(m, jid, status, now));
        }
    }

    /// Places a Queued job on an Available node: the node becomes Busy with
    /// the job assigned and the job becomes Starting, as one step.
    pub fn mark_starting(&mut self, job: u128, node: u128, now: u64) -> (r: Result<(), FleetError>)
        requires
            old(self).wf(),
        ensures
            final(self).wf(),
            final(self).config() == old(self).config(),
            evolves(old(self).model(), final(self).model()),
            r == start_result(old(self).model(), job, node),
            r is Ok ==> final(self).model() == started(old(self).model(), job, node, now),
            r is Err ==> final(self).model() == old(self).model(),
    {
        let ghost m = self.model();
        let ji = match self.find_job(job) {
            Some(i) => i,
            None => return Err(FleetError::UnknownJob),
        };
        let ni = match self.find_node(node) {
            Some(i) => i,
            None => return Err(FleetError::UnknownNode),
        };
        if self.jobs[ji].status != JobStatus::Queued || self.nodes[ni].status
            != NodeStatus::Available {
            return Err(FleetError::InvalidTransition);
        }
        let mut nd = self.nodes[ni];
        nd.status = NodeStatus::Busy;
        nd.assigned_job_id = Some(job);
        nd.confirmed_at = now;
        nd.updated_at = now;
        proof {
            lemma_keyed_update(self.nodes@, node_key(), ni as int, nd);
        }
        self.nodes.set(ni, nd);
        let ghost js = self.jobs@;
        self.jobs[ji].status = JobStatus::Starting;
        self.jobs[ji].node_id = Some(node);
        self.jobs[ji].updated_at = now;
        proof {
            lemma_keyed_update(js, job_key(), ji as int, self.jobs@[ji as int]);
            assert(self.jobs@ == js.update(ji as int, self.jobs@[ji as int]));
            assert(self.model() == started(m, job, node, now));
        }
        Ok(())
    }

    /// First confirmation that the node picked up a Starting job.
    pub fn mark_running(&mut self, job: u128, now: u64) -> (r: Result<(), FleetError>)
        requires
            old(self).wf(),
        ensures
            final(self).wf(),
            final(self).config() == old(self).config(),
            evolves(old(self).model(), final(self).model()),
            r == run_result(old(self).model(), job),
            r is Ok ==> final(self).model() == running(old(self).model(), job, now),
            r is Err ==> final(self).model() == old(self).model(),
    {
        let ghost m = self.model();
        let ji = match self.find_job(job) {
            Some(i) => i,
            None => return Err(FleetError::UnknownJob),
        };
        if self.jobs[ji].status != JobStatus::Starting {
            return Err(FleetError::InvalidTransition);
        }
        let ghost js = self.jobs@;
        self.jobs[ji].status = JobStatus::Running;
        self.jobs[ji].updated_at = now;
        proof {
            lemma_keyed_update(js, job_key(), ji as int, self.jobs@[ji as int]);
            assert(self.jobs@ == js.update(ji as int, self.jobs@[ji as int]));
            assert(self.model() == running(m, job, now));
        }
        Ok(())
    }

    /// Ends a placed job with `outcome` and frees its node. Repeating the
    /// same outcome for a job that already has it changes nothing.
    pub fn mark_terminal(&mut self, job: u128, outcome: Outcome, now: u64) -> (r: Result<
        (),
        FleetError,
    >)
        requires
            old(self).wf(),
        ensures
            final(self).wf(),
            final(self).config() == old(self).config(),
            evolves(old(self).model(), final(self).model()),
            r == terminal_result(old(self).model(), job, outcome_status(outcome)),
            r is Ok ==> final(self).model() == terminated(
                old(self).model(),
                job,
                outcome_status(outcome),
                now,
            ),
            r is Err ==> final(self).model() == old(self).model(),
    {
        let status = match outcome {
            Outcome::Succeeded => JobStatus::Succeeded,
            Outcome::Failed => JobStatus::Failed,
        };
        let ji = match self.find_job(job) {
            Some(i) => i,
            None => return Err(FleetError::UnknownJob),
        };
        let cur = self.jobs[ji].status;
        if cur == JobStatus::Starting || cur == JobStatus::Running {
            self.vacate(ji, status, now);
            Ok(())
        } else if cur == status {
            Ok(())
        } else {
            Err(FleetError::InvalidTransition)
        }
    }

    /// Cancels a job that has not ended, freeing its node if it held one.
    /// Cancelling a cancelled job changes nothing.
    pub fn cancel(&mut self, job: u128, now: u64) -> (r: Result<(), FleetError>)
        requires
            old(self).wf(),
        ensures
            final(self).wf(),
            final(self).config() == old(self).config(),
            evolves(old(self).model(), final(self).model()),
            r == cancel_result(old(self).model(), job),
            r is Ok ==> final(self).model() == cancelled(old(self).model(), job, now),
            r is Err ==> final(self).model() == old(self).model(),
    {
        let ji = match self.find_job(job) {
            Some(i) => i,
            None => return Err(FleetError::UnknownJob),
        };
        let cur = self.jobs[ji].status;
        if cur == JobStatus::Cancelled {
            Ok(())
        } else if cur == JobStatus::Succeeded || cur == JobStatus::Failed {
            Err(FleetError::InvalidTransition)
        } else {
            self.vacate(ji, JobStatus::Cancelled, now);
            Ok(())
        }
    }

    /// Records a heartbeat of node `id` taken at `at` with the job it
    /// reports; a heartbeat older than the last one taken is ignored.
    pub fn update_heartbeat(&mut self, id: u128, reported: Option<u128>, at: u64) -> (r: Result<
        (),
        FleetError,
    >)
        requires
            old(self).wf(),
        ensures
            final(self).wf(),
            final(self).config() == old(self).config(),
            evolves(old(self).model(), final(self).model()),
            r is Err <==> !old(self).model().nodes.contains_key(id),
            r is Err ==> r == Err::<(), FleetError>(FleetError::UnknownNode),
            r is Err || at < old(self).model().nodes[id].heartbeat_timestamp ==> final(self).model()
                == old(self).model(),
            r is Ok && at >= old(self).model().nodes[id].heartbeat_timestamp ==> final(self).model()
                == (Model {
                nodes: old(self).model().nodes.insert(
                    id,
                    ClusterNode {
                        heartbeat_timestamp: at,
                        reported_job_id: reported,
                        updated_at: at,
                        ..old(self).model().nodes[id]
                    },
                ),
                jobs: old(self).model().jobs,
            }),
    {
        let ni = match self.find_node(id) {
            Some(i) => i,
            None => return Err(FleetError::UnknownNode),
        };
        let mut n = self.nodes[ni];
        if at < n.heartbeat_timestamp {
            return Ok(());
        }
        n.heartbeat_timestamp = at;
        n.reported_job_id = reported;
        n.updated_at = at;
        proof {
            lemma_keyed_update(self.nodes@, node_key(), ni as int, n);
        }
        self.nodes.set(ni, n);
        Ok(())
    }

    /// Rebuilds a fleet from stored records. Accepted exactly when ids are
    /// unique and the records satisfy `consistent`; the fleet then holds them
    /// unchanged.
    pub fn restore(config: FleetConfig, nodes: Vec<ClusterNode>, jobs: Vec<TrainingJob>) -> (r:
        Result<Fleet, FleetError>)
        ensures
            r is Ok <==> restorable(nodes@, jobs@),
            r matches Ok(f) ==> f.wf() && f.config() == config && f.model() == stored(nodes@, jobs@),
            r matches Err(e) ==> e == FleetError::Inconsistent,
    {
        let ghost ns = nodes@;
        let ghost js = jobs@;
        let f = Fleet { nodes, jobs, config };
        let mut i: usize = 0;
        while i < f.nodes.len()
            invariant
                f.nodes@ == ns,
                ns == nodes@,
                js == jobs@,
                f.jobs@ == js,
                f.config == config,
                i <= f.nodes@.len(),
                unique_keys(f.nodes@.take(i as int), node_key()),
            decreases f.nodes@.len() - i,
        {
            let mut k: usize = 0;
            while k < i
                invariant
                    f.nodes@ == ns,
                    ns == nodes@,
                    js == jobs@,
                ns == nodes@,
                js == jobs@,
                    f.jobs@ == js,
                f.nodes@ == ns,
                ns == nodes@,
                js == jobs@,
                f.jobs@ == js,
                f.config == config,
                    i < f.nodes@.len(),
                    k <= i,
                    forall|a: int| 0 <= a < k ==> f.nodes@[a].id != f.nodes@[i as int].id,
                decreases i - k,
            {
                if f.nodes[k].id == f.nodes[i].id {
                    assert(!unique_keys(f.nodes@, node_key()));
                    assert(!restorable(ns, js));
                    return Err(FleetError::Inconsistent);
                }
                k += 1;
            }
            assert(unique_keys(f.nodes@.take(i as int + 1), node_key())) by {
                let t = f.nodes@.take(i as int + 1);
                assert forall|a: int, b: int|
                    0 <= a < t.len() && 0 <= b < t.len() && node_key()(t[a]) == node_key()(t[b])
                    implies a == b by {
                    if a < i && b < i {
                        assert(t[a] == f.nodes@.take(i as int)[a]);
                        assert(t[b] == f.nodes@.take(i as int)[b]);
                    }
                }
            }
            i += 1;
        }
        assert(f.nodes@.take(f.nodes@.len() as int) =~= f.nodes@);
        let mut i: usize = 0;
        while i < f.jobs.len()
            invariant
                f.nodes@ == ns,
                ns == nodes@,
                js == jobs@,
                f.jobs@ == js,
                f.config == config,
                i <= f.jobs@.len(),
                unique_keys(f.jobs@.take(i as int), job_key()),
            decreases f.jobs@.len() - i,
        {
            let mut k: usize = 0;
            while k < i
                invariant
                    f.nodes@ == ns,
                    ns == nodes@,
                    js == jobs@,
                ns == nodes@,
                js == jobs@,
                    f.jobs@ == js,
                f.nodes@ == ns,
                ns == nodes@,
                js == jobs@,
                f.jobs@ == js,
                f.config == config,
                    i < f.jobs@.len(),
                    k <= i,
                    forall|a: int| 0 <= a < k ==> f.jobs@[a].id != f.jobs@[i as int].id,
                decreases i - k,
            {
                if f.jobs[k].id == f.jobs[i].id {
                    assert(!unique_keys(f.jobs@, job_key()));
                    return Err(FleetError::Inconsistent);
                }
                k += 1;
            }
            assert(unique_keys(f.jobs@.take(i as int + 1), job_key())) by {
                let t = f.jobs@.take(i as int + 1);
                assert forall|a: int, b: int|
                    0 <= a < t.len() && 0 <= b < t.len() && job_key()(t[a]) == job_key()(t[b])
                    implies a == b by {
                    if a < i && b < i {
                        assert(t[a] == f.jobs@.take(i as int)[a]);
                        assert(t[b] == f.jobs@.take(i as int)[b]);
                    }
                }
            }
            i += 1;
        }
        assert(f.jobs@.take(f.jobs@.len() as int) =~= f.jobs@);
        let ghost m = f.model();
        let mut i: usize = 0;
        while i < f.nodes.len()
            invariant
                f.nodes@ == ns,
                ns == nodes@,
                js == jobs@,
                f.jobs@ == js,
                f.config == config,
                unique_keys(f.nodes@, node_key()),
                unique_keys(f.jobs@, job_key()),
                m == f.model(),
                i <= f.nodes@.len(),
                forall|a: int| 0 <= a < i ==> node_ok(m, #[trigger] f.nodes@[a].id),
            decreases f.nodes@.len() - i,
        {
            let n = f.nodes[i];
            proof {
                lemma_keyed_index(f.nodes@, node_key(), i as int);
            }
            if (n.status == NodeStatus::Busy) != n.assigned_job_id.is_some() {
                assert(!consistent(m)) by {
                    assert(m.nodes.contains_key(n.id));
                }
                return Err(FleetError::Inconsistent);
            }
            if let Some(j) = n.assigned_job_id {
                match f.find_job(j) {
                    None => {
                        assert(!consistent(m)) by {
                            assert(m.nodes.contains_key(n.id));
                        }
                        return Err(FleetError::Inconsistent);
                    },
                    Some(ji) => {
                        if f.jobs[ji].node_id != Some(n.id) {
                            assert(!consistent(m)) by {
                                assert(m.nodes.contains_key(n.id));
                            }
                            return Err(FleetError::Inconsistent);
                        }
                    },
                }
            }
            i += 1;
        }
        let mut i: usize = 0;
        while i < f.jobs.len()
            invariant
                f.nodes@ == ns,
                ns == nodes@,
                js == jobs@,
                f.jobs@ == js,
                f.config == config,
                unique_keys(f.nodes@, node_key()),
                unique_keys(f.jobs@, job_key()),
                m == f.model(),
                i <= f.jobs@.len(),
                forall|a: int| 0 <= a < f.nodes@.len() ==> node_ok(m, #[trigger] f.nodes@[a].id),
                forall|a: int| 0 <= a < i ==> job_ok(m, #[trigger] f.jobs@[a].id),
            decreases f.jobs@.len() - i,
        {
            proof {
                lemma_keyed_index(f.jobs@, job_key(), i as int);
            }
            let st = f.jobs[i].status;
            let placed = st == JobStatus::Starting || st == JobStatus::Running;
            if placed != f.jobs[i].node_id.is_some() {
                assert(!consistent(m)) by {
                    assert(m.jobs.contains_key(f.jobs@[i as int].id));
                }
                return Err(FleetError::Inconsistent);
            }
            if let Some(n) = f.jobs[i].node_id {
                match f.find_node(n) {
                    None => {
                        assert(!consistent(m)) by {
                            assert(m.jobs.contains_key(f.jobs@[i as int].id));
                        }
                        return Err(FleetError::Inconsistent);
                    },
                    Some(ni) => {
                        if f.nodes[ni].assigned_job_id != Some(f.jobs[i].id) {
                            assert(!consistent(m)) by {
                                assert(m.jobs.contains_key(f.jobs@[i as int].id));
                            }
                            return Err(FleetError::Inconsistent);
                        }
                    },
                }
            }
            i += 1;
        }
        proof {
            assert forall|n: u128| #[trigger] m.nodes.contains_key(n) implies node_ok(m, n) by {
                let a = choose|a: int| 0 <= a < f.nodes@.len() && f.nodes@[a].id == n;
                assert(node_ok(m, f.nodes@[a].id));
            }
            assert forall|j: u128| #[trigger] m.jobs.contains_key(j) implies job_ok(m, j) by {
                let a = choose|a: int| 0 <= a < f.jobs@.len() && f.jobs@[a].id == j;
                assert(job_ok(m, f.jobs@[a].id));
            }
            assert(consistent(m));
        }
        Ok(f)
    }
}

} // verus!
