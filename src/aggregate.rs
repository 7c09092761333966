//! Cluster summaries and details: read-only aggregates, always a fold over
//! the current state of the nodes and jobs, never stored.
use vstd::prelude::*;

use crate::fleet::Fleet;
use crate::job::{JobStatus, TrainingJob};
use crate::node::{ClusterNode, NodeStatus};

verus! {

/// What is summed over the nodes of a cluster.
#[derive(Clone, Copy, Debug, PartialEq, Eq, Structural)]
pub enum Measure {
    Nodes,
    MemoryMb,
    Millicores,
    Gpus,
}

pub open spec fn weight(n: ClusterNode, w: Measure) -> nat {
    match w {
        Measure::Nodes => 1,
        Measure::MemoryMb => n.capacity.memory_mb as nat,
        Measure::Millicores => n.capacity.cpu.millicores as nat,
        Measure::Gpus => match n.capacity.gpu {
            Some(g) => g.count as nat,
            None => 0,
        },
    }
}

/// `n` is counted for cluster `c`: it belongs to it and, if `busy_only`,
/// it is Busy (a Busy node's whole capacity is in use).
pub open spec fn counted(n: ClusterNode, c: u128, busy_only: bool) -> bool {
    n.cluster_id == c && (!busy_only || n.status == NodeStatus::Busy)
}

/// The sum of measure `w` over the nodes of `s` counted for cluster `c`.
pub open spec fn tally(s: Seq<ClusterNode>, c: u128, busy_only: bool, w: Measure) -> nat
    decreases s.len(),
{
    if s.len() == 0 {
        0
    } else {
        tally(s.drop_last(), c, busy_only, w) + if counted(s.last(), c, busy_only) {
            weight(s.last(), w)
        } else {
            0
        }
    }
}

/// The number of jobs of `s` that are Running on a node of cluster `c`.
pub open spec fn running_jobs(s: Seq<TrainingJob>, nodes: Map<u128, ClusterNode>, c: u128) -> nat
    decreases s.len(),
{
    if s.len() == 0 {
        0
    } else {
        running_jobs(s.drop_last(), nodes, c) + if running_in(s.last(), nodes, c) {
            1nat
        } else {
            0
        }
    }
}

pub open spec fn running_in(j: TrainingJob, nodes: Map<u128, ClusterNode>, c: u128) -> bool {
    &&& j.status == JobStatus::Running
    &&& j.node_id matches Some(n) && nodes.contains_key(n) && nodes[n].cluster_id == c
}

#[derive(Clone, Copy, Debug, PartialEq, Eq, Structural)]
pub struct ClusterSummary {
    pub cluster_id: u128,
    pub total_nodes: usize,
    pub busy_nodes: usize,
    pub total_running_jobs: usize,
}

#[derive(Clone, Copy, Debug, PartialEq, Eq, Structural)]
pub struct ClusterDetails {
    pub cluster_id: u128,
    pub total_nodes: usize,
    pub busy_nodes: usize,
    pub total_memory_mb: u128,
    pub used_memory_mb: u128,
    pub total_millicores: u128,
    pub used_millicores: u128,
    pub total_gpus: u128,
    pub used_gpus: u128,
    pub total_running_jobs: usize,
}

pub proof fn lemma_tally_bound(s: Seq<ClusterNode>, c: u128, busy_only: bool, w: Measure)
    ensures
        tally(s, c, busy_only, w) <= s.len() * 4294967295,
    decreases s.len(),
{
    if s.len() > 0 {
        lemma_tally_bound(s.drop_last(), c, busy_only, w);
    }
}

pub proof fn lemma_count_bound(s: Seq<ClusterNode>, c: u128, busy_only: bool)
    ensures
        tally(s, c, busy_only, Measure::Nodes) <= s.len(),
    decreases s.len(),
{
    if s.len() > 0 {
        lemma_count_bound(s.drop_last(), c, busy_only);
    }
}

pub proof fn lemma_running_bound(s: Seq<TrainingJob>, nodes: Map<u128, ClusterNode>, c: u128)
    ensures
        running_jobs(s, nodes, c) <= s.len(),
    decreases s.len(),
{
    if s.len() > 0 {
        lemma_running_bound(s.drop_last(), nodes, c);
    }
}

impl Fleet {
    /// Node counts of cluster `c`, busy and in all, and its Running jobs.
    pub fn summarize(&self, c: u128) -> (r: ClusterSummary)
        requires
            self.wf(),
        ensures
            r.cluster_id == c,
            r.total_nodes == tally(self.node_seq(), c, false, Measure::Nodes),
            r.busy_nodes == tally(self.node_seq(), c, true, Measure::Nodes),
            r.total_running_jobs == running_jobs(self.job_seq(), self.model().nodes, c),
    {
        let d = self.detail(c);
        ClusterSummary {
            cluster_id: c,
            total_nodes: d.total_nodes,
            busy_nodes: d.busy_nodes,
            total_running_jobs: d.total_running_jobs,
        }
    }

    /// Totals and in-use amounts of memory, millicores and GPUs of cluster
    /// `c` (in use: the capacity of its Busy nodes), with node and
    /// Running-job counts.
    pub fn detail(&self, c: u128) -> (r: ClusterDetails)
        requires
            self.wf(),
        ensures
            r.cluster_id == c,
            r.total_nodes == tally(self.node_seq(), c, false, Measure::Nodes),
            r.busy_nodes == tally(self.node_seq(), c, true, Measure::Nodes),
            r.total_memory_mb == tally(self.node_seq(), c, false, Measure::MemoryMb),
            r.used_memory_mb == tally(self.node_seq(), c, true, Measure::MemoryMb),
            r.total_millicores == tally(self.node_seq(), c, false, Measure::Millicores),
            r.used_millicores == tally(self.node_seq(), c, true, Measure::Millicores),
            r.total_gpus == tally(self.node_seq(), c, false, Measure::Gpus),
            r.used_gpus == tally(self.node_seq(), c, true, Measure::Gpus),
            r.total_running_jobs == running_jobs(self.job_seq(), self.model().nodes, c),
    {
        let ghost s = self.nodes@;
        let mut d = ClusterDetails {
            cluster_id: c,
            total_nodes: 0,
            busy_nodes: 0,
            total_memory_mb: 0,
            used_memory_mb: 0,
            total_millicores: 0,
            used_millicores: 0,
            total_gpus: 0,
            used_gpus: 0,
            total_running_jobs: 0,
        };
        let mut i: usize = 0;
        while i < self.nodes.len()
            invariant
                s == self.nodes@,
                i <= s.len(),
                d.cluster_id == c,
                d.total_nodes == tally(s.take(i as int), c, false, Measure::Nodes),
                d.busy_nodes == tally(s.take(i as int), c, true, Measure::Nodes),
                d.total_memory_mb == tally(s.take(i as int), c, false, Measure::MemoryMb),
                d.used_memory_mb == tally(s.take(i as int), c, true, Measure::MemoryMb),
                d.total_millicores == tally(s.take(i as int), c, false, Measure::Millicores),
                d.used_millicores == tally(s.take(i as int), c, true, Measure::Millicores),
                d.total_gpus == tally(s.take(i as int), c, false, Measure::Gpus),
                d.used_gpus == tally(s.take(i as int), c, true, Measure::Gpus),
                d.total_running_jobs == 0,
            decreases s.len() - i,
        {
            let n = self.nodes[i];
            proof {
                let t = s.take(i as int + 1);
                assert(t.drop_last() =~= s.take(i as int));
                assert(t.last() == n);
                lemma_tally_bound(s.take(i as int), c, false, Measure::MemoryMb);
                lemma_tally_bound(s.take(i as int), c, true, Measure::MemoryMb);
                lemma_tally_bound(s.take(i as int), c, false, Measure::Millicores);
                lemma_tally_bound(s.take(i as int), c, true, Measure::Millicores);
                lemma_tally_bound(s.take(i as int), c, false, Measure::Gpus);
                lemma_tally_bound(s.take(i as int), c, true, Measure::Gpus);
                lemma_count_bound(s.take(i as int), c, false);
                lemma_count_bound(s.take(i as int), c, true);
            }
            if n.cluster_id == c {
                let gpus: u128 = match n.capacity.gpu {
                    Some(g) => g.count as u128,
                    None => 0,
                };
                d.total_nodes = d.total_nodes + 1;
                d.total_memory_mb = d.total_memory_mb + n.capacity.memory_mb as u128;
                d.total_millicores = d.total_millicores + n.capacity.cpu.millicores as u128;
                d.total_gpus = d.total_gpus + gpus;
                if n.status == NodeStatus::Busy {
                    d.busy_nodes = d.busy_nodes + 1;
                    d.used_memory_mb = d.used_memory_mb + n.capacity.memory_mb as u128;
                    d.used_millicores = d.used_millicores + n.capacity.cpu.millicores as u128;
                    d.used_gpus = d.used_gpus + gpus;
                }
            }
            i += 1;
        }
        assert(s.take(s.len() as int) =~= s);
        let ghost js = self.jobs@;
        let ghost nodes = self.model().nodes;
        let mut running: usize = 0;
        let mut k: usize = 0;
        while k < self.jobs.len()
            invariant
                self.wf(),
                js == self.jobs@,
                nodes == self.model().nodes,
                k <= js.len(),
                running == running_jobs(js.take(k as int), nodes, c),
            decreases js.len() - k,
        {
            proof {
                let t = js.take(k as int + 1);
                assert(t.drop_last() =~= js.take(k as int));
                lemma_running_bound(js.take(k as int), nodes, c);
            }
            if self.jobs[k].status == JobStatus::Running {
                if let Some(n) = self.jobs[k].node_id {
                    match self.find_node(n) {
                        Some(ni) => {
                            if self.nodes[ni].cluster_id == c {
                                running = running + 1;
                            }
                        },
                        None => {},
                    }
                }
            }
            k += 1;
        }
        assert(js.take(js.len() as int) =~= js);
        d.total_running_jobs = running;
        d
    }
}

} // verus!
