//! Compute nodes: capacity, status, heartbeats, and the split between the
//! job the scheduler assigned and the job the node reports.
use vstd::prelude::*;

use crate::resources::Resources;

verus! {

#[derive(Clone, Copy, Debug, PartialEq, Eq, Structural)]
pub enum NodeStatus {
    Available,
    Busy,
}

/// A node of a cluster. Times are milliseconds since the epoch.
/// `assigned_job_id` is written by placement only, `reported_job_id` by
/// heartbeat ingestion only. `confirmed_at` is when the assignment was made
/// or last confirmed by a heartbeat of the node.
#[derive(Clone, Copy, Debug, PartialEq, Eq, Structural)]
pub struct ClusterNode {
    pub id: u128,
    pub cluster_id: u128,
    pub status: NodeStatus,
    pub heartbeat_timestamp: u64,
    pub capacity: Resources,
    pub assigned_job_id: Option<u128>,
    pub reported_job_id: Option<u128>,
    pub confirmed_at: u64,
    pub created_at: u64,
    pub updated_at: u64,
}

/// A node is Busy exactly when it holds an assignment.
pub open spec fn busy_iff_assigned(n: ClusterNode) -> bool {
    (n.status == NodeStatus::Busy) <==> n.assigned_job_id is Some
}

/// Not heard from for longer than `threshold` at time `now`.
pub open spec fn stale(n: ClusterNode, now: u64, threshold: u64) -> bool {
    now - n.heartbeat_timestamp > threshold
}

/// An assignment left unconfirmed for longer than `grace` at time `now`.
pub open spec fn assignment_lost(n: ClusterNode, now: u64, grace: u64) -> bool {
    n.assigned_job_id is Some && now - n.confirmed_at > grace
}

/// A node as it joins its cluster at `now`: Available, with no assignment.
pub open spec fn fresh_node(
    id: u128,
    cluster_id: u128,
    capacity: Resources,
    now: u64,
) -> ClusterNode {
    ClusterNode {
        id,
        cluster_id,
        status: NodeStatus::Available,
        heartbeat_timestamp: now,
        capacity,
        assigned_job_id: None,
        reported_job_id: None,
        confirmed_at: now,
        created_at: now,
        updated_at: now,
    }
}

/// `n` after `job` is placed on it at `now`.
pub open spec fn assigned(n: ClusterNode, job: u128, now: u64) -> ClusterNode {
    ClusterNode {
        status: NodeStatus::Busy,
        assigned_job_id: Some(job),
        confirmed_at: now,
        updated_at: now,
        ..n
    }
}

/// `n` after its assignment is cleared at `now`.
pub open spec fn released(n: ClusterNode, now: u64) -> ClusterNode {
    ClusterNode { status: NodeStatus::Available, assigned_job_id: None, updated_at: now, ..n }
}

impl ClusterNode {
    pub fn new(id: u128, cluster_id: u128, capacity: Resources, now: u64) -> (r: ClusterNode)
        ensures
            r == fresh_node(id, cluster_id, capacity, now),
    {
        ClusterNode {
            id,
            cluster_id,
            status: NodeStatus::Available,
            heartbeat_timestamp: now,
            capacity,
            assigned_job_id: None,
            reported_job_id: None,
            confirmed_at: now,
            created_at: now,
            updated_at: now,
        }
    }

    /// Whether the node has gone unheard for longer than `threshold`.
    pub fn is_stale(&self, now: u64, threshold: u64) -> (r: bool)
        ensures
            r == stale(*self, now, threshold),
    {
        now > self.heartbeat_timestamp && now - self.heartbeat_timestamp > threshold
    }

    /// Whether the node's assignment went unconfirmed for longer than `grace`.
    pub fn is_assignment_lost(&self, now: u64, grace: u64) -> (r: bool)
        ensures
            r == assignment_lost(*self, now, grace),
    {
        self.assigned_job_id.is_some() && now > self.confirmed_at && now - self.confirmed_at
            > grace
    }
}

} // verus!
