//! Training jobs and their lifecycle state machine.
use vstd::prelude::*;

use crate::resources::Resources;

verus! {

#[derive(Clone, Copy, Debug, PartialEq, Eq, Structural)]
pub enum JobStatus {
    Queued,
    Starting,
    Running,
    Succeeded,
    Failed,
    Cancelled,
}

/// How a placed job ended, as a node reports it.
#[derive(Clone, Copy, Debug, PartialEq, Eq, Structural)]
pub enum Outcome {
    Succeeded,
    Failed,
}

pub open spec fn is_terminal(s: JobStatus) -> bool {
    s == JobStatus::Succeeded || s == JobStatus::Failed || s == JobStatus::Cancelled
}

/// A placed job is one that holds a node.
pub open spec fn is_placed(s: JobStatus) -> bool {
    s == JobStatus::Starting || s == JobStatus::Running
}

pub open spec fn outcome_status(o: Outcome) -> JobStatus {
    match o {
        Outcome::Succeeded => JobStatus::Succeeded,
        Outcome::Failed => JobStatus::Failed,
    }
}

/// One edge of the lifecycle: Queued -> Starting -> Running -> terminal;
/// a Starting job may also end at once (it can finish before its first
/// confirmation); Queued -> Cancelled; and a placed job whose node lost it
/// goes back to Queued. Nothing leaves a terminal state.
pub open spec fn step(from: JobStatus, to: JobStatus) -> bool {
    match from {
        JobStatus::Queued => to == JobStatus::Starting || to == JobStatus::Cancelled,
        JobStatus::Starting => to == JobStatus::Running || is_terminal(to) || to
            == JobStatus::Queued,
        JobStatus::Running => is_terminal(to) || to == JobStatus::Queued,
        _ => false,
    }
}

/// A status observed later is the same one or reached by one edge.
pub open spec fn step_or_stay(from: JobStatus, to: JobStatus) -> bool {
    from == to || step(from, to)
}

/// Whether `s` is a terminal status.
pub fn status_is_terminal(s: JobStatus) -> (r: bool)
    ensures
        r == is_terminal(s),
{
    match s {
        JobStatus::Succeeded | JobStatus::Failed | JobStatus::Cancelled => true,
        _ => false,
    }
}

/// Whether the lifecycle has an edge from `from` to `to`.
pub fn can_transition(from: JobStatus, to: JobStatus) -> (r: bool)
    ensures
        r == step(from, to),
{
    match from {
        JobStatus::Queued => to == JobStatus::Starting || to == JobStatus::Cancelled,
        JobStatus::Starting | JobStatus::Running => {
            status_is_terminal(to) || to == JobStatus::Queued || (from == JobStatus::Starting && to
                == JobStatus::Running)
        },
        _ => false,
    }
}

/// A training job. `definition` is an opaque job spec; `node_id` is the node
/// it is placed on, present exactly while it is Starting or Running.
#[derive(Debug)]
pub struct TrainingJob {
    pub id: u128,
    pub name: String,
    pub definition: String,
    pub status: JobStatus,
    pub node_id: Option<u128>,
    pub queue_id: Option<u128>,
    pub requirements: Resources,
    pub created_at: u64,
    pub updated_at: u64,
}

impl TrainingJob {
    pub open spec fn wf(&self) -> bool {
        is_placed(self.status) <==> self.node_id is Some
    }
}

} // verus!
