//! Placement: which nodes may take a job, and the best-fit choice among them.
use vstd::prelude::*;

use crate::fleet::{evolves, node_key, started, Fleet, Model};
use crate::job::JobStatus;
use crate::keyed::lemma_keyed_index;
use crate::node::{stale, ClusterNode, NodeStatus};
use crate::resources::{meets, surplus, Resources};

verus! {

/// A node that may take new work in `cluster` at `now`: it belongs to the
/// cluster, is Available, has been heard from recently enough.
pub open spec fn available_in(n: ClusterNode, cluster: u128, now: u64, threshold: u64) -> bool {
    &&& n.cluster_id == cluster
    &&& n.status == NodeStatus::Available
    &&& !stale(n, now, threshold)
}

/// A node listed for `cluster`: one of its nodes and, if `only_available`,
/// one that may take new work at `now`.
pub open spec fn listed(
    n: ClusterNode,
    cluster: u128,
    now: u64,
    threshold: u64,
    only_available: bool,
) -> bool {
    if only_available {
        available_in(n, cluster, now, threshold)
    } else {
        n.cluster_id == cluster
    }
}

/// An available node whose capacity meets `need`.
pub open spec fn eligible(
    n: ClusterNode,
    cluster: u128,
    need: Resources,
    now: u64,
    threshold: u64,
) -> bool {
    available_in(n, cluster, now, threshold) && meets(n.capacity, need)
}

/// Placement order: less surplus first; equal surplus, older heartbeat first.
pub open spec fn fits_better(a: ClusterNode, b: ClusterNode, need: Resources) -> bool {
    ||| surplus(a.capacity, need) < surplus(b.capacity, need)
    ||| (surplus(a.capacity, need) == surplus(b.capacity, need) && a.heartbeat_timestamp
        <= b.heartbeat_timestamp)
}

/// `id` is an eligible node of `m` that fits at least as well as every other.
pub open spec fn best_fit_node(
    m: Model,
    id: u128,
    cluster: u128,
    need: Resources,
    now: u64,
    threshold: u64,
) -> bool {
    &&& m.nodes.contains_key(id)
    &&& eligible(m.nodes[id], cluster, need, now, threshold)
    &&& forall|o: u128| #[trigger]
        m.nodes.contains_key(o) && eligible(m.nodes[o], cluster, need, now, threshold)
            ==> fits_better(m.nodes[id], m.nodes[o], need)
}

/// Some node of `m` is eligible.
pub open spec fn any_eligible(
    m: Model,
    cluster: u128,
    need: Resources,
    now: u64,
    threshold: u64,
) -> bool {
    exists|o: u128| #[trigger]
        m.nodes.contains_key(o) && eligible(m.nodes[o], cluster, need, now, threshold)
}

impl Fleet {
    /// Every node of a sequence with unique ids is the record of its id.
    proof fn lemma_node_at(&self, id: u128) -> (i: int)
        requires
            self.wf(),
            self.model().nodes.contains_key(id),
        ensures
            0 <= i < self.nodes@.len(),
            self.nodes@[i] == self.model().nodes[id],
            self.nodes@[i].id == id,
    {
        let i = choose|i: int| 0 <= i < self.nodes@.len() && self.nodes@[i].id == id;
        lemma_keyed_index(self.nodes@, node_key(), i);
        i
    }

    /// The ids of the nodes of `cluster` that are `listed`.
    fn list_nodes(&self, cluster: u128, now: u64, only_available: bool) -> (r: Vec<u128>)
        requires
            self.wf(),
        ensures
            r@.no_duplicates(),
            forall|id: u128|
                r@.contains(id) <==> self.model().nodes.contains_key(id) && listed(
                    self.model().nodes[id],
                    cluster,
                    now,
                    self.config().staleness_threshold_ms,
                    only_available,
                ),
    {
        let threshold = self.config.staleness_threshold_ms;
        let ghost s = self.nodes@;
        let mut r: Vec<u128> = Vec::new();
        let mut i: usize = 0;
        while i < self.nodes.len()
            invariant
                self.wf(),
                s == self.nodes@,
                threshold == self.config.staleness_threshold_ms,
                i <= s.len(),
                r@.no_duplicates(),
                forall|k: int|
                    0 <= k < r@.len() ==> exists|j: int|
                        0 <= j < i && s[j].id == #[trigger] r@[k] && listed(
                            s[j],
                            cluster,
                            now,
                            threshold,
                            only_available,
                        ),
                forall|j: int|
                    0 <= j < i && listed(s[j], cluster, now, threshold, only_available)
                        ==> r@.contains(#[trigger] s[j].id),
            decreases s.len() - i,
        {
            let n = self.nodes[i];
            if n.cluster_id == cluster && (!only_available || (n.status == NodeStatus::Available
                && !n.is_stale(now, threshold))) {
                proof {
                    if r@.contains(n.id) {
                        let k = choose|k: int| 0 <= k < r@.len() && r@[k] == n.id;
                        let j = choose|j: int|
                            0 <= j < i && s[j].id == #[trigger] r@[k] && listed(
                                s[j],
                                cluster,
                                now,
                                threshold,
                                only_available,
                            );
                        assert(node_key()(s[j]) == node_key()(s[i as int]));
                    }
                }
                let ghost r0 = r@;
                r.push(n.id);
                proof {
                    assert forall|k: int| 0 <= k < r@.len() implies exists|j: int|
                        0 <= j < i + 1 && s[j].id == #[trigger] r@[k] && listed(
                            s[j],
                            cluster,
                            now,
                            threshold,
                            only_available,
                        ) by {
                        if k < r0.len() {
                            assert(r@[k] == r0[k]);
                        } else {
                            assert(s[i as int].id == r@[k]);
                        }
                    }
                    assert forall|j: int|
                        0 <= j < i + 1 && listed(s[j], cluster, now, threshold, only_available)
                        implies r@.contains(#[trigger] s[j].id) by {
                        if j < i {
                            let k = choose|k: int| 0 <= k < r0.len() && r0[k] == s[j].id;
                            assert(r@[k] == r0[k]);
                        } else {
                            assert(r@[r0.len() as int] == n.id);
                        }
                    }
                }
            }
            i += 1;
        }
        proof {
            assert forall|id: u128|
                r@.contains(id) <==> self.model().nodes.contains_key(id) && listed(
                    self.model().nodes[id],
                    cluster,
                    now,
                    threshold,
                    only_available,
                ) by {
                if r@.contains(id) {
                    let k = choose|k: int| 0 <= k < r@.len() && r@[k] == id;
                    let j = choose|j: int|
                        0 <= j < i && s[j].id == #[trigger] r@[k] && listed(
                            s[j],
                            cluster,
                            now,
                            threshold,
                            only_available,
                        );
                    lemma_keyed_index(s, node_key(), j);
                }
                if self.model().nodes.contains_key(id) {
                    self.lemma_node_at(id);
                }
            }
        }
        r
    }

    /// The ids of the nodes of `cluster` that may take new work at `now`:
    /// Available and not stale.
    pub fn list_available(&self, cluster: u128, now: u64) -> (r: Vec<u128>)
        requires
            self.wf(),
        ensures
            r@.no_duplicates(),
            forall|id: u128|
                r@.contains(id) <==> (self.model().nodes.contains_key(id) && available_in(
                    self.model().nodes[id],
                    cluster,
                    now,
                    self.config().staleness_threshold_ms,
                )),
    {
        self.list_nodes(cluster, now, true)
    }

    /// The ids of all nodes of `cluster`.
    pub fn list_by_cluster(&self, cluster: u128) -> (r: Vec<u128>)
        requires
            self.wf(),
        ensures
            r@.no_duplicates(),
            forall|id: u128|
                r@.contains(id) <==> self.model().nodes.contains_key(id)
                    && self.model().nodes[id].cluster_id == cluster,
    {
        self.list_nodes(cluster, 0, false)
    }

    /// The eligible node of `cluster` for `need` with the least surplus
    /// capacity, the longest-idle one among equals; none if no node qualifies.
    pub fn best_fit(&self, cluster: u128, need: &Resources, now: u64) -> (r: Option<u128>)
        requires
            self.wf(),
        ensures
            r matches Some(id) ==> best_fit_node(
                self.model(),
                id,
                cluster,
                *need,
                now,
                self.config().staleness_threshold_ms,
            ),
            r is None ==> !any_eligible(
                self.model(),
                cluster,
                *need,
                now,
                self.config().staleness_threshold_ms,
            ),
    {
        let threshold = self.config.staleness_threshold_ms;
        let mut best: Option<usize> = None;
        let mut best_surplus: u64 = 0;
        let mut i: usize = 0;
        while i < self.nodes.len()
            invariant
                self.wf(),
                threshold == self.config.staleness_threshold_ms,
                i <= self.nodes@.len(),
                best matches Some(b) ==> {
                    &&& b < i
                    &&& eligible(self.nodes@[b as int], cluster, *need, now, threshold)
                    &&& best_surplus == surplus(self.nodes@[b as int].capacity, *need)
                    &&& forall|j: int|
                        0 <= j < i && eligible(self.nodes@[j], cluster, *need, now, threshold)
                            ==> fits_better(self.nodes@[b as int], #[trigger] self.nodes@[j], *need)
                },
                best is None ==> forall|j: int|
                    0 <= j < i ==> !eligible(
                        #[trigger] self.nodes@[j],
                        cluster,
                        *need,
                        now,
                        threshold,
                    ),
            decreases self.nodes@.len() - i,
        {
            let n = self.nodes[i];
            if n.cluster_id == cluster && n.status == NodeStatus::Available && !n.is_stale(
                now,
                threshold,
            ) && n.capacity.satisfies(need) {
                let s = n.capacity.surplus_over(need);
                match best {
                    None => {
                        best = Some(i);
                        best_surplus = s;
                    },
                    Some(b) => {
                        if s < best_surplus || (s == best_surplus && n.heartbeat_timestamp
                            < self.nodes[b].heartbeat_timestamp) {
                            best = Some(i);
                            best_surplus = s;
                        }
                    },
                }
            }
            i += 1;
        }
        match best {
            None => {
                proof {
                    assert forall|o: u128| #[trigger]
                        self.model().nodes.contains_key(o) implies !eligible(
                        self.model().nodes[o],
                        cluster,
                        *need,
                        now,
                        threshold,
                    ) by {
                        self.lemma_node_at(o);
                    }
                }
                None
            },
            Some(b) => {
                proof {
                    lemma_keyed_index(self.nodes@, node_key(), b as int);
                    let best_node = self.nodes@[b as int];
                    assert forall|o: u128| #[trigger]
                        self.model().nodes.contains_key(o) && eligible(
                            self.model().nodes[o],
                            cluster,
                            *need,
                            now,
                            threshold,
                        ) implies fits_better(best_node, self.model().nodes[o], *need) by {
                        self.lemma_node_at(o);
                    }
                }
                Some(self.nodes[b].id)
            },
        }
    }

    /// Places a Queued job on the best-fit node of `cluster`, performing the
    /// paired mutation of `mark_starting`. None, with nothing changed, when
    /// the job is unknown or not Queued, or no node qualifies.
    pub fn schedule(&mut self, job: u128, cluster: u128, now: u64) -> (r: Option<u128>)
        requires
            old(self).wf(),
        ensures
            final(self).wf(),
            final(self).config() == old(self).config(),
            evolves(old(self).model(), final(self).model()),
            r is Some <==> {
                &&& old(self).model().jobs.contains_key(job)
                &&& old(self).model().jobs[job].status == JobStatus::Queued
                &&& any_eligible(
                    old(self).model(),
                    cluster,
                    old(self).model().jobs[job].requirements,
                    now,
                    old(self).config().staleness_threshold_ms,
                )
            },
            r matches Some(n) ==> {
                &&& best_fit_node(
                    old(self).model(),
                    n,
                    cluster,
                    old(self).model().jobs[job].requirements,
                    now,
                    old(self).config().staleness_threshold_ms,
                )
                &&& final(self).model() == started(old(self).model(), job, n, now)
            },
            r is None ==> final(self).model() == old(self).model(),
    {
        let ji = match self.find_job(job) {
            Some(i) => i,
            None => return None,
        };
        if self.jobs[ji].status != JobStatus::Queued {
            return None;
        }
        let need = self.jobs[ji].requirements;
        match self.best_fit(cluster, &need, now) {
            None => None,
            Some(n) => {
                let res = self.mark_starting(job, n, now);
                assert(res is Ok);
                Some(n)
            },
        }
    }
}

} // verus!
