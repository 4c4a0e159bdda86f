//! The river network: which reach drains into which.

use crate::fx::fx_get;
use rustc_hash::FxHashMap;
use vstd::prelude::*;

verus! {

/// One reach of the network.
pub struct NetworkNode<A> {
    pub id: u32,
    /// The reach this one drains into; an id outside the network for an outlet.
    pub downstream_id: u32,
    /// Catchment area in square kilometres, where one is known.
    pub area_sqkm: Option<A>,
    /// File holding the reach's lateral inflow.
    pub qlat_file: String,
}

/// The reaches by id, and for each id how many reaches drain into it.
pub struct NetworkTopology<A> {
    pub nodes: FxHashMap<u32, NetworkNode<A>>,
    pub upstream_counts: FxHashMap<u32, usize>,
}

/// What the scheduler needs to know of a network: where each node drains, and how many
/// upstream nodes each one waits for.
pub struct Drainage {
    pub downstream: Map<u32, u32>,
    pub counts: Map<u32, usize>,
}

impl Drainage {
    pub open spec fn contains(self, id: u32) -> bool {
        self.downstream.contains_key(id)
    }

    /// The number of upstream nodes on record for `id`, 0 where none is recorded.
    pub open spec fn count(self, id: u32) -> usize {
        if self.counts.contains_key(id) {
            self.counts[id]
        } else {
            0
        }
    }

    /// The nodes that drain into `id`.
    pub open spec fn upstreams(self, id: u32) -> Set<u32> {
        Set::new(|u: u32| self.downstream.contains_key(u) && self.downstream[u] == id)
    }

    /// The recorded count of every node is the number of nodes that drain into it.
    pub open spec fn consistent(self) -> bool {
        forall|id: u32| #[trigger]
            self.contains(id) ==> self.count(id) == self.upstreams(id).len()
    }

    /// `order` is a topological order: it grows along every edge inside the network.
    pub open spec fn ordered_by(self, order: spec_fn(u32) -> nat) -> bool {
        forall|u: u32| #[trigger]
            self.contains(u) && self.contains(self.downstream[u]) ==> order(u) < order(
                self.downstream[u],
            )
    }
}

impl<A> NetworkTopology<A> {
    pub open spec fn drainage(self) -> Drainage {
        Drainage {
            downstream: Map::new(
                |id: u32| self.nodes@.contains_key(id),
                |id: u32| self.nodes@[id].downstream_id,
            ),
            counts: self.upstream_counts@,
        }
    }

    /// The node with this id.
    pub fn node(&self, id: u32) -> (node: Option<&NetworkNode<A>>)
        ensures
            match node {
                Some(n) => self.nodes@.contains_key(id) && *n == self.nodes@[id],
                None => !self.nodes@.contains_key(id),
            },
    {
        fx_get(&self.nodes, id)
    }

    /// How many nodes drain into `id`, 0 where nothing is recorded.
    pub fn upstream_count(&self, id: u32) -> (count: usize)
        ensures
            count == self.drainage().count(id),
    {
        match fx_get(&self.upstream_counts, id) {
            Some(c) => *c,
            None => 0,
        }
    }
}

} // verus!
