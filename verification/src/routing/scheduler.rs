//! Which node to route next.
//!
//! A node is ready once every node upstream of it is done. The scheduler hands ready nodes to
//! the workers in turn and, on each completion, works out what that completion makes ready.

use crate::fx::{fx_get, fx_insert, fx_keys, fx_remove};
use crate::network::{Drainage, NetworkNode, NetworkTopology};
use rustc_hash::FxHashMap;
use std::collections::VecDeque;
use vstd::prelude::*;

verus! {

/// What reaches the scheduler from the workers.
pub enum SchedulerMessage {
    NodeCompleted(u32),
    Shutdown,
}

/// One node handed to one worker.
pub struct Dispatch {
    pub worker: usize,
    pub node: u32,
}

/// The scheduler's state as plain mathematics.
#[verifier::ext_equal]
pub struct SchedulerState {
    /// Nodes ready to be routed, next one first.
    pub ready: Seq<u32>,
    /// Nodes still waiting, with the number of upstream nodes they wait for.
    pub pending: Map<u32, usize>,
    /// The worker that gets the next node.
    pub next_worker: int,
    /// How many workers there are.
    pub workers: int,
    /// Nodes handed out and not yet reported complete.
    pub running: int,
}

/// Scheduler over a network and a fixed number of workers.
pub struct Scheduler {
    ready_nodes: VecDeque<u32>,
    pending_upstreams_count: FxHashMap<u32, usize>,
    next_worker: usize,
    num_workers: usize,
    pending_runs: i64,
}

impl View for Scheduler {
    type V = SchedulerState;

    closed spec fn view(&self) -> SchedulerState {
        SchedulerState {
            ready: self.ready_nodes@,
            pending: self.pending_upstreams_count@,
            next_worker: self.next_worker as int,
            workers: self.num_workers as int,
            running: self.pending_runs as int,
        }
    }
}

impl SchedulerState {
    /// The next worker is one of the workers, if there are any.
    pub open spec fn well_formed(self) -> bool {
        &&& 0 <= self.workers <= usize::MAX
        &&& 0 <= self.next_worker
        &&& self.workers > 0 ==> self.next_worker < self.workers
        &&& i64::MIN <= self.running <= i64::MAX
    }

    /// The start of a run: every node without upstream nodes is ready, every other one waits
    /// for as many completions as it has upstream nodes.
    pub open spec fn is_initial(self, net: Drainage, workers: int) -> bool {
        &&& self.ready.no_duplicates()
        &&& forall|id: u32| #[trigger]
            self.ready.contains(id) <==> net.contains(id) && net.count(id) == 0
        &&& forall|id: u32| #[trigger]
            self.pending.contains_key(id) <==> net.contains(id) && net.count(id) != 0
        &&& forall|id: u32| #[trigger]
            self.pending.contains_key(id) ==> self.pending[id] == net.count(id)
        &&& self.next_worker == 0
        &&& self.workers == workers
        &&& self.running == 0
    }

    /// The worker that gets the `k`-th of the nodes handed out from this state on.
    pub open spec fn worker_for(self, k: int) -> int {
        if k == 0 {
            self.next_worker
        } else {
            (self.next_worker + k) % self.workers
        }
    }

    /// `dispatches` hands out every ready node, in order, workers taking turns.
    pub open spec fn hands_out(self, dispatches: Seq<Dispatch>) -> bool {
        &&& dispatches.len() == self.ready.len()
        &&& forall|k: int|
            #![trigger dispatches[k]]
            0 <= k < dispatches.len() ==> dispatches[k].node == self.ready[k]
                && dispatches[k].worker == self.worker_for(k)
    }

    /// The state once every ready node has been handed out.
    pub open spec fn dispatched(self) -> SchedulerState {
        SchedulerState {
            ready: Seq::empty(),
            next_worker: self.worker_for(self.ready.len() as int),
            running: self.running + self.ready.len(),
            ..self
        }
    }

    /// The state once `id` has been reported complete.
    ///
    /// A waiting downstream node waits for one less; at zero it moves to the front of the
    /// ready nodes, so that downstream buffers are freed soon.
    pub open spec fn completed(self, net: Drainage, id: u32) -> SchedulerState {
        let running = self.running - 1;
        if net.contains(id) && self.pending.contains_key(net.downstream[id]) {
            let below = net.downstream[id];
            if self.pending[below] <= 1 {
                SchedulerState {
                    ready: seq![below] + self.ready,
                    pending: self.pending.remove(below),
                    running,
                    ..self
                }
            } else {
                SchedulerState {
                    pending: self.pending.insert(below, (self.pending[below] - 1) as usize),
                    running,
                    ..self
                }
            }
        } else {
            SchedulerState { running, ..self }
        }
    }

    /// `after` is the state once `message` has come in, `None` being the end of the channel, and
    /// `go_on` whether the run goes on.
    pub open spec fn takes_in(
        self,
        net: Drainage,
        message: Option<SchedulerMessage>,
        after: SchedulerState,
        go_on: bool,
    ) -> bool {
        match message {
            Some(SchedulerMessage::NodeCompleted(id)) => {
                &&& after == self.completed(net, id)
                &&& go_on == !after.idle()
            },
            _ => after == self && !go_on,
        }
    }

    /// Nothing is running and nothing is ready.
    pub open spec fn idle(self) -> bool {
        self.running == 0 && self.ready.len() == 0
    }
}

impl Scheduler {
    /// The scheduler at the start of a run over `topology`.
    pub fn new<A>(topology: &NetworkTopology<A>, num_workers: usize) -> (scheduler: Scheduler)
        ensures
            scheduler@.well_formed(),
            scheduler@.is_initial(topology.drainage(), num_workers as int),
    {
        let mut ready_nodes: VecDeque<u32> = VecDeque::new();
        let mut pending_upstreams_count: FxHashMap<u32, usize> = FxHashMap::default();
        let ids = fx_keys(&topology.nodes);
        let ghost net = topology.drainage();
        let mut i: usize = 0;
        while i < ids.len()
            invariant
                i <= ids@.len(),
                net == topology.drainage(),
                ids@.no_duplicates(),
                ids@.to_set() == topology.nodes@.dom(),
                ready_nodes@.no_duplicates(),
                forall|id: u32| #[trigger]
                    ready_nodes@.contains(id) <==> ids@.take(i as int).contains(id) && net.count(id)
                        == 0,
                forall|id: u32| #[trigger]
                    pending_upstreams_count@.contains_key(id) <==> ids@.take(i as int).contains(id)
                        && net.count(id) != 0,
                forall|id: u32| #[trigger]
                    pending_upstreams_count@.contains_key(id) ==> pending_upstreams_count@[id]
                        == net.count(id),
            decreases ids@.len() - i,
        {
            let id = ids[i];
            let upstream_count = topology.upstream_count(id);
            let ghost before = ids@.take(i as int);
            let ghost ready_before = ready_nodes@;
            proof {
                assert(ids@.take(i + 1) =~= before.push(id));
                assert(!before.contains(id));
                assert forall|x: u32| #[trigger]
                    before.push(id).contains(x) <==> before.contains(x) || x == id by {
                    lemma_push_contains(before, id, x);
                }
            }
            if upstream_count == 0 {
                assert(!ready_before.contains(id));
                ready_nodes.push_back(id);
                proof {
                    assert forall|x: u32| #[trigger]
                        ready_nodes@.contains(x) <==> ready_before.contains(x) || x == id by {
                        lemma_push_contains(ready_before, id, x);
                    }
                }
            } else {
                fx_insert(&mut pending_upstreams_count, id, upstream_count);
            }
            i += 1;
        }
        proof {
            assert(ids@.take(i as int) =~= ids@);
            assert forall|id: u32| #[trigger] ids@.contains(id) <==> net.contains(id) by {
                assert(ids@.to_set().contains(id) <==> topology.nodes@.dom().contains(id));
            }
        }
        Scheduler {
            ready_nodes,
            pending_upstreams_count,
            next_worker: 0,
            num_workers,
            pending_runs: 0,
        }
    }

    /// Hands every ready node to a worker, workers taking turns.
    pub fn dispatch_all(&mut self) -> (dispatches: Vec<Dispatch>)
        requires
            old(self)@.well_formed(),
            old(self)@.ready.len() > 0 ==> old(self)@.workers > 0,
            old(self)@.running + old(self)@.ready.len() <= i64::MAX,
        ensures
            final(self)@.well_formed(),
            final(self)@ == old(self)@.dispatched(),
            old(self)@.hands_out(dispatches@),
    {
        let mut dispatches: Vec<Dispatch> = Vec::new();
        let ghost start = self@;
        assert(start.ready.skip(0) =~= start.ready);
        loop
            invariant
                start.well_formed(),
                start.ready.len() > 0 ==> start.workers > 0,
                start.running + start.ready.len() <= i64::MAX,
                self@.well_formed(),
                dispatches@.len() <= start.ready.len(),
                self@ == (SchedulerState {
                    ready: start.ready.skip(dispatches@.len() as int),
                    next_worker: start.worker_for(dispatches@.len() as int),
                    running: start.running + dispatches@.len(),
                    ..start
                }),
                forall|k: int|
                    #![trigger dispatches@[k]]
                    0 <= k < dispatches@.len() ==> dispatches@[k].node == start.ready[k]
                        && dispatches@[k].worker == start.worker_for(k),
            ensures
                dispatches@.len() == start.ready.len(),
            decreases start.ready.len() - dispatches@.len(),
        {
            match self.ready_nodes.pop_front() {
                Some(node) => {
                    let ghost k = dispatches@.len() as int;
                    dispatches.push(Dispatch { worker: self.next_worker, node });
                    proof {
                        lemma_next_turn(start, k);
                        assert(start.ready.skip(k).subrange(
                            1,
                            start.ready.len() - k,
                        ) =~= start.ready.skip(k + 1));
                    }
                    self.next_worker = (self.next_worker + 1) % self.num_workers;
                    self.pending_runs += 1;
                },
                None => {
                    break;
                },
            }
        }
        assert(start.ready.skip(start.ready.len() as int) =~= Seq::<u32>::empty());
        dispatches
    }

    /// Takes in one completion.
    fn complete<A>(&mut self, topology: &NetworkTopology<A>, node_id: u32)
        requires
            old(self)@.well_formed(),
            old(self)@.running > i64::MIN,
        ensures
            final(self)@.well_formed(),
            final(self)@ == old(self)@.completed(topology.drainage(), node_id),
    {
        self.pending_runs -= 1;
        if let Some(node) = topology.node(node_id) {
            let below = node.downstream_id;
            let waiting: Option<usize> = match fx_get(&self.pending_upstreams_count, below) {
                Some(count) => Some(*count),
                None => None,
            };
            if let Some(count) = waiting {
                let left: usize = count.saturating_sub(1);
                if left == 0 {
                    self.ready_nodes.push_front(below);
                    fx_remove(&mut self.pending_upstreams_count, below);
                } else {
                    fx_insert(&mut self.pending_upstreams_count, below, left);
                }
            }
        }
    }

    /// Takes in one message, `None` once the channel is closed; `false` when the run is over.
    ///
    /// A run ends on request, when nobody is left to report, and when a completion leaves
    /// nothing running and nothing ready.
    pub fn on_message<A>(
        &mut self,
        topology: &NetworkTopology<A>,
        message: Option<SchedulerMessage>,
    ) -> (go_on: bool)
        requires
            old(self)@.well_formed(),
            message matches Some(SchedulerMessage::NodeCompleted(_)) ==> old(self)@.running
                > i64::MIN,
        ensures
            final(self)@.well_formed(),
            old(self)@.takes_in(topology.drainage(), message, final(self)@, go_on),
    {
        match message {
            Some(SchedulerMessage::NodeCompleted(node_id)) => {
                self.complete(topology, node_id);
                !(self.pending_runs == 0 && self.ready_nodes.len() == 0)
            },
            Some(SchedulerMessage::Shutdown) => false,
            None => false,
        }
    }
}

proof fn lemma_next_turn(start: SchedulerState, k: int)
    requires
        start.well_formed(),
        start.workers > 0,
        k >= 0,
    ensures
        (start.worker_for(k) + 1) % start.workers == start.worker_for(k + 1),
        0 <= start.worker_for(k) < start.workers,
{
    vstd::arithmetic::div_mod::lemma_add_mod_noop(start.next_worker + k, 1, start.workers);
    vstd::arithmetic::div_mod::lemma_mod_twice(start.next_worker + k, start.workers);
    vstd::arithmetic::div_mod::lemma_add_mod_noop(
        (start.next_worker + k) % start.workers,
        1,
        start.workers,
    );
}

proof fn lemma_push_contains(s: Seq<u32>, v: u32, x: u32)
    ensures
        s.push(v).contains(x) <==> s.contains(x) || x == v,
{
    if s.contains(x) {
        let k = s.index_of(x);
        assert(s.push(v)[k] == x);
    }
    if x == v {
        assert(s.push(v)[s.len() as int] == x);
    }
}

} // verus!
