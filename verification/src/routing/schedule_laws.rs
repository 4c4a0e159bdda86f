//! What holds of every run of the scheduler, whatever order completions arrive in.

use crate::network::Drainage;
use crate::routing::scheduler::SchedulerState;
use vstd::prelude::*;

verus! {

/// The state after the completions `done`, with everything ready handed out after each.
pub open spec fn run_state(net: Drainage, init: SchedulerState, done: Seq<u32>) -> SchedulerState
    decreases done.len(),
{
    if done.len() == 0 {
        init.dispatched()
    } else {
        run_state(net, init, done.drop_last()).completed(net, done.last()).dispatched()
    }
}

/// Every node handed out by then, in the order it was handed out.
pub open spec fn handed_out(net: Drainage, init: SchedulerState, done: Seq<u32>) -> Seq<u32>
    decreases done.len(),
{
    if done.len() == 0 {
        init.ready
    } else {
        handed_out(net, init, done.drop_last()) + run_state(
            net,
            init,
            done.drop_last(),
        ).completed(net, done.last()).ready
    }
}

/// The workers report what they were handed, each node once.
pub open spec fn faithful(net: Drainage, init: SchedulerState, done: Seq<u32>) -> bool
    decreases done.len(),
{
    done.len() == 0 || {
        &&& faithful(net, init, done.drop_last())
        &&& handed_out(net, init, done.drop_last()).contains(done.last())
        &&& !done.drop_last().contains(done.last())
    }
}

/// The upstream nodes of `id` that are not done.
spec fn open_upstreams(net: Drainage, done: Seq<u32>, id: u32) -> Set<u32> {
    net.upstreams(id).difference(done.to_set())
}

spec fn run_inv(net: Drainage, st: SchedulerState, handed: Seq<u32>, done: Seq<u32>) -> bool {
    &&& st.ready.len() == 0
    &&& handed.no_duplicates()
    &&& done.no_duplicates()
    &&& st.running == handed.len() - done.len()
    &&& forall|id: u32| #[trigger] handed.contains(id) ==> net.contains(id)
    &&& forall|id: u32| #[trigger] done.contains(id) ==> handed.contains(id)
    &&& forall|id: u32|
        #![trigger st.pending.contains_key(id)]
        #![trigger handed.contains(id)]
        st.pending.contains_key(id) <==> net.contains(id) && !handed.contains(id)
    &&& forall|id: u32| #[trigger]
        st.pending.contains_key(id) ==> {
            &&& st.pending[id] == open_upstreams(net, done, id).len()
            &&& st.pending[id] > 0
        }
    &&& forall|id: u32, u: u32|
        #![trigger handed.contains(id), net.upstreams(id).contains(u)]
        handed.contains(id) && net.upstreams(id).contains(u) ==> done.contains(u)
}

/// A set of 32-bit ids is finite.
proof fn lemma_ids_finite(s: Set<u32>)
    ensures
        s.finite(),
{
    let range = vstd::set_lib::set_int_range(0, 0x1_0000_0000);
    vstd::set_lib::lemma_int_range(0, 0x1_0000_0000);
    let all = range.map(|i: int| i as u32);
    range.lemma_map_finite(|i: int| i as u32);
    assert forall|x: u32| s.contains(x) implies all.contains(x) by {
        assert(range.contains(x as int));
        assert((x as int) as u32 == x);
    }
    vstd::set_lib::lemma_set_subset_finite(all, s);
}

proof fn lemma_run_inv(net: Drainage, init: SchedulerState, workers: int, done: Seq<u32>)
    requires
        init.is_initial(net, workers),
        net.consistent(),
        faithful(net, init, done),
    ensures
        run_inv(net, run_state(net, init, done), handed_out(net, init, done), done),
    decreases done.len(),
{
    if done.len() == 0 {
        let st = run_state(net, init, done);
        assert forall|id: u32| #[trigger] st.pending.contains_key(id) implies st.pending[id]
            == open_upstreams(net, done, id).len() && st.pending[id] > 0 by {
            assert(net.contains(id));
            assert(open_upstreams(net, done, id) =~= net.upstreams(id));
        }
        assert forall|id: u32, u: u32|
            #![trigger init.ready.contains(id), net.upstreams(id).contains(u)]
            init.ready.contains(id) && net.upstreams(id).contains(u) implies done.contains(u) by {
            assert(net.contains(id));
            lemma_ids_finite(net.upstreams(id));
            net.upstreams(id).lemma_len0_is_empty();
        }
    } else {
        let prev = done.drop_last();
        let id = done.last();
        lemma_run_inv(net, init, workers, prev);
        lemma_completion(
            net,
            run_state(net, init, prev),
            handed_out(net, init, prev),
            prev,
            id,
        );
        assert(prev.push(id) =~= done);
    }
}

/// One completion and the dispatches after it keep the invariant.
proof fn lemma_completion(
    net: Drainage,
    st: SchedulerState,
    handed: Seq<u32>,
    prev: Seq<u32>,
    id: u32,
)
    requires
        run_inv(net, st, handed, prev),
        handed.contains(id),
        !prev.contains(id),
    ensures
        run_inv(
            net,
            st.completed(net, id).dispatched(),
            handed + st.completed(net, id).ready,
            prev.push(id),
        ),
{
    let done = prev.push(id);
    let mid = st.completed(net, id);
    let next = mid.dispatched();
    let handed2 = handed + mid.ready;
    let below = net.downstream[id];
    assert(net.contains(id));
    assert forall|x: u32| #[trigger] done.contains(x) <==> prev.contains(x) || x == id by {
        if prev.contains(x) {
            assert(done[prev.index_of(x)] == x);
        }
        assert(done[prev.len() as int] == id);
    }
    assert(done.to_set() =~= prev.to_set().insert(id));
    assert forall|n: u32| n != below implies #[trigger] open_upstreams(net, done, n)
        =~= open_upstreams(net, prev, n) by {}
    assert(open_upstreams(net, done, below) =~= open_upstreams(net, prev, below).remove(id));
    assert(open_upstreams(net, prev, below).contains(id));
    lemma_ids_finite(open_upstreams(net, prev, below));
    lemma_ids_finite(open_upstreams(net, done, below));
    if st.pending.contains_key(below) {
        assert(open_upstreams(net, done, below).len() == st.pending[below] - 1);
        if st.pending[below] <= 1 {
            assert(mid.ready =~= seq![below]);
            assert(handed2 =~= handed.push(below));
            assert forall|x: u32| #[trigger] handed2.contains(x) <==> handed.contains(x) || x
                == below by {
                if handed.contains(x) {
                    assert(handed2[handed.index_of(x)] == x);
                }
                assert(handed2[handed.len() as int] == below);
            }
            open_upstreams(net, done, below).lemma_len0_is_empty();
            assert forall|u: u32| net.upstreams(below).contains(u) implies done.contains(u) by {
                if !done.contains(u) {
                    assert(open_upstreams(net, done, below).contains(u));
                }
            }
        } else {
            assert(mid.ready =~= Seq::<u32>::empty());
            assert(handed2 =~= handed);
        }
    } else {
        assert(mid.ready =~= Seq::<u32>::empty());
        assert(handed2 =~= handed);
    }
}

/// A node is handed out only after every node that drains into it is done.
pub proof fn law_upstreams_first(
    net: Drainage,
    init: SchedulerState,
    workers: int,
    done: Seq<u32>,
    id: u32,
    upstream: u32,
)
    requires
        init.is_initial(net, workers),
        net.consistent(),
        faithful(net, init, done),
        handed_out(net, init, done).contains(id),
        net.contains(upstream),
        net.downstream[upstream] == id,
    ensures
        done.contains(upstream),
{
    lemma_run_inv(net, init, workers, done);
    assert(net.upstreams(id).contains(upstream));
}

/// The node `steps` reaches below `id`, `None` once the path leaves the network.
pub open spec fn below(net: Drainage, id: u32, steps: nat) -> Option<u32>
    decreases steps,
{
    if !net.contains(id) {
        None
    } else if steps == 0 {
        Some(id)
    } else {
        below(net, net.downstream[id], (steps - 1) as nat)
    }
}

/// A node is handed out only after its whole basin is done: every node from which water reaches
/// it.
pub proof fn law_whole_basin_first(
    net: Drainage,
    init: SchedulerState,
    workers: int,
    done: Seq<u32>,
    id: u32,
    upstream: u32,
    steps: nat,
)
    requires
        init.is_initial(net, workers),
        net.consistent(),
        faithful(net, init, done),
        handed_out(net, init, done).contains(id),
        steps > 0,
        below(net, upstream, steps) == Some(id),
    ensures
        done.contains(upstream),
    decreases steps,
{
    lemma_run_inv(net, init, workers, done);
    let next = net.downstream[upstream];
    if steps == 1 {
        assert(below(net, next, 0) == Some(id));
    } else {
        law_whole_basin_first(net, init, workers, done, id, next, (steps - 1) as nat);
        assert(done.contains(next));
        assert(handed_out(net, init, done).contains(next));
    }
    law_upstreams_first(net, init, workers, done, next, upstream);
}

/// Nodes that are being routed at the same time do not depend on each other: water from one
/// never reaches another.
pub proof fn law_running_nodes_are_independent(
    net: Drainage,
    init: SchedulerState,
    workers: int,
    done: Seq<u32>,
    a: u32,
    b: u32,
    steps: nat,
)
    requires
        init.is_initial(net, workers),
        net.consistent(),
        faithful(net, init, done),
        handed_out(net, init, done).contains(a),
        handed_out(net, init, done).contains(b),
        !done.contains(a),
        !done.contains(b),
        steps > 0,
    ensures
        below(net, a, steps) != Some(b),
{
    if below(net, a, steps) == Some(b) {
        law_whole_basin_first(net, init, workers, done, b, a, steps);
    }
}

/// No node is handed out twice, and only nodes of the network are.
pub proof fn law_handed_out_once(
    net: Drainage,
    init: SchedulerState,
    workers: int,
    done: Seq<u32>,
)
    requires
        init.is_initial(net, workers),
        net.consistent(),
        faithful(net, init, done),
    ensures
        handed_out(net, init, done).no_duplicates(),
        forall|id: u32| #[trigger]
            handed_out(net, init, done).contains(id) ==> net.contains(id),
{
    lemma_run_inv(net, init, workers, done);
}

/// The number of running nodes is the number handed out and not yet done, so it is never
/// negative, and a completion never finds it at zero.
pub proof fn law_running_count(
    net: Drainage,
    init: SchedulerState,
    workers: int,
    done: Seq<u32>,
)
    requires
        init.is_initial(net, workers),
        net.consistent(),
        faithful(net, init, done),
    ensures
        run_state(net, init, done).running == handed_out(net, init, done).len() - done.len(),
        run_state(net, init, done).running >= 0,
        forall|id: u32|
            #![trigger handed_out(net, init, done).contains(id)]
            handed_out(net, init, done).contains(id) && !done.contains(id) ==> run_state(
                net,
                init,
                done,
            ).running > 0,
{
    lemma_run_inv(net, init, workers, done);
    let handed = handed_out(net, init, done);
    lemma_distinct_subset(done, handed);
    assert forall|id: u32| #[trigger] handed.contains(id) && !done.contains(id) implies run_state(
        net,
        init,
        done,
    ).running > 0 by {
        let more = done.push(id);
        assert forall|x: u32| #[trigger] more.contains(x) implies handed.contains(x) by {
            let k = more.index_of(x);
            if k < done.len() {
                assert(done.contains(x)) by {
                    assert(done[k] == x);
                }
            }
        }
        lemma_distinct_subset(more, handed);
    }
}

proof fn lemma_distinct_subset(a: Seq<u32>, b: Seq<u32>)
    requires
        a.no_duplicates(),
        b.no_duplicates(),
        forall|x: u32| #[trigger] a.contains(x) ==> b.contains(x),
    ensures
        a.len() <= b.len(),
{
    a.unique_seq_to_set();
    b.unique_seq_to_set();
    lemma_ids_finite(b.to_set());
    assert forall|x: u32| a.to_set().contains(x) implies b.to_set().contains(x) by {
        assert(a.contains(x));
    }
    vstd::set_lib::lemma_len_subset(a.to_set(), b.to_set());
}

/// In a network that has a topological order, a run that comes to rest has routed every node.
pub proof fn law_rest_means_done(
    net: Drainage,
    init: SchedulerState,
    workers: int,
    done: Seq<u32>,
    order: spec_fn(u32) -> nat,
    id: u32,
)
    requires
        init.is_initial(net, workers),
        net.consistent(),
        net.ordered_by(order),
        faithful(net, init, done),
        run_state(net, init, done).idle(),
        net.contains(id),
    ensures
        done.contains(id),
    decreases order(id),
{
    law_running_count(net, init, workers, done);
    lemma_run_inv(net, init, workers, done);
    if !done.contains(id) {
        let st = run_state(net, init, done);
        assert(st.pending.contains_key(id));
        let waiting_for = open_upstreams(net, done, id);
        lemma_ids_finite(waiting_for);
        let u = waiting_for.choose();
        assert(waiting_for.contains(u));
        assert(net.contains(u) && net.downstream[u] == id);
        law_rest_means_done(net, init, workers, done, order, u);
    }
}

/// In a network that has a topological order, a run that comes to rest has completed exactly the
/// nodes of the network, each of them once.
pub proof fn law_rest_means_each_node_once(
    net: Drainage,
    init: SchedulerState,
    workers: int,
    done: Seq<u32>,
    order: spec_fn(u32) -> nat,
)
    requires
        init.is_initial(net, workers),
        net.consistent(),
        net.ordered_by(order),
        faithful(net, init, done),
        run_state(net, init, done).idle(),
    ensures
        done.no_duplicates(),
        forall|id: u32| #[trigger] done.contains(id) <==> net.contains(id),
{
    lemma_run_inv(net, init, workers, done);
    assert forall|id: u32| #[trigger] done.contains(id) <==> net.contains(id) by {
        if net.contains(id) {
            law_rest_means_done(net, init, workers, done, order, id);
        }
        if done.contains(id) {
            assert(handed_out(net, init, done).contains(id));
        }
    }
}

/// What was reported by then was reported faithfully.
pub proof fn law_faithful_so_far(net: Drainage, init: SchedulerState, done: Seq<u32>, k: int)
    requires
        faithful(net, init, done),
        0 <= k <= done.len(),
    ensures
        faithful(net, init, done.take(k)),
    decreases done.len() - k,
{
    if k < done.len() {
        law_faithful_so_far(net, init, done.drop_last(), k);
        assert(done.drop_last().take(k) =~= done.take(k));
    } else {
        assert(done.take(k) =~= done);
    }
}

} // verus!
