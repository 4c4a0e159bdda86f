//! What holds of a whole run: scheduler, workers and writer together.

use crate::config::ChannelParams;
use crate::io::results::SimulationResults;
use crate::kernel::muskingum::rs_route::mc_kernel_simd::StepFlows;
use crate::kernel::muskingum::MuskingumCungeResult;
use crate::network::Drainage;
use crate::routing::node::{answers, settled, NodeWork, PreparedNode};
use crate::routing::route_laws::{
    follows, law_routing_is_causal, lemma_same_series, same_inputs_until, summed,
};
use crate::routing::schedule_laws::{
    faithful, handed_out, law_faithful_so_far, law_rest_means_each_node_once, law_upstreams_first,
    run_state,
};
use crate::routing::scheduler::SchedulerState;
use crate::routing::worker::{
    all_zero, dry_nodes, planned, ready_nodes, resolved, BatchPlan, Inputs, NodeOutcome,
};
use crate::routing::writer::{
    contents, is_last, law_all_written_at_the_end, received, written_by, WriterEvent, WriterState,
};
use vstd::prelude::*;

verus! {

/// How often `id` occurs.
pub open spec fn times(s: Seq<u32>, id: u32) -> nat
    decreases s.len(),
{
    if s.len() == 0 {
        0
    } else {
        times(s.drop_last(), id) + if s.last() == id {
            1nat
        } else {
            0
        }
    }
}

proof fn lemma_times_concat(a: Seq<u32>, b: Seq<u32>, id: u32)
    ensures
        times(a + b, id) == times(a, id) + times(b, id),
    decreases b.len(),
{
    if b.len() == 0 {
        assert(a + b =~= a);
    } else {
        lemma_times_concat(a, b.drop_last(), id);
        assert((a + b).drop_last() =~= a + b.drop_last());
    }
}

proof fn lemma_times_distinct(s: Seq<u32>, id: u32)
    requires
        s.no_duplicates(),
    ensures
        times(s, id) == if s.contains(id) {
            1nat
        } else {
            0
        },
    decreases s.len(),
{
    if s.len() > 0 {
        let rest = s.drop_last();
        lemma_times_distinct(rest, id);
        if rest.contains(id) {
            let k = rest.index_of(id);
            assert(s[k] == id && s[s.len() - 1] == s.last());
            assert(s.contains(id));
        }
        if s.contains(id) && s.last() != id {
            let k = s.index_of(id);
            assert(rest[k] == id);
        }
    }
}

/// The nodes that results belong to.
pub open spec fn ids_of<T>(results: Seq<SimulationResults<T>>) -> Seq<u32> {
    Seq::new(results.len(), |i: int| results[i].feature_id)
}

pub open spec fn prepared_ids<T>(nodes: Seq<PreparedNode<T>>) -> Seq<u32> {
    Seq::new(nodes.len(), |i: int| nodes[i].node_id)
}

/// One batch as a worker took it on.
pub struct BatchRun<T> {
    pub ids: Seq<u32>,
    pub outcomes: Seq<NodeOutcome<T>>,
}

impl<T> BatchRun<T> {
    /// No node failed, and those skipped are those without channel parameters.
    pub open spec fn went_well(self, channels: Map<u32, ChannelParams<T>>) -> bool {
        &&& self.outcomes.len() == self.ids.len()
        &&& forall|i: int|
            #![trigger self.outcomes[i]]
            0 <= i < self.ids.len() ==> {
                &&& !(self.outcomes[i] is Failed)
                &&& self.outcomes[i] is NoParams <==> !channels.contains_key(self.ids[i])
            }
    }

    /// The nodes that the batch has results for, in the order of the results.
    pub open spec fn result_ids(self) -> Seq<u32> {
        dry_nodes(self.ids, self.outcomes) + prepared_ids(ready_nodes(self.ids, self.outcomes))
    }
}

/// A batch in which every node was resolved and none failed went well.
pub proof fn law_resolved_batches_go_well<T, R: Fn(u32) -> Inputs<T>>(
    channels: Map<u32, ChannelParams<T>>,
    resolve: R,
    batch: BatchRun<T>,
)
    requires
        batch.outcomes.len() == batch.ids.len(),
        forall|i: int|
            #![trigger batch.outcomes[i]]
            0 <= i < batch.ids.len() ==> resolved(
                channels,
                resolve,
                batch.ids[i],
                batch.outcomes[i],
            ) && !(batch.outcomes[i] is Failed),
    ensures
        batch.went_well(channels),
{
}

/// The results of a batch are those of its nodes: first the nodes without inflow, then those that
/// went through a kernel.
pub proof fn law_a_batch_answers_for_its_nodes<T>(
    plan: BatchPlan<T>,
    batch: BatchRun<T>,
    results: Seq<SimulationResults<T>>,
    steps: nat,
    zero: T,
)
    requires
        planned(plan, batch.ids, batch.outcomes, steps, zero),
        results.len() == plan.routed@.len() + plan.prepared@.len(),
        results.take(plan.routed@.len() as int) == plan.routed@,
        answers(plan.prepared@, results.skip(plan.routed@.len() as int), steps),
    ensures
        ids_of(results) == batch.result_ids(),
{
    let known = plan.routed@.len() as int;
    let dry = dry_nodes(batch.ids, batch.outcomes);
    assert forall|i: int| 0 <= i < results.len() implies #[trigger] ids_of(results)[i]
        == batch.result_ids()[i] by {
        if i < known {
            assert(results.take(known)[i] == results[i]);
            assert(all_zero(plan.routed@[i], dry[i], steps, zero));
        } else {
            assert(results.skip(known)[i - known] == results[i]);
        }
    }
    assert(ids_of(results) =~= batch.result_ids());
}

/// The nodes of all batches.
pub open spec fn all_ids<T>(batches: Seq<BatchRun<T>>) -> Seq<u32>
    decreases batches.len(),
{
    if batches.len() == 0 {
        Seq::empty()
    } else {
        all_ids(batches.drop_last()) + batches.last().ids
    }
}

/// The nodes that the batches have results for.
pub open spec fn all_result_ids<T>(batches: Seq<BatchRun<T>>) -> Seq<u32>
    decreases batches.len(),
{
    if batches.len() == 0 {
        Seq::empty()
    } else {
        all_result_ids(batches.drop_last()) + batches.last().result_ids()
    }
}

proof fn lemma_batch_counts<T>(channels: Map<u32, ChannelParams<T>>, batch: BatchRun<T>, id: u32)
    requires
        batch.went_well(channels),
    ensures
        times(batch.result_ids(), id) == if channels.contains_key(id) {
            times(batch.ids, id)
        } else {
            0
        },
    decreases batch.ids.len(),
{
    let dry = dry_nodes(batch.ids, batch.outcomes);
    let ready = ready_nodes(batch.ids, batch.outcomes);
    lemma_times_concat(dry, prepared_ids(ready), id);
    if batch.ids.len() > 0 {
        let n = batch.ids.len() - 1;
        let rest = BatchRun { ids: batch.ids.drop_last(), outcomes: batch.outcomes.drop_last() };
        assert forall|i: int|
            #![trigger rest.outcomes[i]]
            0 <= i < rest.ids.len() implies !(rest.outcomes[i] is Failed) && (
        rest.outcomes[i] is NoParams <==> !channels.contains_key(rest.ids[i])) by {
            assert(rest.outcomes[i] == batch.outcomes[i]);
        }
        lemma_batch_counts(channels, rest, id);
        let rest_dry = dry_nodes(rest.ids, rest.outcomes);
        let rest_ready = ready_nodes(rest.ids, rest.outcomes);
        lemma_times_concat(rest_dry, prepared_ids(rest_ready), id);
        let last = batch.outcomes[n];
        assert(last == batch.outcomes.last());
        if last is NoInflow {
            assert(dry.drop_last() =~= rest_dry);
        } else if last is Ready {
            assert(prepared_ids(ready).drop_last() =~= prepared_ids(rest_ready));
            assert(prepared_ids(ready).last() == batch.ids.last());
        }
    }
}

proof fn lemma_all_counts<T>(
    channels: Map<u32, ChannelParams<T>>,
    batches: Seq<BatchRun<T>>,
    id: u32,
)
    requires
        forall|b: int| 0 <= b < batches.len() ==> (#[trigger] batches[b]).went_well(channels),
    ensures
        times(all_result_ids(batches), id) == if channels.contains_key(id) {
            times(all_ids(batches), id)
        } else {
            0
        },
    decreases batches.len(),
{
    if batches.len() > 0 {
        let rest = batches.drop_last();
        let last = batches[batches.len() - 1];
        assert forall|b: int| 0 <= b < rest.len() implies (#[trigger] rest[b]).went_well(
            channels,
        ) by {
            assert(rest[b] == batches[b]);
        }
        lemma_all_counts(channels, rest, id);
        lemma_batch_counts(channels, last, id);
        lemma_times_concat(all_ids(rest), last.ids, id);
        lemma_times_concat(all_result_ids(rest), last.result_ids(), id);
    }
}

/// A run in which nothing fails writes each node that has channel parameters once, and nothing
/// else. The batches hold what the scheduler was told is complete, and the writer gets the results
/// of the batches, each in whatever order.
pub proof fn law_a_run_writes_each_node_once<T>(
    net: Drainage,
    init: SchedulerState,
    workers: int,
    done: Seq<u32>,
    order: spec_fn(u32) -> nat,
    channels: Map<u32, ChannelParams<T>>,
    batches: Seq<BatchRun<T>>,
    events: Seq<WriterEvent<SimulationResults<T>>>,
    batch_size: int,
    id: u32,
)
    requires
        init.is_initial(net, workers),
        net.consistent(),
        net.ordered_by(order),
        faithful(net, init, done),
        run_state(net, init, done).idle(),
        forall|b: int| 0 <= b < batches.len() ==> (#[trigger] batches[b]).went_well(channels),
        forall|x: u32| #[trigger] times(all_ids(batches), x) == times(done, x),
        forall|x: u32| #[trigger]
            times(ids_of(received(events)), x) == times(all_result_ids(batches), x),
        events.len() > 0,
        is_last(events.last()),
    ensures
        ({
            let start = WriterState {
                batch: Seq::<SimulationResults<T>>::empty(),
                batch_num: 0,
                batch_size,
            };
            times(ids_of(contents(written_by(start, events))), id) == if net.contains(id)
                && channels.contains_key(id) {
                1nat
            } else {
                0
            }
        }),
{
    law_rest_means_each_node_once(net, init, workers, done, order);
    law_all_written_at_the_end(batch_size, events);
    lemma_all_counts(channels, batches, id);
    lemma_times_distinct(done, id);
    assert(times(all_ids(batches), id) == times(done, id));
    assert(done.contains(id) <==> net.contains(id));
    assert(times(ids_of(received(events)), id) == times(all_result_ids(batches), id));
}

/// What a run is given: the network, the channels, each node's lateral inflow, and the arithmetic.
#[verifier::reject_recursive_types(T)]
pub struct RunInput<T> {
    pub net: Drainage,
    pub channels: Map<u32, ChannelParams<T>>,
    pub external: spec_fn(u32) -> Seq<T>,
    pub rule: spec_fn(ChannelParams<T>, StepFlows<T>) -> MuskingumCungeResult<T>,
    pub plus: spec_fn(T, T) -> T,
    pub steps: nat,
    pub zero: T,
}

/// How a run went: what the scheduler saw, and for each node how many completions had been
/// reported when it was handed out, whose flows its inflow buffer held then, in the order they
/// were added, and its results.
#[verifier::reject_recursive_types(T)]
pub struct RunRecord<T> {
    pub workers: int,
    pub init: SchedulerState,
    pub done: Seq<u32>,
    pub handed_at: spec_fn(u32) -> nat,
    pub added: spec_fn(u32) -> Seq<u32>,
    pub results: spec_fn(u32) -> SimulationResults<T>,
}

impl<T> RunInput<T> {
    /// The nodes that are routed.
    pub open spec fn routed(self, id: u32) -> bool {
        self.net.contains(id) && self.channels.contains_key(id)
    }

    /// The routed nodes that drain into `id`.
    pub open spec fn contributors(self, id: u32) -> Set<u32> {
        Set::new(|u: u32| self.routed(u) && self.net.downstream[u] == id)
    }

    /// The kernel on the channel of `id`.
    pub open spec fn rule_of(self, id: u32) -> spec_fn(StepFlows<T>) -> MuskingumCungeResult<T> {
        |flows: StepFlows<T>| (self.rule)(self.channels[id], flows)
    }

    /// `work` is what inflow and lateral inflow are settled to.
    pub open spec fn settles(self, inflow: Seq<T>, external: Seq<T>, work: NodeWork<T>) -> bool {
        settled(inflow, external, self.steps, self.zero, work)
    }

    /// `results` is what routing `id` from this inflow gives: zeros without any inflow, otherwise
    /// what follows the kernel.
    pub open spec fn routes(self, id: u32, inflow: Seq<T>, results: SimulationResults<T>) -> bool {
        let external = (self.external)(id);
        if inflow.len() == 0 && external.len() == 0 {
            all_zero(results, id, self.steps, self.zero)
        } else {
            &&& results.feature_id == id
            &&& results.covers(self.steps)
            &&& exists|work: NodeWork<T>| #[trigger]
                self.settles(inflow, external, work) && follows(
                    self.rule_of(id),
                    work,
                    self.zero,
                    results,
                )
        }
    }
}

impl<T> RunRecord<T> {
    pub open spec fn flow(self, id: u32) -> Seq<T> {
        (self.results)(id).flow_data@
    }

    /// The hydrographs in the inflow buffer of `id`, in the order they were added.
    pub open spec fn added_flows(self, id: u32) -> Seq<Seq<T>> {
        Seq::new((self.added)(id).len(), |k: int| self.flow((self.added)(id)[k]))
    }

    /// The inflow buffer of `id` when the node took it.
    pub open spec fn inflow(self, input: RunInput<T>, id: u32) -> Seq<T> {
        if (self.added)(id).len() == 0 {
            Seq::empty()
        } else {
            Seq::new(
                input.steps,
                |t: int| summed(input.plus, self.added_flows(id), t, input.zero),
            )
        }
    }

    /// Flows are added once each, to the node below; and since a worker adds a node's flow before
    /// it reports the node complete, the flows of all nodes reported by then were there when `id`
    /// was handed out.
    pub open spec fn collected(self, input: RunInput<T>, id: u32) -> bool {
        let by_then = self.done.take((self.handed_at)(id) as int);
        &&& (self.handed_at)(id) <= self.done.len()
        &&& handed_out(input.net, self.init, by_then).contains(id)
        &&& (self.added)(id).no_duplicates()
        &&& forall|u: u32| #[trigger]
            (self.added)(id).contains(u) ==> input.contributors(id).contains(u)
        &&& forall|u: u32| #[trigger]
            by_then.contains(u) && input.contributors(id).contains(u) ==> (self.added)(
                id,
            ).contains(u)
    }

    /// This is how a run on `input` can go.
    pub open spec fn is_run_of(self, input: RunInput<T>) -> bool {
        &&& self.init.is_initial(input.net, self.workers)
        &&& faithful(input.net, self.init, self.done)
        &&& forall|id: u32| #[trigger]
            input.routed(id) ==> self.collected(input, id) && input.routes(
                id,
                self.inflow(input, id),
                (self.results)(id),
            )
    }
}

/// A node takes the flow of every routed node that drains into it, whatever order the run took.
pub proof fn law_inflow_is_complete<T>(input: RunInput<T>, run: RunRecord<T>, id: u32, u: u32)
    requires
        input.net.consistent(),
        run.is_run_of(input),
        input.routed(id),
    ensures
        (run.added)(id).contains(u) <==> input.contributors(id).contains(u),
{
    let k = (run.handed_at)(id) as int;
    assert(run.collected(input, id));
    if input.contributors(id).contains(u) {
        law_faithful_so_far(input.net, run.init, run.done, k);
        law_upstreams_first(
            input.net,
            run.init,
            run.workers,
            run.done.take(k),
            id,
            u,
        );
    }
}

/// Two orders of at most two things are the same or each other's reverse.
proof fn lemma_two_orders(a: Seq<u32>, b: Seq<u32>, all: Set<u32>)
    requires
        a.no_duplicates(),
        b.no_duplicates(),
        forall|u: u32| #[trigger] a.contains(u) <==> all.contains(u),
        forall|u: u32| #[trigger] b.contains(u) <==> all.contains(u),
        all.len() <= 2,
    ensures
        a.len() == b.len(),
        a.len() <= 2,
        a == b || a.len() == 2 && a[0] == b[1] && a[1] == b[0],
{
    assert(a.to_set() =~= all) by {
        assert forall|u: u32| a.to_set().contains(u) <==> all.contains(u) by {
            assert(a.contains(u) <==> all.contains(u));
        }
    }
    assert(b.to_set() =~= all) by {
        assert forall|u: u32| b.to_set().contains(u) <==> all.contains(u) by {
            assert(b.contains(u) <==> all.contains(u));
        }
    }
    a.unique_seq_to_set();
    b.unique_seq_to_set();
    if a.len() >= 1 {
        assert(b.contains(a[0])) by {
            assert(a.contains(a[0]));
        }
        let i = b.index_of(a[0]);
        if a.len() == 2 {
            assert(b.contains(a[1])) by {
                assert(a.contains(a[1]));
            }
            let j = b.index_of(a[1]);
            assert(a[0] != a[1]);
            assert(i != j);
        }
    }
    if a.len() < 2 || a[0] == b[0] {
        assert(a =~= b);
    }
}

/// Two results hold the same series for the same node.
pub open spec fn same_results<T>(a: SimulationResults<T>, b: SimulationResults<T>) -> bool {
    &&& a.feature_id == b.feature_id
    &&& a.flow_data@ == b.flow_data@
    &&& a.velocity_data@ == b.velocity_data@
    &&& a.depth_data@ == b.depth_data@
}

/// From one inflow, routing has one answer.
proof fn lemma_routes_once<T>(
    input: RunInput<T>,
    id: u32,
    inflow: Seq<T>,
    a: SimulationResults<T>,
    b: SimulationResults<T>,
)
    requires
        input.routes(id, inflow, a),
        input.routes(id, inflow, b),
    ensures
        same_results(a, b),
{
    let external = (input.external)(id);
    if !(inflow.len() == 0 && external.len() == 0) {
        let rule = input.rule_of(id);
        let work_a = choose|work: NodeWork<T>| #[trigger]
            input.settles(inflow, external, work) && follows(rule, work, input.zero, a);
        let work_b = choose|work: NodeWork<T>| #[trigger]
            input.settles(inflow, external, work) && follows(rule, work, input.zero, b);
        assert forall|t: int| 0 <= t < input.steps implies #[trigger] a.at(t) == b.at(t) by {
            assert(same_inputs_until(work_a, work_b, t, input.zero));
            law_routing_is_causal(rule, rule, work_a, work_b, input.zero, a, b, t);
        }
        lemma_same_series(a, b, input.steps);
    }
}

/// Neither the number of workers nor the order of completions shows in what is routed, where at
/// most two routed nodes drain into any one: two runs on the same input give every node the same
/// hydrographs. Of the addition, only that two of the flows that meet add up the same both ways,
/// and that adding a flow to nothing gives the flow.
pub proof fn law_neither_workers_nor_order_show<T>(
    input: RunInput<T>,
    a: RunRecord<T>,
    b: RunRecord<T>,
    order: spec_fn(u32) -> nat,
    id: u32,
)
    requires
        input.net.consistent(),
        input.net.ordered_by(order),
        forall|x: u32| (#[trigger] input.contributors(x)).len() <= 2,
        a.is_run_of(input),
        b.is_run_of(input),
        forall|u: u32, t: int|
            #![trigger a.flow(u)[t]]
            input.routed(u) && 0 <= t < input.steps ==> (input.plus)(input.zero, a.flow(u)[t])
                == a.flow(u)[t],
        forall|u: u32, v: u32, t: int|
            #![trigger a.flow(u)[t], a.flow(v)[t]]
            input.routed(u) && input.routed(v) && 0 <= t < input.steps ==> (input.plus)(
                a.flow(u)[t],
                a.flow(v)[t],
            ) == (input.plus)(a.flow(v)[t], a.flow(u)[t]),
        input.routed(id),
    ensures
        same_results((a.results)(id), (b.results)(id)),
    decreases order(id),
{
    let all = input.contributors(id);
    let (adds_a, adds_b) = ((a.added)(id), (b.added)(id));
    assert(a.collected(input, id) && b.collected(input, id));
    assert forall|u: u32| #[trigger] adds_a.contains(u) <==> all.contains(u) by {
        law_inflow_is_complete(input, a, id, u);
    }
    assert forall|u: u32| #[trigger] adds_b.contains(u) <==> all.contains(u) by {
        law_inflow_is_complete(input, b, id, u);
    }
    lemma_two_orders(adds_a, adds_b, all);
    assert forall|u: u32| #[trigger] all.contains(u) implies a.flow(u) == b.flow(u) by {
        assert(input.net.contains(u) && input.net.contains(input.net.downstream[u]));
        law_neither_workers_nor_order_show(input, a, b, order, u);
    }
    let (flows_a, flows_b) = (a.added_flows(id), b.added_flows(id));
    assert forall|t: int| 0 <= t < input.steps implies summed(input.plus, flows_a, t, input.zero)
        == #[trigger] summed(input.plus, flows_b, t, input.zero) by {
        reveal_with_fuel(summed, 3);
        if adds_a.len() == 1 {
            assert(adds_a.contains(adds_a[0]));
            assert(flows_a[0] == flows_b[0]);
            assert(flows_a =~= flows_b);
        } else if adds_a.len() == 2 {
            let (u, v) = (adds_a[0], adds_a[1]);
            assert(adds_a.contains(u) && adds_a.contains(v));
            assert(all.contains(u) && all.contains(v));
            assert(flows_a[0] == a.flow(u) && flows_a[1] == a.flow(v));
            assert(flows_a.drop_last() =~= seq![a.flow(u)]);
            assert(seq![a.flow(u)].drop_last() =~= Seq::<Seq<T>>::empty());
            if adds_a == adds_b {
                assert(flows_b[0] == flows_a[0] && flows_b[1] == flows_a[1]);
                assert(flows_a =~= flows_b);
            } else {
                assert(flows_b[0] == a.flow(v) && flows_b[1] == a.flow(u));
                assert(flows_b.drop_last() =~= seq![a.flow(v)]);
                assert(seq![a.flow(v)].drop_last() =~= Seq::<Seq<T>>::empty());
                assert((input.plus)(input.zero, a.flow(u)[t]) == a.flow(u)[t]);
                assert((input.plus)(input.zero, a.flow(v)[t]) == a.flow(v)[t]);
                assert((input.plus)(a.flow(u)[t], a.flow(v)[t]) == (input.plus)(
                    a.flow(v)[t],
                    a.flow(u)[t],
                ));
            }
        } else {
            assert(flows_a =~= flows_b);
        }
    }
    assert(a.inflow(input, id) =~= b.inflow(input, id));
    lemma_routes_once(
        input,
        id,
        a.inflow(input, id),
        (a.results)(id),
        (b.results)(id),
    );
}

} // verus!
