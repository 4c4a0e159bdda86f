//! What holds of every routed hydrograph, whichever kernel computed it.

use crate::config::ChannelParams;
use crate::io::results::SimulationResults;
use crate::kernel::muskingum::rs_route::lane_laws::{law_a_lane_steps_alone, LaneRules};
use crate::kernel::muskingum::rs_route::mc_kernel_simd::{
    laid_out, lane_index, lane_input, no_flows, stepped, still, LaneArithmetic, LaneFlows, LaneInput,
    LaneParams, LaneResult, LaneValues, ReachParams, StepFlows, LANES,
};
use crate::kernel::muskingum::{MuskingumCungeInput, MuskingumCungeResult};
use crate::routing::node::{
    answers, at_or_zero, batch_flows, batch_params, in_lockstep, inflow_added, kernel_input, or_zeros,
    routed_by, routed_together, steps_to, NodeWork, PreparedNode,
};
use vstd::prelude::*;

verus! {

/// Every entry is `rule` of what its timestep starts from.
pub open spec fn follows<T>(
    rule: spec_fn(StepFlows<T>) -> MuskingumCungeResult<T>,
    work: NodeWork<T>,
    zero: T,
    results: SimulationResults<T>,
) -> bool {
    forall|t: int|
        #![trigger results.at(t)]
        0 <= t < results.flow_data@.len() ==> results.at(t) == rule(
            work.step_flows(results.flow_data@, results.depth_data@, t, zero),
        )
}

/// The kernel is a function of its input.
pub open spec fn computes<T, K: Fn(MuskingumCungeInput<T>) -> MuskingumCungeResult<T>>(
    kernel: K,
    rule: spec_fn(MuskingumCungeInput<T>) -> MuskingumCungeResult<T>,
) -> bool {
    forall|input: MuskingumCungeInput<T>, result: MuskingumCungeResult<T>| #[trigger]
        call_ensures(kernel, (input,), result) ==> result == rule(input)
}

/// The reach constants are a function of the channel geometry.
pub open spec fn derives<T, D: Fn(ChannelParams<T>) -> ReachParams<T>>(
    derive: D,
    rule: spec_fn(ChannelParams<T>) -> ReachParams<T>,
) -> bool {
    forall|p: ChannelParams<T>, r: ReachParams<T>| #[trigger]
        call_ensures(derive, (p,), r) ==> r == rule(p)
}

/// The scalar kernel on one channel, as a rule over flows.
pub open spec fn scalar_rule<T>(
    rule: spec_fn(MuskingumCungeInput<T>) -> MuskingumCungeResult<T>,
    dt: T,
    channel: ChannelParams<T>,
    s0: T,
    zero: T,
) -> spec_fn(StepFlows<T>) -> MuskingumCungeResult<T> {
    |flows: StepFlows<T>| rule(kernel_input(dt, channel, s0, flows, zero))
}

/// One lane of the lane kernel on one channel, as a rule over flows.
pub open spec fn lane_rule<T>(
    rules: LaneRules<T>,
    reach: spec_fn(ChannelParams<T>) -> ReachParams<T>,
    dt: T,
    channel: ChannelParams<T>,
    zero: T,
) -> spec_fn(StepFlows<T>) -> MuskingumCungeResult<T> {
    |flows: StepFlows<T>| rules.lane_step(LaneInput { reach: reach(channel), dt, flows }, zero)
}

/// Scalar routing follows its kernel.
pub proof fn law_scalar_routing_follows_its_kernel<
    T,
    K: Fn(MuskingumCungeInput<T>) -> MuskingumCungeResult<T>,
>(
    kernel: K,
    rule: spec_fn(MuskingumCungeInput<T>) -> MuskingumCungeResult<T>,
    dt: T,
    channel: ChannelParams<T>,
    s0: T,
    work: NodeWork<T>,
    zero: T,
    results: SimulationResults<T>,
)
    requires
        computes(kernel, rule),
        routed_by(kernel, dt, channel, s0, work, zero, results),
    ensures
        follows(scalar_rule(rule, dt, channel, s0, zero), work, zero, results),
{
}

/// A node routed in a batch follows the lane kernel on its own channel and its own inflows:
/// which other nodes share the batch makes no difference.
pub proof fn law_batch_members_do_not_mix<
    T,
    D: Fn(ChannelParams<T>) -> ReachParams<T>,
    B: Fn(T) -> (T, T),
    N: Fn(T) -> bool,
    A: Fn(LaneInput<T>, LaneValues<T>) -> (LaneValues<T>, bool),
    G: Fn(LaneInput<T>, LaneValues<T>) -> MuskingumCungeResult<T>,
>(
    derive: D,
    arithmetic: LaneArithmetic<B, N, A, G>,
    reach: spec_fn(ChannelParams<T>) -> ReachParams<T>,
    rules: LaneRules<T>,
    dt: T,
    batch: Seq<PreparedNode<T>>,
    results: Seq<SimulationResults<T>>,
    steps: nat,
    zero: T,
    i: int,
)
    requires
        derives(derive, reach),
        rules.describe(arithmetic),
        answers(batch, results, steps),
        routed_together(derive, arithmetic, dt, batch, results, steps, zero),
        0 <= i < batch.len() <= LANES,
    ensures
        follows(
            lane_rule(rules, reach, dt, batch[i].params, zero),
            batch[i].work,
            zero,
            results[i],
        ),
{
    let (lanes, ins, outs) = choose|
        lanes: LaneParams<T>,
        ins: Seq<LaneFlows<T>>,
        outs: Seq<LaneResult<T>>,
    |
        laid_out(derive, dt, batch_params(batch), lanes) && #[trigger] in_lockstep(
            arithmetic,
            lanes,
            batch,
            results,
            steps,
            zero,
            ins,
            outs,
        );
    assert(lane_index(i));
    assert(results[i].covers(steps));
    assert(lanes.lane(i) == reach(batch[i].params));
    let rule = lane_rule(rules, reach, dt, batch[i].params, zero);
    assert forall|t: int|
        #![trigger results[i].at(t)]
        0 <= t < results[i].flow_data@.len() implies results[i].at(t) == rule(
        batch[i].work.step_flows(results[i].flow_data@, results[i].depth_data@, t, zero),
    ) by {
        assert(steps_to(arithmetic, lanes, ins[t], zero, outs[t]));
        let iterations = choose|iterations: int|
            stepped(arithmetic, lanes, ins[t], zero, outs[t], iterations);
        law_a_lane_steps_alone(
            rules,
            arithmetic,
            lanes,
            ins[t],
            zero,
            outs[t],
            iterations,
            i,
        );
        assert(ins[t].lane(i) == batch_flows(batch, results, t, i, zero));
        assert(lane_input(lanes, ins[t], i).flows == ins[t].lane(i));
    }
}

/// The two nodes are given the same flows up to and including timestep `t`.
pub open spec fn same_inputs_until<T>(a: NodeWork<T>, b: NodeWork<T>, t: int, zero: T) -> bool {
    forall|u: int|
        #![trigger at_or_zero(a.inflow@, u, zero)]
        0 <= u <= t ==> {
            &&& at_or_zero(a.inflow@, u, zero) == at_or_zero(b.inflow@, u, zero)
            &&& at_or_zero(a.external@, u / a.upsampling as int, zero) == at_or_zero(
                b.external@,
                u / b.upsampling as int,
                zero,
            )
        }
}

/// Routing is causal and has one answer: results up to a timestep depend on nothing but the
/// rule and the inflows up to that timestep.
pub proof fn law_routing_is_causal<T>(
    rule_a: spec_fn(StepFlows<T>) -> MuskingumCungeResult<T>,
    rule_b: spec_fn(StepFlows<T>) -> MuskingumCungeResult<T>,
    work_a: NodeWork<T>,
    work_b: NodeWork<T>,
    zero: T,
    results_a: SimulationResults<T>,
    results_b: SimulationResults<T>,
    t: int,
)
    requires
        forall|flows: StepFlows<T>| #[trigger] rule_a(flows) == rule_b(flows),
        follows(rule_a, work_a, zero, results_a),
        follows(rule_b, work_b, zero, results_b),
        results_a.covers(results_a.flow_data@.len()),
        results_b.covers(results_b.flow_data@.len()),
        0 <= t < results_a.flow_data@.len(),
        t < results_b.flow_data@.len(),
        same_inputs_until(work_a, work_b, t, zero),
    ensures
        results_a.at(t) == results_b.at(t),
    decreases t,
{
    if t > 0 {
        assert(same_inputs_until(work_a, work_b, t - 1, zero));
        law_routing_is_causal(
            rule_a,
            rule_b,
            work_a,
            work_b,
            zero,
            results_a,
            results_b,
            t - 1,
        );
        assert(at_or_zero(work_a.inflow@, t - 1, zero) == at_or_zero(work_b.inflow@, t - 1, zero));
    }
    let flows_a = work_a.step_flows(results_a.flow_data@, results_a.depth_data@, t, zero);
    let flows_b = work_b.step_flows(results_b.flow_data@, results_b.depth_data@, t, zero);
    assert(at_or_zero(work_a.inflow@, t, zero) == at_or_zero(work_b.inflow@, t, zero));
    assert(flows_a == flows_b);
    assert(rule_a(flows_a) == rule_b(flows_a));
}

/// Neither the other nodes of a batch nor the place in it matter: a node routed in a batch gets
/// the hydrograph it gets as a batch of its own.
pub proof fn law_batch_mates_and_position_do_not_matter<
    T,
    D: Fn(ChannelParams<T>) -> ReachParams<T>,
    B: Fn(T) -> (T, T),
    N: Fn(T) -> bool,
    A: Fn(LaneInput<T>, LaneValues<T>) -> (LaneValues<T>, bool),
    G: Fn(LaneInput<T>, LaneValues<T>) -> MuskingumCungeResult<T>,
>(
    derive: D,
    arithmetic: LaneArithmetic<B, N, A, G>,
    reach: spec_fn(ChannelParams<T>) -> ReachParams<T>,
    rules: LaneRules<T>,
    dt: T,
    batch: Seq<PreparedNode<T>>,
    results: Seq<SimulationResults<T>>,
    own: Seq<SimulationResults<T>>,
    steps: nat,
    zero: T,
    k: int,
)
    requires
        derives(derive, reach),
        rules.describe(arithmetic),
        0 <= k < batch.len() <= LANES,
        answers(batch, results, steps),
        routed_together(derive, arithmetic, dt, batch, results, steps, zero),
        answers(batch.subrange(k, k + 1), own, steps),
        routed_together(derive, arithmetic, dt, batch.subrange(k, k + 1), own, steps, zero),
    ensures
        results[k].feature_id == own[0].feature_id,
        results[k].flow_data@ == own[0].flow_data@,
        results[k].velocity_data@ == own[0].velocity_data@,
        results[k].depth_data@ == own[0].depth_data@,
{
    let alone = batch.subrange(k, k + 1);
    let rule = lane_rule(rules, reach, dt, batch[k].params, zero);
    assert(alone[0] == batch[k]);
    law_batch_members_do_not_mix(
        derive,
        arithmetic,
        reach,
        rules,
        dt,
        batch,
        results,
        steps,
        zero,
        k,
    );
    law_batch_members_do_not_mix(derive, arithmetic, reach, rules, dt, alone, own, steps, zero, 0);
    assert(results[k].covers(steps));
    assert(own[0].covers(steps));
    assert forall|t: int| 0 <= t < steps implies #[trigger] results[k].at(t) == own[0].at(t) by {
        law_routing_is_causal(
            rule,
            rule,
            batch[k].work,
            batch[k].work,
            zero,
            results[k],
            own[0],
            t,
        );
    }
    lemma_same_series(results[k], own[0], steps);
}

/// Series that agree at every timestep are the same.
pub(crate) proof fn lemma_same_series<T>(a: SimulationResults<T>, b: SimulationResults<T>, steps: nat)
    requires
        a.covers(steps),
        b.covers(steps),
        forall|t: int| 0 <= t < steps ==> #[trigger] a.at(t) == b.at(t),
    ensures
        a.flow_data@ == b.flow_data@,
        a.velocity_data@ == b.velocity_data@,
        a.depth_data@ == b.depth_data@,
{
    assert forall|t: int| 0 <= t < steps implies a.flow_data@[t] == b.flow_data@[t]
        && a.velocity_data@[t] == b.velocity_data@[t] && a.depth_data@[t] == b.depth_data@[t] by {
        assert(a.at(t) == b.at(t));
    }
    assert(a.flow_data@ =~= b.flow_data@);
    assert(a.velocity_data@ =~= b.velocity_data@);
    assert(a.depth_data@ =~= b.depth_data@);
}

/// A node of a batch without any inflow gets all zeros.
pub proof fn law_batch_member_without_inflow_routes_to_zeros<
    T,
    D: Fn(ChannelParams<T>) -> ReachParams<T>,
    B: Fn(T) -> (T, T),
    N: Fn(T) -> bool,
    A: Fn(LaneInput<T>, LaneValues<T>) -> (LaneValues<T>, bool),
    G: Fn(LaneInput<T>, LaneValues<T>) -> MuskingumCungeResult<T>,
>(
    derive: D,
    arithmetic: LaneArithmetic<B, N, A, G>,
    reach: spec_fn(ChannelParams<T>) -> ReachParams<T>,
    rules: LaneRules<T>,
    dt: T,
    batch: Seq<PreparedNode<T>>,
    results: Seq<SimulationResults<T>>,
    steps: nat,
    zero: T,
    k: int,
    t: int,
)
    requires
        derives(derive, reach),
        rules.describe(arithmetic),
        (rules.absent)(zero),
        0 <= k < batch.len() <= LANES,
        answers(batch, results, steps),
        routed_together(derive, arithmetic, dt, batch, results, steps, zero),
        forall|u: int|
            0 <= u < batch[k].work.inflow@.len() ==> #[trigger] batch[k].work.inflow@[u] == zero,
        forall|u: int|
            0 <= u < batch[k].work.external@.len() ==> #[trigger] batch[k].work.external@[u]
                == zero,
        0 <= t < steps,
    ensures
        results[k].at(t) == still(zero),
{
    law_batch_members_do_not_mix(
        derive,
        arithmetic,
        reach,
        rules,
        dt,
        batch,
        results,
        steps,
        zero,
        k,
    );
    assert(results[k].covers(steps));
    law_no_inflow_routes_to_zeros(
        lane_rule(rules, reach, dt, batch[k].params, zero),
        batch[k].work,
        zero,
        results[k],
        t,
    );
}

/// Where the lane kernel computes what the scalar kernel computes, a node routed in a batch
/// gets the hydrograph it gets when routed alone.
pub proof fn law_batch_routing_matches_scalar_routing<
    T,
    K: Fn(MuskingumCungeInput<T>) -> MuskingumCungeResult<T>,
    D: Fn(ChannelParams<T>) -> ReachParams<T>,
    B: Fn(T) -> (T, T),
    N: Fn(T) -> bool,
    A: Fn(LaneInput<T>, LaneValues<T>) -> (LaneValues<T>, bool),
    G: Fn(LaneInput<T>, LaneValues<T>) -> MuskingumCungeResult<T>,
>(
    kernel: K,
    derive: D,
    arithmetic: LaneArithmetic<B, N, A, G>,
    scalar: spec_fn(MuskingumCungeInput<T>) -> MuskingumCungeResult<T>,
    reach: spec_fn(ChannelParams<T>) -> ReachParams<T>,
    rules: LaneRules<T>,
    dt: T,
    s0: T,
    batch: Seq<PreparedNode<T>>,
    batch_results: Seq<SimulationResults<T>>,
    steps: nat,
    zero: T,
    i: int,
    alone: SimulationResults<T>,
    t: int,
)
    requires
        computes(kernel, scalar),
        derives(derive, reach),
        rules.describe(arithmetic),
        0 <= i < batch.len() <= LANES,
        forall|flows: StepFlows<T>| #[trigger]
            lane_rule(rules, reach, dt, batch[i].params, zero)(flows) == scalar(
                kernel_input(dt, batch[i].params, s0, flows, zero),
            ),
        answers(batch, batch_results, steps),
        routed_together(derive, arithmetic, dt, batch, batch_results, steps, zero),
        alone.covers(steps),
        routed_by(kernel, dt, batch[i].params, s0, batch[i].work, zero, alone),
        0 <= t < steps,
    ensures
        batch_results[i].at(t) == alone.at(t),
{
    let rule_a = lane_rule(rules, reach, dt, batch[i].params, zero);
    let rule_b = scalar_rule(scalar, dt, batch[i].params, s0, zero);
    law_batch_members_do_not_mix(
        derive,
        arithmetic,
        reach,
        rules,
        dt,
        batch,
        batch_results,
        steps,
        zero,
        i,
    );
    law_scalar_routing_follows_its_kernel(
        kernel,
        scalar,
        dt,
        batch[i].params,
        s0,
        batch[i].work,
        zero,
        alone,
    );
    assert(batch_results[i].covers(steps));
    law_routing_is_causal(
        rule_a,
        rule_b,
        batch[i].work,
        batch[i].work,
        zero,
        batch_results[i],
        alone,
        t,
    );
}

/// Without inflow a reach routes to zeros, for every kernel that answers no flow with none: the
/// shortcut taken for nodes without any inflow agrees with routing them.
pub proof fn law_no_inflow_routes_to_zeros<T>(
    rule: spec_fn(StepFlows<T>) -> MuskingumCungeResult<T>,
    work: NodeWork<T>,
    zero: T,
    results: SimulationResults<T>,
    t: int,
)
    requires
        rule(no_flows(zero)) == still(zero),
        forall|u: int| 0 <= u < work.inflow@.len() ==> #[trigger] work.inflow@[u] == zero,
        forall|u: int| 0 <= u < work.external@.len() ==> #[trigger] work.external@[u] == zero,
        results.covers(results.flow_data@.len()),
        follows(rule, work, zero, results),
        0 <= t < results.flow_data@.len(),
    ensures
        results.at(t) == still(zero),
    decreases t,
{
    if t > 0 {
        law_no_inflow_routes_to_zeros(rule, work, zero, results, t - 1);
    }
    assert(work.step_flows(results.flow_data@, results.depth_data@, t, zero) == no_flows(zero));
}

/// The hydrographs added up, entry by entry, in the order they came.
pub open spec fn summed<T>(plus: spec_fn(T, T) -> T, flows: Seq<Seq<T>>, t: int, zero: T) -> T
    decreases flows.len(),
{
    if flows.len() == 0 {
        zero
    } else {
        plus(summed(plus, flows.drop_last(), t, zero), flows.last()[t])
    }
}

/// `buffers[k]` is an inflow buffer that was empty at first, after `k` hydrographs were added.
pub open spec fn fills<T, P: Fn(T, T) -> T>(
    plus: P,
    flows: Seq<Seq<T>>,
    zero: T,
    buffers: Seq<Seq<T>>,
) -> bool {
    &&& buffers.len() == flows.len() + 1
    &&& buffers[0].len() == 0
    &&& forall|k: int|
        #![trigger flows[k]]
        0 <= k < flows.len() ==> inflow_added(plus, buffers[k], flows[k], zero, buffers[k + 1])
}

/// A node's inflow buffer holds, timestep by timestep, the sum of the flows of the nodes that
/// drain into it: each of them counted once, none left out.
pub proof fn law_inflow_is_the_sum_of_upstream_flows<T, P: Fn(T, T) -> T>(
    plus: P,
    rule: spec_fn(T, T) -> T,
    flows: Seq<Seq<T>>,
    zero: T,
    buffers: Seq<Seq<T>>,
    steps: nat,
    t: int,
)
    requires
        forall|a: T, b: T, c: T| #[trigger] call_ensures(plus, (a, b), c) ==> c == rule(a, b),
        fills(plus, flows, zero, buffers),
        flows.len() > 0,
        forall|k: int| 0 <= k < flows.len() ==> (#[trigger] flows[k]).len() == steps,
        0 <= t < steps,
    ensures
        buffers.last().len() == steps,
        buffers.last()[t] == summed(rule, flows, t, zero),
    decreases flows.len(),
{
    let last = flows.len() - 1;
    let before = flows.drop_last();
    let added = flows[last];
    let sum = buffers[last + 1];
    assert(inflow_added(plus, buffers[last], added, zero, sum));
    if last > 0 {
        let earlier = buffers.drop_last();
        assert forall|k: int| #![trigger before[k]] 0 <= k < before.len() implies inflow_added(
            plus,
            earlier[k],
            before[k],
            zero,
            earlier[k + 1],
        ) by {
            assert(flows[k] == before[k]);
        }
        law_inflow_is_the_sum_of_upstream_flows(plus, rule, before, zero, earlier, steps, t);
    } else {
        assert(summed(rule, before, t, zero) == zero);
    }
    let entry = sum[t];
    assert(call_ensures(
        plus,
        (or_zeros(buffers[last], steps, zero)[t], added[t]),
        entry,
    ));
}

/// Two hydrographs may reach an empty inflow buffer in either order: both ways it holds their sum,
/// entry by entry, wherever that sum does not depend on the order and adding to nothing changes
/// nothing.
pub proof fn law_two_inflows_may_come_in_either_order<T, P: Fn(T, T) -> T>(
    plus: P,
    rule: spec_fn(T, T) -> T,
    a: Seq<T>,
    b: Seq<T>,
    zero: T,
    only_a: Seq<T>,
    a_then_b: Seq<T>,
    only_b: Seq<T>,
    b_then_a: Seq<T>,
)
    requires
        forall|x: T, y: T, z: T| #[trigger] call_ensures(plus, (x, y), z) ==> z == rule(x, y),
        a.len() == b.len(),
        forall|t: int|
            #![trigger a[t]]
            #![trigger b[t]]
            0 <= t < a.len() ==> {
                &&& rule(zero, a[t]) == a[t]
                &&& rule(zero, b[t]) == b[t]
                &&& rule(a[t], b[t]) == rule(b[t], a[t])
            },
        inflow_added(plus, Seq::empty(), a, zero, only_a),
        inflow_added(plus, only_a, b, zero, a_then_b),
        inflow_added(plus, Seq::empty(), b, zero, only_b),
        inflow_added(plus, only_b, a, zero, b_then_a),
    ensures
        a_then_b == b_then_a,
        a_then_b.len() == a.len(),
        forall|t: int| 0 <= t < a.len() ==> #[trigger] a_then_b[t] == rule(a[t], b[t]),
{
    assert forall|t: int| 0 <= t < a.len() implies only_a[t] == a[t] && only_b[t] == b[t] by {
        let (x, y) = (only_a[t], only_b[t]);
        assert(call_ensures(plus, (or_zeros(Seq::empty(), a.len(), zero)[t], a[t]), x));
        assert(call_ensures(plus, (or_zeros(Seq::empty(), b.len(), zero)[t], b[t]), y));
    }
    assert(only_a =~= a);
    assert(only_b =~= b);
    assert forall|t: int| 0 <= t < a.len() implies #[trigger] a_then_b[t] == rule(a[t], b[t])
        && b_then_a[t] == rule(a[t], b[t]) by {
        let y = b_then_a[t];
        assert(call_ensures(plus, (a[t], b[t]), a_then_b[t]));
        assert(call_ensures(plus, (b[t], a[t]), y));
    }
    assert(a_then_b =~= b_then_a);
}

} // verus!
