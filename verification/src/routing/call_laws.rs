//! What each kernel call of a run is given, number by number.

use crate::config::ChannelParams;
use crate::io::results::SimulationResults;
use crate::kernel::muskingum::rs_route::lane_laws::LaneRules;
use crate::kernel::muskingum::rs_route::mc_kernel_simd::{
    laid_out, lane_index, stepped, LaneArithmetic, LaneFlows, LaneInput, LaneParams, LaneResult,
    LaneValues, ReachParams, StepFlows,
};
use crate::kernel::muskingum::rs_route::step_laws::{
    in_lane, law_a_lane_with_any_flow_is_solved, law_each_constant_stands_in_its_place,
    timestep_gives,
};
use crate::kernel::muskingum::{MuskingumCungeInput, MuskingumCungeResult};
use crate::routing::clock_laws::law_forcing_keeps_time;
use crate::routing::node::{
    answers, batch_flows, batch_params, in_lockstep, kernel_input, routed_alone, routed_by,
    routed_together, settled, steps_to, NodeWork, PreparedNode,
};
use crate::routing::turn_laws::{
    law_a_node_goes_where_its_outcome_sends_it, law_lanes_take_sixteen_at_a_time,
};
use crate::routing::worker::{
    chunk, plan_made, plan_routed, planned, resolved, BatchPlan, Inputs, NodeOutcome,
};
use vstd::prelude::*;

verus! {

/// The entry of a series at `t`, zero before its start and past its end.
pub open spec fn value_at<T>(series: Seq<T>, t: int, zero: T) -> T {
    if t < 0 || t >= series.len() {
        zero
    } else {
        series[t]
    }
}

/// A scalar kernel call at timestep `t`: the channel field by field with its bed slope floored to
/// `s0`, the upstream flow now and before, the node's own flow and depth before, and the lateral
/// inflow `ql`.
pub open spec fn scalar_call<T>(
    dt: T,
    channel: ChannelParams<T>,
    s0: T,
    inflow: Seq<T>,
    ql: T,
    results: SimulationResults<T>,
    t: int,
    zero: T,
) -> MuskingumCungeInput<T> {
    MuskingumCungeInput {
        dt: dt,
        dx: channel.dx,
        n: channel.n,
        n_cc: channel.ncc,
        s0: s0,
        bw: channel.bw,
        tw: channel.tw,
        tw_cc: channel.twcc,
        cs: channel.cs,
        ql: ql,
        quc: value_at(inflow, t, zero),
        qup: value_at(inflow, t - 1, zero),
        qdp: value_at(results.flow_data@, t - 1, zero),
        depthp: value_at(results.depth_data@, t - 1, zero),
        velp: zero,
    }
}

/// Each scalar kernel call carries the node's channel geometry, field by field, each in its own
/// place, with the bed slope as the floor gives it; the flows and the depth that the timestep
/// before left; and what comes out of the call is recorded at its timestep, flow, velocity and
/// depth each in its own series.
pub proof fn law_scalar_calls_carry_the_channel<
    T,
    F: Fn(T) -> T,
    K: Fn(MuskingumCungeInput<T>) -> MuskingumCungeResult<T>,
>(
    floor_slope: F,
    kernel: K,
    dt: T,
    channel: ChannelParams<T>,
    work: NodeWork<T>,
    zero: T,
    results: SimulationResults<T>,
)
    requires
        work.upsampling > 0,
        routed_alone(floor_slope, kernel, dt, channel, work, zero, results),
    ensures
        exists|s0: T| #[trigger]
            call_ensures(floor_slope, (channel.s0,), s0) && forall|t: int|
                #![trigger results.flow_data@[t]]
                0 <= t < results.flow_data@.len() ==> call_ensures(
                    kernel,
                    (
                        scalar_call(
                            dt,
                            channel,
                            s0,
                            work.inflow@,
                            value_at(work.external@, t / work.upsampling as int, zero),
                            results,
                            t,
                            zero,
                        ),
                    ),
                    MuskingumCungeResult {
                        qdc: results.flow_data@[t],
                        velc: results.velocity_data@[t],
                        depthc: results.depth_data@[t],
                    },
                ),
{
    let s0 = choose|s0: T| #[trigger]
        call_ensures(floor_slope, (channel.s0,), s0) && routed_by(
            kernel,
            dt,
            channel,
            s0,
            work,
            zero,
            results,
        );
    assert forall|t: int| #![trigger results.flow_data@[t]]
        0 <= t < results.flow_data@.len() implies call_ensures(
        kernel,
        (
            scalar_call(
                dt,
                channel,
                s0,
                work.inflow@,
                value_at(work.external@, t / work.upsampling as int, zero),
                results,
                t,
                zero,
            ),
        ),
        MuskingumCungeResult {
            qdc: results.flow_data@[t],
            velc: results.velocity_data@[t],
            depthc: results.depth_data@[t],
        },
    ) by {
        let flows = work.step_flows(results.flow_data@, results.depth_data@, t, zero);
        assert(call_ensures(
            kernel,
            (kernel_input(dt, channel, s0, flows, zero),),
            results.at(t),
        ));
        assert(kernel_input(dt, channel, s0, flows, zero) == scalar_call(
            dt,
            channel,
            s0,
            work.inflow@,
            value_at(work.external@, t / work.upsampling as int, zero),
            results,
            t,
            zero,
        ));
    }
}

/// In a run of `hours` forcing hours, the lateral inflow that the scalar kernel is called with at
/// internal timestep `t` is the forcing of the hour that `t` timesteps of `seconds` seconds end up
/// in, counted from 0.
pub proof fn law_scalar_calls_take_the_forcing_of_their_hour<
    T,
    F: Fn(T) -> T,
    K: Fn(MuskingumCungeInput<T>) -> MuskingumCungeResult<T>,
>(
    floor_slope: F,
    kernel: K,
    dt: T,
    seconds: usize,
    hours: nat,
    channel: ChannelParams<T>,
    inflow: Seq<T>,
    forcing: Seq<T>,
    work: NodeWork<T>,
    zero: T,
    results: SimulationResults<T>,
)
    requires
        0 < seconds <= 3600,
        3600int % (seconds as int) == 0,
        hours >= 1,
        forcing.len() == hours + 1,
        results.flow_data@.len() == hours * (3600int / (seconds as int)),
        settled(inflow, forcing, results.flow_data@.len(), zero, work),
        routed_alone(floor_slope, kernel, dt, channel, work, zero, results),
    ensures
        exists|s0: T| #[trigger]
            call_ensures(floor_slope, (channel.s0,), s0) && forall|t: int|
                #![trigger results.flow_data@[t]]
                0 <= t < results.flow_data@.len() ==> call_ensures(
                    kernel,
                    (
                        scalar_call(
                            dt,
                            channel,
                            s0,
                            inflow,
                            forcing[(t * seconds) / 3600],
                            results,
                            t,
                            zero,
                        ),
                    ),
                    MuskingumCungeResult {
                        qdc: results.flow_data@[t],
                        velc: results.velocity_data@[t],
                        depthc: results.depth_data@[t],
                    },
                ),
{
    law_forcing_keeps_time(seconds, hours, 0);
    law_scalar_calls_carry_the_channel(floor_slope, kernel, dt, channel, work, zero, results);
    let s0 = choose|s0: T| #[trigger]
        call_ensures(floor_slope, (channel.s0,), s0) && forall|t: int|
            #![trigger results.flow_data@[t]]
            0 <= t < results.flow_data@.len() ==> call_ensures(
                kernel,
                (
                    scalar_call(
                        dt,
                        channel,
                        s0,
                        work.inflow@,
                        value_at(work.external@, t / work.upsampling as int, zero),
                        results,
                        t,
                        zero,
                    ),
                ),
                MuskingumCungeResult {
                    qdc: results.flow_data@[t],
                    velc: results.velocity_data@[t],
                    depthc: results.depth_data@[t],
                },
            );
    assert forall|t: int| #![trigger results.flow_data@[t]]
        0 <= t < results.flow_data@.len() implies call_ensures(
        kernel,
        (
            scalar_call(
                dt,
                channel,
                s0,
                inflow,
                forcing[(t * seconds) / 3600],
                results,
                t,
                zero,
            ),
        ),
        MuskingumCungeResult {
            qdc: results.flow_data@[t],
            velc: results.velocity_data@[t],
            depthc: results.depth_data@[t],
        },
    ) by {
        lemma_hour_of(seconds, hours, inflow, forcing, work, zero, results.flow_data@.len(), t);
        assert(scalar_call(
            dt,
            channel,
            s0,
            work.inflow@,
            value_at(work.external@, t / work.upsampling as int, zero),
            results,
            t,
            zero,
        ) == scalar_call(
            dt,
            channel,
            s0,
            inflow,
            forcing[(t * seconds) / 3600],
            results,
            t,
            zero,
        ));
    }
}

/// The settled series at timestep `t`.
proof fn lemma_hour_of<T>(
    seconds: usize,
    hours: nat,
    inflow: Seq<T>,
    forcing: Seq<T>,
    work: NodeWork<T>,
    zero: T,
    steps: nat,
    t: int,
)
    requires
        0 < seconds <= 3600,
        3600int % (seconds as int) == 0,
        hours >= 1,
        forcing.len() == hours + 1,
        steps == hours * (3600int / (seconds as int)),
        settled(inflow, forcing, steps, zero, work),
        0 <= t < steps,
    ensures
        work.upsampling > 0,
        0 <= (t * seconds) / 3600 < forcing.len(),
        value_at(work.external@, t / work.upsampling as int, zero) == forcing[(t * seconds)
            / 3600],
        value_at(work.inflow@, t, zero) == value_at(inflow, t, zero),
        value_at(work.inflow@, t - 1, zero) == value_at(inflow, t - 1, zero),
{
    law_forcing_keeps_time(seconds, hours, t as nat);
    let per_hour = 3600int / (seconds as int);
    assert(t / per_hour < hours) by (nonlinear_arith)
        requires
            0 <= t < hours * per_hour,
            per_hour > 0,
    ;
    assert(t / per_hour >= 0) by (nonlinear_arith)
        requires
            0 <= t,
            per_hour > 0,
    ;
}

/// Each timestep of a node routed in a batch is one timestep of the lane kernel on the node's own
/// channel, with the flows and the depth that the node's own timestep before left and its own
/// upstream and lateral inflow; flow, velocity and depth are recorded each in its own series.
pub proof fn law_batch_steps_carry_their_own_node<
    T,
    D: Fn(ChannelParams<T>) -> ReachParams<T>,
    B: Fn(T) -> (T, T),
    N: Fn(T) -> bool,
    A: Fn(LaneInput<T>, LaneValues<T>) -> (LaneValues<T>, bool),
    G: Fn(LaneInput<T>, LaneValues<T>) -> MuskingumCungeResult<T>,
>(
    derive: D,
    arithmetic: LaneArithmetic<B, N, A, G>,
    reach: spec_fn(ChannelParams<T>) -> ReachParams<T>,
    rules: LaneRules<T>,
    dt: T,
    batch: Seq<PreparedNode<T>>,
    results: Seq<SimulationResults<T>>,
    steps: nat,
    zero: T,
    k: int,
    t: int,
)
    requires
        forall|p: ChannelParams<T>, r: ReachParams<T>| #[trigger]
            call_ensures(derive, (p,), r) ==> r == reach(p),
        rules.describe(arithmetic),
        answers(batch, results, steps),
        routed_together(derive, arithmetic, dt, batch, results, steps, zero),
        0 <= k < batch.len() <= 16,
        batch[k].work.upsampling > 0,
        0 <= t < steps,
    ensures
        results[k].feature_id == batch[k].node_id,
        results[k].flow_data@.len() == steps,
        results[k].velocity_data@.len() == steps,
        results[k].depth_data@.len() == steps,
        timestep_gives(
            rules,
            (LaneInput {
                reach: reach(batch[k].params),
                dt,
                flows: StepFlows {
                    qup: value_at(batch[k].work.inflow@, t - 1, zero),
                    quc: value_at(batch[k].work.inflow@, t, zero),
                    qdp: value_at(results[k].flow_data@, t - 1, zero),
                    ql: value_at(
                        batch[k].work.external@,
                        t / batch[k].work.upsampling as int,
                        zero,
                    ),
                    depthp: value_at(results[k].depth_data@, t - 1, zero),
                },
            }),
            zero,
            results[k].flow_data@[t],
            results[k].velocity_data@[t],
            results[k].depth_data@[t],
        ),
{
    let (lanes, ins, outs) = choose|
        lanes: LaneParams<T>,
        ins: Seq<LaneFlows<T>>,
        outs: Seq<LaneResult<T>>,
    |
        laid_out(derive, dt, batch_params(batch), lanes) && #[trigger] in_lockstep(
            arithmetic,
            lanes,
            batch,
            results,
            steps,
            zero,
            ins,
            outs,
        );
    assert(lane_index(k));
    assert(results[k].covers(steps));
    assert(steps_to(arithmetic, lanes, ins[t], zero, outs[t]));
    let iterations = choose|iterations: int|
        stepped(arithmetic, lanes, ins[t], zero, outs[t], iterations);
    law_a_lane_with_any_flow_is_solved(
        rules,
        arithmetic,
        lanes,
        ins[t],
        zero,
        outs[t],
        iterations,
        k,
    );
    law_each_constant_stands_in_its_place(
        derive,
        reach,
        dt,
        batch_params(batch),
        lanes,
        k,
        ins[t],
    );
    assert(ins[t].lane(k) == batch_flows(batch, results, t, k, zero));
    assert(in_lane(lanes, ins[t], k).flows == ins[t].lane(k));
    assert(results[k].at(t) == outs[t].lane(k));
}

/// In a run of `hours` forcing hours, the lateral inflow that a node of a batch is stepped with at
/// internal timestep `t` is the forcing of the hour that `t` timesteps of `seconds` seconds end up
/// in, counted from 0.
pub proof fn law_batch_steps_take_the_forcing_of_their_hour<
    T,
    D: Fn(ChannelParams<T>) -> ReachParams<T>,
    B: Fn(T) -> (T, T),
    N: Fn(T) -> bool,
    A: Fn(LaneInput<T>, LaneValues<T>) -> (LaneValues<T>, bool),
    G: Fn(LaneInput<T>, LaneValues<T>) -> MuskingumCungeResult<T>,
>(
    derive: D,
    arithmetic: LaneArithmetic<B, N, A, G>,
    reach: spec_fn(ChannelParams<T>) -> ReachParams<T>,
    rules: LaneRules<T>,
    dt: T,
    seconds: usize,
    hours: nat,
    inflow: Seq<T>,
    forcing: Seq<T>,
    batch: Seq<PreparedNode<T>>,
    results: Seq<SimulationResults<T>>,
    steps: nat,
    zero: T,
    k: int,
    t: int,
)
    requires
        0 < seconds <= 3600,
        3600int % (seconds as int) == 0,
        hours >= 1,
        forcing.len() == hours + 1,
        steps == hours * (3600int / (seconds as int)),
        forall|p: ChannelParams<T>, r: ReachParams<T>| #[trigger]
            call_ensures(derive, (p,), r) ==> r == reach(p),
        rules.describe(arithmetic),
        answers(batch, results, steps),
        routed_together(derive, arithmetic, dt, batch, results, steps, zero),
        0 <= k < batch.len() <= 16,
        settled(inflow, forcing, steps, zero, batch[k].work),
        0 <= t < steps,
    ensures
        timestep_gives(
            rules,
            (LaneInput {
                reach: reach(batch[k].params),
                dt,
                flows: StepFlows {
                    qup: value_at(inflow, t - 1, zero),
                    quc: value_at(inflow, t, zero),
                    qdp: value_at(results[k].flow_data@, t - 1, zero),
                    ql: forcing[(t * seconds) / 3600],
                    depthp: value_at(results[k].depth_data@, t - 1, zero),
                },
            }),
            zero,
            results[k].flow_data@[t],
            results[k].velocity_data@[t],
            results[k].depth_data@[t],
        ),
{
    lemma_hour_of(seconds, hours, inflow, forcing, batch[k].work, zero, steps, t);
    law_batch_steps_carry_their_own_node(
        derive,
        arithmetic,
        reach,
        rules,
        dt,
        batch,
        results,
        steps,
        zero,
        k,
        t,
    );
}

/// The lanes past the last node of a batch are given no flow and no depth.
pub proof fn law_spare_lanes_stay_empty<
    T,
    B: Fn(T) -> (T, T),
    N: Fn(T) -> bool,
    A: Fn(LaneInput<T>, LaneValues<T>) -> (LaneValues<T>, bool),
    G: Fn(LaneInput<T>, LaneValues<T>) -> MuskingumCungeResult<T>,
>(
    arithmetic: LaneArithmetic<B, N, A, G>,
    lanes: LaneParams<T>,
    batch: Seq<PreparedNode<T>>,
    results: Seq<SimulationResults<T>>,
    steps: nat,
    zero: T,
    ins: Seq<LaneFlows<T>>,
    outs: Seq<LaneResult<T>>,
    t: int,
    i: int,
)
    requires
        in_lockstep(arithmetic, lanes, batch, results, steps, zero, ins, outs),
        0 <= t < steps,
        batch.len() <= i < 16,
    ensures
        ins[t].qup@[i] == zero,
        ins[t].quc@[i] == zero,
        ins[t].qdp@[i] == zero,
        ins[t].ql@[i] == zero,
        ins[t].depth_p@[i] == zero,
{
    assert(lane_index(i));
    assert(ins[t].lane(i) == batch_flows(batch, results, t, i, zero));
}

/// Routing a plan gives what was known without a kernel first, as it was, and then one result per
/// prepared node, in order. Under the lane kernel, whichever run of sixteen the node falls in, each
/// of its timesteps is one of the lane kernel on the node's own channel and inflow.
pub proof fn law_planned_nodes_go_through_the_lanes<
    T,
    F: Fn(T) -> T,
    K: Fn(MuskingumCungeInput<T>) -> MuskingumCungeResult<T>,
    D: Fn(ChannelParams<T>) -> ReachParams<T>,
    B: Fn(T) -> (T, T),
    N: Fn(T) -> bool,
    A: Fn(LaneInput<T>, LaneValues<T>) -> (LaneValues<T>, bool),
    G: Fn(LaneInput<T>, LaneValues<T>) -> MuskingumCungeResult<T>,
>(
    floor_slope: F,
    kernel: K,
    derive: D,
    arithmetic: LaneArithmetic<B, N, A, G>,
    reach: spec_fn(ChannelParams<T>) -> ReachParams<T>,
    rules: LaneRules<T>,
    plan: BatchPlan<T>,
    steps: nat,
    dt: T,
    zero: T,
    results: Seq<SimulationResults<T>>,
    i: int,
    t: int,
)
    requires
        forall|p: ChannelParams<T>, r: ReachParams<T>| #[trigger]
            call_ensures(derive, (p,), r) ==> r == reach(p),
        rules.describe(arithmetic),
        plan_routed(
            floor_slope,
            kernel,
            derive,
            arithmetic,
            plan,
            true,
            steps,
            dt,
            zero,
            results,
        ),
        0 <= i < plan.prepared@.len(),
        plan.prepared@[i].work.upsampling > 0,
        0 <= t < steps,
    ensures
        results.len() == plan.routed@.len() + plan.prepared@.len(),
        forall|j: int|
            #![trigger results[j]]
            0 <= j < plan.routed@.len() ==> results[j] == plan.routed@[j],
        ({
            let node = plan.prepared@[i];
            let own = results[plan.routed@.len() + i];
            &&& own.feature_id == node.node_id
            &&& own.flow_data@.len() == steps
            &&& own.velocity_data@.len() == steps
            &&& own.depth_data@.len() == steps
            &&& timestep_gives(
                rules,
                (LaneInput {
                    reach: reach(node.params),
                    dt,
                    flows: StepFlows {
                        qup: value_at(node.work.inflow@, t - 1, zero),
                        quc: value_at(node.work.inflow@, t, zero),
                        qdp: value_at(own.flow_data@, t - 1, zero),
                        ql: value_at(node.work.external@, t / node.work.upsampling as int, zero),
                        depthp: value_at(own.depth_data@, t - 1, zero),
                    },
                }),
                zero,
                own.flow_data@[t],
                own.velocity_data@[t],
                own.depth_data@[t],
            )
        }),
{
    let known = plan.routed@.len() as int;
    let routed = results.skip(known);
    let nodes = plan.prepared@;
    let c = i / 16;
    assert forall|j: int| #![trigger results[j]] 0 <= j < known implies results[j]
        == plan.routed@[j] by {
        assert(results.take(known)[j] == results[j]);
    }
    law_lanes_take_sixteen_at_a_time(nodes, i);
    law_lanes_take_sixteen_at_a_time(routed, i);
    let (batch, part) = (chunk(nodes, c), chunk(routed, c));
    assert(routed_together(derive, arithmetic, dt, batch, part, steps, zero));
    assert forall|j: int|
        #![trigger part[j]]
        0 <= j < batch.len() implies part[j].feature_id == batch[j].node_id && part[j].covers(
        steps,
    ) by {
        assert(part[j] == routed[c * 16 + j]);
        assert(batch[j] == nodes[c * 16 + j]);
    }
    assert(part[i % 16] == results[known + i]);
    law_batch_steps_carry_their_own_node(
        derive,
        arithmetic,
        reach,
        rules,
        dt,
        batch,
        part,
        steps,
        zero,
        i % 16,
        t,
    );
}

/// Under a scalar kernel, each prepared node of a plan is routed on its own, on its own channel and
/// inflow, and its result stands in its place after what was known without a kernel.
pub proof fn law_planned_nodes_go_through_the_scalar_kernel<
    T,
    F: Fn(T) -> T,
    K: Fn(MuskingumCungeInput<T>) -> MuskingumCungeResult<T>,
    D: Fn(ChannelParams<T>) -> ReachParams<T>,
    B: Fn(T) -> (T, T),
    N: Fn(T) -> bool,
    A: Fn(LaneInput<T>, LaneValues<T>) -> (LaneValues<T>, bool),
    G: Fn(LaneInput<T>, LaneValues<T>) -> MuskingumCungeResult<T>,
>(
    floor_slope: F,
    kernel: K,
    derive: D,
    arithmetic: LaneArithmetic<B, N, A, G>,
    plan: BatchPlan<T>,
    steps: nat,
    dt: T,
    zero: T,
    results: Seq<SimulationResults<T>>,
    i: int,
)
    requires
        plan_routed(
            floor_slope,
            kernel,
            derive,
            arithmetic,
            plan,
            false,
            steps,
            dt,
            zero,
            results,
        ),
        0 <= i < plan.prepared@.len(),
        plan.prepared@[i].work.upsampling > 0,
    ensures
        results.len() == plan.routed@.len() + plan.prepared@.len(),
        forall|j: int|
            #![trigger results[j]]
            0 <= j < plan.routed@.len() ==> results[j] == plan.routed@[j],
        ({
            let node = plan.prepared@[i];
            let own = results[plan.routed@.len() + i];
            &&& own.feature_id == node.node_id
            &&& own.flow_data@.len() == steps
            &&& own.velocity_data@.len() == steps
            &&& own.depth_data@.len() == steps
        }),
        exists|s0: T| #[trigger]
            call_ensures(floor_slope, (plan.prepared@[i].params.s0,), s0) && {
                let node = plan.prepared@[i];
                let own = results[plan.routed@.len() + i];
                forall|t: int|
                    #![trigger own.flow_data@[t]]
                    0 <= t < steps ==> call_ensures(
                        kernel,
                        (
                            scalar_call(
                                dt,
                                node.params,
                                s0,
                                node.work.inflow@,
                                value_at(
                                    node.work.external@,
                                    t / node.work.upsampling as int,
                                    zero,
                                ),
                                own,
                                t,
                                zero,
                            ),
                        ),
                        MuskingumCungeResult {
                            qdc: own.flow_data@[t],
                            velc: own.velocity_data@[t],
                            depthc: own.depth_data@[t],
                        },
                    )
            },
{
    let known = plan.routed@.len() as int;
    let routed = results.skip(known);
    let node = plan.prepared@[i];
    assert forall|j: int| #![trigger results[j]] 0 <= j < known implies results[j]
        == plan.routed@[j] by {
        assert(results.take(known)[j] == results[j]);
    }
    let own = routed[i];
    assert(own == results[known + i]);
    law_scalar_calls_carry_the_channel(
        floor_slope,
        kernel,
        dt,
        node.params,
        node.work,
        zero,
        own,
    );
}

/// What the plan of a single node holds: nothing where the node has no channel parameters; otherwise
/// exactly one of the node prepared with its own channel and the inputs found for it, its zeros
/// where no inflow was found, and a failure where its inputs could not be found.
pub proof fn law_plans_hold_what_was_found<T, R: Fn(u32) -> Inputs<T>>(
    channels: Map<u32, ChannelParams<T>>,
    resolve: R,
    id: u32,
    steps: nat,
    zero: T,
    plan: BatchPlan<T>,
)
    requires
        plan_made(channels, resolve, seq![id], steps, zero, plan),
    ensures
        !channels.contains_key(id) ==> plan.prepared@.len() == 0 && plan.routed@.len() == 0
            && plan.counted == 0 && plan.failed == 0,
        channels.contains_key(id) ==> plan.counted == 1 && plan.prepared@.len()
            + plan.routed@.len() + plan.failed == 1,
        plan.prepared@.len() == 1 ==> plan.prepared@[0].node_id == id && plan.prepared@[0].params
            == channels[id] && call_ensures(
            resolve,
            (id,),
            Inputs::Found(plan.prepared@[0].work),
        ),
        plan.routed@.len() == 1 ==> plan.routed@[0].feature_id == id && call_ensures(
            resolve,
            (id,),
            Inputs::NoInflow,
        ),
        plan.failed == 1 ==> call_ensures(resolve, (id,), Inputs::Failed),
{
    let outcomes = choose|outcomes: Seq<NodeOutcome<T>>| #[trigger]
        planned(plan, seq![id], outcomes, steps, zero) && forall|i: int|
            #![trigger outcomes[i]]
            0 <= i < seq![id].len() ==> resolved(channels, resolve, seq![id][i], outcomes[i]);
    let outcome = outcomes[0];
    assert(outcomes =~= seq![outcome]);
    assert(resolved(channels, resolve, id, outcome));
    law_a_node_goes_where_its_outcome_sends_it(plan, id, outcome, steps, zero, 0);
}

} // verus!
