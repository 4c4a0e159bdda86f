//! One timestep of one lane, from the numbers in its lane alone.

use crate::config::ChannelParams;
use crate::kernel::muskingum::rs_route::lane_laws::{
    law_a_lane_steps_alone, law_the_slowest_lane_decides, settle, settle_count, LaneRules,
};
use crate::kernel::muskingum::rs_route::mc_kernel_simd::{
    cube_seed, laid_out, lane_index, lane_input, stepped, LaneArithmetic, LaneFlows, LaneInput,
    LaneParams, LaneResult, LaneValues, ReachParams, StepFlows,
};
use crate::kernel::muskingum::MuskingumCungeResult;
use vstd::prelude::*;

verus! {

/// The numbers that stand in lane `i`, each under its own name.
pub open spec fn in_lane<T>(lanes: LaneParams<T>, flows: LaneFlows<T>, i: int) -> LaneInput<T> {
    LaneInput {
        reach: ReachParams {
            dx: lanes.dx@[i],
            n: lanes.n@[i],
            n_cc: lanes.n_cc@[i],
            so: lanes.so@[i],
            bw: lanes.bw@[i],
            tw_cc: lanes.tw_cc@[i],
            z: lanes.z@[i],
            bfd: lanes.bfd@[i],
            sqrt_1_z2: lanes.sqrt_1_z2@[i],
            sqrt_so: lanes.sqrt_so@[i],
            sqrt_so_n: lanes.sqrt_so_n@[i],
            sqrt_so_ncc: lanes.sqrt_so_ncc@[i],
            bw_2bfd_z: lanes.bw_2bfd_z@[i],
            two_sqrt_1_z2: lanes.two_sqrt_1_z2@[i],
        },
        dt: lanes.dt@[i],
        flows: StepFlows {
            qup: flows.qup@[i],
            quc: flows.quc@[i],
            qdp: flows.qdp@[i],
            ql: flows.ql@[i],
            depthp: flows.depth_p@[i],
        },
    }
}

/// `path` is how the solver gets from the bracket around the previous depth to where it stops:
/// value after value, up to the first that settles, and no more than 101 iterations.
pub open spec fn solver_path<T>(
    rules: LaneRules<T>,
    input: LaneInput<T>,
    zero: T,
    path: Seq<LaneValues<T>>,
) -> bool {
    let iterations = path.len() - 1;
    &&& 1 <= iterations <= 101
    &&& path[0].h == (rules.bracket)(input.flows.depthp).0
    &&& path[0].h_0 == (rules.bracket)(input.flows.depthp).1
    &&& path[0].c1 == zero && path[0].c2 == zero && path[0].c3 == zero && path[0].c4 == zero
    &&& path[0].qj_0 == zero
    &&& forall|k: int, m: int|
        #![trigger path[k], path[m]]
        0 <= k && m == k + 1 && m < path.len() ==> path[m] == (rules.iteration)(input, path[k]).0
    &&& forall|k: int|
        #![trigger path[k]]
        0 <= k < iterations - 1 ==> !(rules.iteration)(input, path[k]).1
    &&& iterations == 101 || (rules.iteration)(input, path[iterations - 1]).1
}

/// Any one of the four flows is there.
pub open spec fn any_flow<T>(absent: spec_fn(T) -> bool, flows: StepFlows<T>) -> bool {
    !absent(flows.qup) || !absent(flows.quc) || !absent(flows.qdp) || !absent(flows.ql)
}

/// `flow`, `velocity` and `depth` are what one timestep comes to: what the solver's last values
/// make where any one flow is there, zeros where none is.
pub open spec fn timestep_gives<T>(
    rules: LaneRules<T>,
    input: LaneInput<T>,
    zero: T,
    flow: T,
    velocity: T,
    depth: T,
) -> bool {
    if any_flow(rules.absent, input.flows) {
        exists|path: Seq<LaneValues<T>>| #[trigger]
            solver_path(rules, input, zero, path) && (rules.outcome)(input, path.last()) == (
            MuskingumCungeResult { qdc: flow, velc: velocity, depthc: depth })
    } else {
        flow == zero && velocity == zero && depth == zero
    }
}

/// Writing down what the solver goes through.
proof fn lemma_path<T>(
    rule: spec_fn(LaneInput<T>, LaneValues<T>) -> (LaneValues<T>, bool),
    input: LaneInput<T>,
    first: LaneValues<T>,
    fuel: nat,
) -> (path: Seq<LaneValues<T>>)
    requires
        fuel > 0,
    ensures
        1 <= path.len() - 1 <= fuel,
        path.len() - 1 == settle_count(rule, input, first, fuel),
        path.last() == settle(rule, input, first, fuel),
        path[0] == first,
        forall|k: int, m: int|
            #![trigger path[k], path[m]]
            0 <= k && m == k + 1 && m < path.len() ==> path[m] == rule(input, path[k]).0,
        forall|k: int|
            #![trigger path[k]]
            0 <= k < path.len() - 2 ==> !rule(input, path[k]).1,
        path.len() - 1 == fuel || rule(input, path[path.len() - 2]).1,
    decreases fuel,
{
    let (next, settled) = rule(input, first);
    if settled || fuel == 1 {
        assert(settle_count(rule, input, next, 0) == 0);
        assert(settle(rule, input, next, 0) == next);
        seq![first, next]
    } else {
        let rest = lemma_path(rule, input, next, (fuel - 1) as nat);
        let path = seq![first] + rest;
        assert(path.last() == rest.last());
        assert forall|k: int, m: int|
            #![trigger path[k], path[m]]
            0 <= k && m == k + 1 && m < path.len() implies path[m] == rule(input, path[k]).0 by {
            assert(path[m] == rest[m - 1]);
            if k > 0 {
                assert(path[k] == rest[k - 1]);
            }
        }
        assert forall|k: int| #![trigger path[k]] 0 <= k < path.len() - 2 implies !rule(
            input,
            path[k],
        ).1 by {
            if k > 0 {
                assert(path[k] == rest[k - 1]);
            }
        }
        assert(path[path.len() - 2] == rest[rest.len() - 2]);
        path
    }
}

/// A lane in which any one of the four flows is there is solved, whichever of the others are
/// there: it comes out as what its solver ends with makes. A lane comes out at zero unsolved where
/// each of the four flows is absent, and only there.
pub proof fn law_a_lane_with_any_flow_is_solved<
    T,
    B: Fn(T) -> (T, T),
    N: Fn(T) -> bool,
    A: Fn(LaneInput<T>, LaneValues<T>) -> (LaneValues<T>, bool),
    G: Fn(LaneInput<T>, LaneValues<T>) -> MuskingumCungeResult<T>,
>(
    rules: LaneRules<T>,
    arithmetic: LaneArithmetic<B, N, A, G>,
    lanes: LaneParams<T>,
    flows: LaneFlows<T>,
    zero: T,
    out: LaneResult<T>,
    iterations: int,
    i: int,
)
    requires
        rules.describe(arithmetic),
        stepped(arithmetic, lanes, flows, zero, out, iterations),
        0 <= i < 16,
    ensures
        timestep_gives(
            rules,
            in_lane(lanes, flows, i),
            zero,
            out.qdc@[i],
            out.velc@[i],
            out.depthc@[i],
        ),
{
    law_a_lane_steps_alone(rules, arithmetic, lanes, flows, zero, out, iterations, i);
    let input = in_lane(lanes, flows, i);
    assert(input == lane_input(lanes, flows, i));
    if any_flow(rules.absent, input.flows) {
        let path = lemma_path(rules.iteration, input, rules.start(input.flows, zero), 101);
        assert(solver_path(rules, input, zero, path));
    }
}

/// The iterations spent are those of the slowest lane: enough for each lane that has any flow, as
/// many as one of them takes, and none where no lane has any.
pub proof fn law_iterations_are_those_of_the_slowest_lane<
    T,
    B: Fn(T) -> (T, T),
    N: Fn(T) -> bool,
    A: Fn(LaneInput<T>, LaneValues<T>) -> (LaneValues<T>, bool),
    G: Fn(LaneInput<T>, LaneValues<T>) -> MuskingumCungeResult<T>,
>(
    rules: LaneRules<T>,
    arithmetic: LaneArithmetic<B, N, A, G>,
    lanes: LaneParams<T>,
    flows: LaneFlows<T>,
    zero: T,
    out: LaneResult<T>,
    iterations: int,
)
    requires
        rules.describe(arithmetic),
        stepped(arithmetic, lanes, flows, zero, out, iterations),
    ensures
        0 <= iterations <= 101,
        forall|i: int|
            #![trigger in_lane(lanes, flows, i)]
            0 <= i < 16 && any_flow(rules.absent, in_lane(lanes, flows, i).flows) ==> exists|
                path: Seq<LaneValues<T>>,
            | #[trigger]
                solver_path(rules, in_lane(lanes, flows, i), zero, path) && path.len() - 1
                    <= iterations,
        iterations > 0 ==> exists|i: int, path: Seq<LaneValues<T>>| #[trigger]
            solver_path(rules, in_lane(lanes, flows, i), zero, path) && 0 <= i < 16 && any_flow(
                rules.absent,
                in_lane(lanes, flows, i).flows,
            ) && path.len() - 1 == iterations,
        iterations == 0 ==> forall|i: int|
            #![trigger in_lane(lanes, flows, i)]
            0 <= i < 16 ==> !any_flow(rules.absent, in_lane(lanes, flows, i).flows),
{
    law_the_slowest_lane_decides(rules, arithmetic, lanes, flows, zero, out, iterations);
    assert forall|i: int|
        #![trigger in_lane(lanes, flows, i)]
        0 <= i < 16 && any_flow(rules.absent, in_lane(lanes, flows, i).flows) implies exists|
        path: Seq<LaneValues<T>>,
    | #[trigger]
        solver_path(rules, in_lane(lanes, flows, i), zero, path) && path.len() - 1
            <= iterations by {
        let input = in_lane(lanes, flows, i);
        assert(lane_index(i));
        assert(input == lane_input(lanes, flows, i));
        let path = lemma_path(rules.iteration, input, rules.start(input.flows, zero), 101);
        assert(solver_path(rules, in_lane(lanes, flows, i), zero, path));
    }
    if iterations > 0 {
        let slow = choose|i: int| #[trigger]
            lane_index(i) && rules.lane_iterations(lane_input(lanes, flows, i), zero)
                == iterations;
        let input = in_lane(lanes, flows, slow);
        assert(input == lane_input(lanes, flows, slow));
        let path = lemma_path(rules.iteration, input, rules.start(input.flows, zero), 101);
        assert(solver_path(rules, in_lane(lanes, flows, slow), zero, path));
    } else {
        assert forall|i: int|
            #![trigger in_lane(lanes, flows, i)]
            0 <= i < 16 implies !any_flow(rules.absent, in_lane(lanes, flows, i).flows) by {
            assert(lane_index(i));
        }
    }
}

/// Each constant of a reach stands under its own name in the reach's own lane, with the length of
/// the timestep; the lanes past the last reach hold those of the first.
pub proof fn law_each_constant_stands_in_its_place<T, D: Fn(ChannelParams<T>) -> ReachParams<T>>(
    derive: D,
    reach: spec_fn(ChannelParams<T>) -> ReachParams<T>,
    dt: T,
    params: Seq<ChannelParams<T>>,
    lanes: LaneParams<T>,
    i: int,
    flows: LaneFlows<T>,
)
    requires
        0 <= i < 16,
        params.len() > 0,
        forall|p: ChannelParams<T>, r: ReachParams<T>| #[trigger]
            call_ensures(derive, (p,), r) ==> r == reach(p),
        laid_out(derive, dt, params, lanes),
    ensures
        lanes.dt@[i] == dt,
        i < params.len() ==> in_lane(lanes, flows, i).reach == reach(params[i]),
        i >= params.len() ==> in_lane(lanes, flows, i).reach == reach(params[0]),
{
    assert(lane_index(i));
    assert(in_lane(lanes, flows, i).reach == lanes.lane(i));
}

/// The seed is a third of the bits, rounded down, above a fixed offset.
pub proof fn law_the_seed_is_a_third_above_the_offset(bits: u32)
    ensures
        3 * (cube_seed(bits) - 709_921_077) <= bits < 3 * (cube_seed(bits) - 709_921_077) + 3,
{
}

} // verus!
