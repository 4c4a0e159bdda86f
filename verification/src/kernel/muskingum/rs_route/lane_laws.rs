//! Lanes do not disturb each other.

use crate::config::ChannelParams;
use crate::kernel::muskingum::rs_route::mc_kernel_simd::{
    dry_lanes, finished, found_dry, frame_follows, is_partial_run, is_run, laid_out, lane_index,
    lane_input, no_flows, opened, some_lane, starting, stepped, still, Frame, LaneArithmetic,
    LaneFlows, LaneInput, LaneParams, LaneResult, LaneValues, ReachParams, StepFlows, LANES,
    MAX_ITERATIONS,
};
use crate::kernel::muskingum::MuskingumCungeResult;
use vstd::prelude::*;

verus! {

/// One lane on its own: iterate `rule` until it calls the lane settled, `fuel` times at most.
pub open spec fn settle<T>(
    rule: spec_fn(LaneInput<T>, LaneValues<T>) -> (LaneValues<T>, bool),
    input: LaneInput<T>,
    values: LaneValues<T>,
    fuel: nat,
) -> LaneValues<T>
    decreases fuel,
{
    if fuel == 0 {
        values
    } else {
        let (next, settled) = rule(input, values);
        if settled {
            next
        } else {
            settle(rule, input, next, (fuel - 1) as nat)
        }
    }
}

/// How many iterations that takes.
pub open spec fn settle_count<T>(
    rule: spec_fn(LaneInput<T>, LaneValues<T>) -> (LaneValues<T>, bool),
    input: LaneInput<T>,
    values: LaneValues<T>,
    fuel: nat,
) -> nat
    decreases fuel,
{
    if fuel == 0 {
        0
    } else {
        let (next, settled) = rule(input, values);
        if settled {
            1
        } else {
            1 + settle_count(rule, input, next, (fuel - 1) as nat)
        }
    }
}

/// One iteration is a function of the lane.
pub open spec fn advances_by<T, A: Fn(LaneInput<T>, LaneValues<T>) -> (LaneValues<T>, bool)>(
    advance: A,
    rule: spec_fn(LaneInput<T>, LaneValues<T>) -> (LaneValues<T>, bool),
) -> bool {
    forall|input: LaneInput<T>, values: LaneValues<T>, next: (LaneValues<T>, bool)| #[trigger]
        call_ensures(advance, (input, values), next) ==> next == rule(input, values)
}

/// What is left to do for lane `i` in the `k`-th frame adds up to the whole.
proof fn lemma_lane_so_far<T, A: Fn(LaneInput<T>, LaneValues<T>) -> (LaneValues<T>, bool)>(
    advance: A,
    rule: spec_fn(LaneInput<T>, LaneValues<T>) -> (LaneValues<T>, bool),
    lanes: LaneParams<T>,
    flows: LaneFlows<T>,
    init: Seq<LaneValues<T>>,
    no_flow: Seq<bool>,
    frames: Seq<Frame<T>>,
    k: int,
    i: int,
)
    requires
        advances_by(advance, rule),
        is_partial_run(advance, lanes, flows, init, no_flow, frames),
        0 <= k < frames.len(),
        0 <= i < LANES,
        !no_flow[i],
    ensures
        ({
            let input = lane_input(lanes, flows, i);
            let left = (MAX_ITERATIONS - k) as nat;
            let now = frames[k].values[i];
            let whole = settle(rule, input, init[i], MAX_ITERATIONS as nat);
            let count = settle_count(rule, input, init[i], MAX_ITERATIONS as nat);
            if frames[k].active[i] {
                whole == settle(rule, input, now, left) && count == k + settle_count(
                    rule,
                    input,
                    now,
                    left,
                )
            } else {
                whole == now && count <= k
            }
        }),
    decreases k,
{
    assert(lane_index(i));
    if k > 0 {
        lemma_lane_so_far(advance, rule, lanes, flows, init, no_flow, frames, k - 1, i);
        assert(frame_follows(advance, lanes, flows, frames[k - 1], frames[k]));
    }
}

/// Every lane that has flow ends where it would end on its own, whatever the other lanes do;
/// a lane without flow keeps the values it started with.
pub proof fn law_lanes_settle_alone<
    T,
    A: Fn(LaneInput<T>, LaneValues<T>) -> (LaneValues<T>, bool),
>(
    advance: A,
    rule: spec_fn(LaneInput<T>, LaneValues<T>) -> (LaneValues<T>, bool),
    lanes: LaneParams<T>,
    flows: LaneFlows<T>,
    init: Seq<LaneValues<T>>,
    no_flow: Seq<bool>,
    frames: Seq<Frame<T>>,
    i: int,
)
    requires
        advances_by(advance, rule),
        is_run(advance, lanes, flows, init, no_flow, frames),
        0 <= i < LANES,
    ensures
        frames.last().values[i] == if no_flow[i] {
            init[i]
        } else {
            settle(rule, lane_input(lanes, flows, i), init[i], MAX_ITERATIONS as nat)
        },
{
    let last = frames.len() - 1;
    assert(lane_index(i));
    assert(frames[last] == frames.last());
    lemma_active_len(advance, lanes, flows, init, no_flow, frames, last);
    if no_flow[i] {
        law_settled_lanes_are_frozen(advance, lanes, flows, init, no_flow, frames, 0, last, i);
    } else {
        lemma_lane_so_far(advance, rule, lanes, flows, init, no_flow, frames, last, i);
    }
}

proof fn lemma_active_len<T, A: Fn(LaneInput<T>, LaneValues<T>) -> (LaneValues<T>, bool)>(
    advance: A,
    lanes: LaneParams<T>,
    flows: LaneFlows<T>,
    init: Seq<LaneValues<T>>,
    no_flow: Seq<bool>,
    frames: Seq<Frame<T>>,
    k: int,
)
    requires
        is_partial_run(advance, lanes, flows, init, no_flow, frames),
        0 <= k < frames.len(),
    ensures
        frames[k].active.len() == LANES,
{
    if k > 0 {
        assert(frame_follows(advance, lanes, flows, frames[k - 1], frames[k]));
    }
}

/// A lane that drops out stays out: it is never reactivated and its values never change again.
pub proof fn law_settled_lanes_are_frozen<
    T,
    A: Fn(LaneInput<T>, LaneValues<T>) -> (LaneValues<T>, bool),
>(
    advance: A,
    lanes: LaneParams<T>,
    flows: LaneFlows<T>,
    init: Seq<LaneValues<T>>,
    no_flow: Seq<bool>,
    frames: Seq<Frame<T>>,
    k: int,
    m: int,
    i: int,
)
    requires
        is_partial_run(advance, lanes, flows, init, no_flow, frames),
        0 <= k <= m < frames.len(),
        0 <= i < LANES,
        !frames[k].active[i],
    ensures
        !frames[m].active[i],
        frames[m].values[i] == frames[k].values[i],
    decreases m - k,
{
    if k < m {
        law_settled_lanes_are_frozen(advance, lanes, flows, init, no_flow, frames, k, m - 1, i);
        assert(frame_follows(advance, lanes, flows, frames[m - 1], frames[m]));
        assert(lane_index(i));
    }
}

/// The arithmetic of one lane as functions.
#[verifier::reject_recursive_types(T)]
pub struct LaneRules<T> {
    pub bracket: spec_fn(T) -> (T, T),
    pub absent: spec_fn(T) -> bool,
    pub iteration: spec_fn(LaneInput<T>, LaneValues<T>) -> (LaneValues<T>, bool),
    pub outcome: spec_fn(LaneInput<T>, LaneValues<T>) -> MuskingumCungeResult<T>,
}

impl<T> LaneRules<T> {
    /// No flow in, none left over, none on its way.
    pub open spec fn dry(self, flows: StepFlows<T>) -> bool {
        &&& (self.absent)(flows.qdp)
        &&& (self.absent)(flows.ql)
        &&& (self.absent)(flows.qup)
        &&& (self.absent)(flows.quc)
    }

    /// The values a lane starts with.
    pub open spec fn start(self, flows: StepFlows<T>, zero: T) -> LaneValues<T> {
        let (h, h_0) = (self.bracket)(flows.depthp);
        starting(h, h_0, zero)
    }

    /// One timestep of one lane on its own.
    pub open spec fn lane_step(self, input: LaneInput<T>, zero: T) -> MuskingumCungeResult<T> {
        if self.dry(input.flows) {
            still(zero)
        } else {
            (self.outcome)(
                input,
                settle(
                    self.iteration,
                    input,
                    self.start(input.flows, zero),
                    MAX_ITERATIONS as nat,
                ),
            )
        }
    }

    /// The iterations that one timestep of one lane takes on its own.
    pub open spec fn lane_iterations(self, input: LaneInput<T>, zero: T) -> nat {
        if self.dry(input.flows) {
            0
        } else {
            settle_count(
                self.iteration,
                input,
                self.start(input.flows, zero),
                MAX_ITERATIONS as nat,
            )
        }
    }

    /// The arithmetic is that of these rules: it is a function of what it is given.
    pub open spec fn describe<
        B: Fn(T) -> (T, T),
        N: Fn(T) -> bool,
        A: Fn(LaneInput<T>, LaneValues<T>) -> (LaneValues<T>, bool),
        G: Fn(LaneInput<T>, LaneValues<T>) -> MuskingumCungeResult<T>,
    >(self, arithmetic: LaneArithmetic<B, N, A, G>) -> bool {
        &&& forall|d: T, opened: (T, T)| #[trigger]
            call_ensures(arithmetic.bracket, (d,), opened) ==> opened == (self.bracket)(d)
        &&& forall|q: T, gone: bool| #[trigger]
            call_ensures(arithmetic.absent, (q,), gone) ==> gone == (self.absent)(q)
        &&& advances_by(arithmetic.advance, self.iteration)
        &&& forall|input: LaneInput<T>, values: LaneValues<T>, r: MuskingumCungeResult<T>|
            #[trigger]
            call_ensures(arithmetic.finish, (input, values), r) ==> r == (self.outcome)(
                input,
                values,
            )
    }
}

/// What comes out of a lane depends on its reach, the length of the timestep and its flows
/// alone, and not on its position: it is the lane's own timestep, settled on its own, whatever
/// the other lanes hold and however long they take.
pub proof fn law_a_lane_steps_alone<
    T,
    B: Fn(T) -> (T, T),
    N: Fn(T) -> bool,
    A: Fn(LaneInput<T>, LaneValues<T>) -> (LaneValues<T>, bool),
    G: Fn(LaneInput<T>, LaneValues<T>) -> MuskingumCungeResult<T>,
>(
    rules: LaneRules<T>,
    arithmetic: LaneArithmetic<B, N, A, G>,
    lanes: LaneParams<T>,
    flows: LaneFlows<T>,
    zero: T,
    out: LaneResult<T>,
    iterations: int,
    i: int,
)
    requires
        rules.describe(arithmetic),
        stepped(arithmetic, lanes, flows, zero, out, iterations),
        0 <= i < LANES,
    ensures
        out.lane(i) == rules.lane_step(lane_input(lanes, flows, i), zero),
{
    let (init, no_flow, frames) = choose|
        init: Seq<LaneValues<T>>,
        no_flow: Seq<bool>,
        frames: Seq<Frame<T>>,
    | #[trigger]
        is_run(arithmetic.advance, lanes, flows, init, no_flow, frames) && opened(
            arithmetic.bracket,
            flows,
            zero,
            init,
        ) && dry_lanes(arithmetic.absent, flows, no_flow) && iterations == frames.len() - 1
            && finished(
            arithmetic.finish,
            lanes,
            flows,
            frames.last().values,
            no_flow,
            zero,
            out,
        );
    law_lanes_settle_alone(
        arithmetic.advance,
        rules.iteration,
        lanes,
        flows,
        init,
        no_flow,
        frames,
        i,
    );
    assert(lane_index(i));
    assert(found_dry(arithmetic.absent, flows.lane(i), no_flow[i]));
    assert(no_flow[i] == rules.dry(flows.lane(i)));
    assert(init[i] == rules.start(flows.lane(i), zero));
}

/// Two timesteps that agree on lane `i`, in its reach, the length of the timestep and its flows,
/// give it the same result, whatever the other lanes hold: a short batch matches a full one. And
/// a lane that is given no flow, as a padding lane is, comes out at zero.
pub proof fn law_partial_batch_matches_full_batch<
    T,
    B: Fn(T) -> (T, T),
    N: Fn(T) -> bool,
    A: Fn(LaneInput<T>, LaneValues<T>) -> (LaneValues<T>, bool),
    G: Fn(LaneInput<T>, LaneValues<T>) -> MuskingumCungeResult<T>,
>(
    rules: LaneRules<T>,
    arithmetic: LaneArithmetic<B, N, A, G>,
    full_lanes: LaneParams<T>,
    part_lanes: LaneParams<T>,
    full_flows: LaneFlows<T>,
    part_flows: LaneFlows<T>,
    zero: T,
    full_out: LaneResult<T>,
    part_out: LaneResult<T>,
    full_iterations: int,
    part_iterations: int,
    i: int,
)
    requires
        0 <= i < LANES,
        rules.describe(arithmetic),
        stepped(arithmetic, full_lanes, full_flows, zero, full_out, full_iterations),
        stepped(arithmetic, part_lanes, part_flows, zero, part_out, part_iterations),
    ensures
        lane_input(full_lanes, full_flows, i) == lane_input(part_lanes, part_flows, i)
            ==> full_out.lane(i) == part_out.lane(i),
        part_flows.lane(i) == no_flows(zero) && (rules.absent)(zero) ==> part_out.lane(i) == still(
            zero,
        ),
{
    law_a_lane_steps_alone(
        rules,
        arithmetic,
        full_lanes,
        full_flows,
        zero,
        full_out,
        full_iterations,
        i,
    );
    law_a_lane_steps_alone(
        rules,
        arithmetic,
        part_lanes,
        part_flows,
        zero,
        part_out,
        part_iterations,
        i,
    );
}

/// The iterations spent are those of the slowest lane: no lane would take more on its own, some
/// lane takes as many, and none are spent exactly when every lane is dry.
pub proof fn law_the_slowest_lane_decides<
    T,
    B: Fn(T) -> (T, T),
    N: Fn(T) -> bool,
    A: Fn(LaneInput<T>, LaneValues<T>) -> (LaneValues<T>, bool),
    G: Fn(LaneInput<T>, LaneValues<T>) -> MuskingumCungeResult<T>,
>(
    rules: LaneRules<T>,
    arithmetic: LaneArithmetic<B, N, A, G>,
    lanes: LaneParams<T>,
    flows: LaneFlows<T>,
    zero: T,
    out: LaneResult<T>,
    iterations: int,
)
    requires
        rules.describe(arithmetic),
        stepped(arithmetic, lanes, flows, zero, out, iterations),
    ensures
        0 <= iterations <= MAX_ITERATIONS,
        forall|i: int| #[trigger]
            lane_index(i) ==> rules.lane_iterations(lane_input(lanes, flows, i), zero)
                <= iterations,
        exists|i: int| #[trigger]
            lane_index(i) && rules.lane_iterations(lane_input(lanes, flows, i), zero)
                == iterations,
        iterations == 0 <==> forall|i: int| #[trigger]
            lane_index(i) ==> rules.dry(flows.lane(i)),
{
    let (init, no_flow, frames) = choose|
        init: Seq<LaneValues<T>>,
        no_flow: Seq<bool>,
        frames: Seq<Frame<T>>,
    | #[trigger]
        is_run(arithmetic.advance, lanes, flows, init, no_flow, frames) && opened(
            arithmetic.bracket,
            flows,
            zero,
            init,
        ) && dry_lanes(arithmetic.absent, flows, no_flow) && iterations == frames.len() - 1
            && finished(
            arithmetic.finish,
            lanes,
            flows,
            frames.last().values,
            no_flow,
            zero,
            out,
        );
    let advance = arithmetic.advance;
    assert(frames[iterations] == frames.last());
    lemma_active_len(advance, lanes, flows, init, no_flow, frames, iterations);
    assert forall|i: int| #[trigger] lane_index(i) implies no_flow[i] == rules.dry(flows.lane(i))
        && init[i] == rules.start(flows.lane(i), zero) by {
        assert(found_dry(arithmetic.absent, flows.lane(i), no_flow[i]));
    }
    assert forall|i: int| #[trigger] lane_index(i) implies rules.lane_iterations(
        lane_input(lanes, flows, i),
        zero,
    ) <= iterations by {
        if !no_flow[i] {
            lemma_lane_so_far(
                advance,
                rules.iteration,
                lanes,
                flows,
                init,
                no_flow,
                frames,
                iterations,
                i,
            );
        }
    }
    if iterations > 0 {
        let k = iterations - 1;
        lemma_active_len(advance, lanes, flows, init, no_flow, frames, k);
        assert(some_lane(frames[k].active));
        let slow = choose|i: int| 0 <= i < frames[k].active.len() && #[trigger] frames[k].active[i];
        assert(lane_index(slow));
        if no_flow[slow] {
            law_settled_lanes_are_frozen(
                advance,
                lanes,
                flows,
                init,
                no_flow,
                frames,
                0,
                k,
                slow,
            );
        }
        lemma_lane_so_far(
            advance,
            rules.iteration,
            lanes,
            flows,
            init,
            no_flow,
            frames,
            k,
            slow,
        );
        assert(rules.lane_iterations(lane_input(lanes, flows, slow), zero) == iterations);
        assert(!rules.dry(flows.lane(slow)));
    } else {
        assert forall|i: int| #[trigger] lane_index(i) implies no_flow[i] by {
            assert(!frames[0].active[i]);
        }
        assert(lane_index(0));
    }
}

/// A timestep in which every other lane is dry takes the iterations of lane `i`: what the lane
/// takes on its own is what it takes alone in a batch.
pub proof fn law_a_lane_alone_takes_its_own_iterations<
    T,
    B: Fn(T) -> (T, T),
    N: Fn(T) -> bool,
    A: Fn(LaneInput<T>, LaneValues<T>) -> (LaneValues<T>, bool),
    G: Fn(LaneInput<T>, LaneValues<T>) -> MuskingumCungeResult<T>,
>(
    rules: LaneRules<T>,
    arithmetic: LaneArithmetic<B, N, A, G>,
    lanes: LaneParams<T>,
    flows: LaneFlows<T>,
    zero: T,
    out: LaneResult<T>,
    iterations: int,
    i: int,
)
    requires
        0 <= i < LANES,
        rules.describe(arithmetic),
        stepped(arithmetic, lanes, flows, zero, out, iterations),
        forall|k: int| #[trigger] lane_index(k) && k != i ==> rules.dry(flows.lane(k)),
    ensures
        iterations == rules.lane_iterations(lane_input(lanes, flows, i), zero),
{
    law_the_slowest_lane_decides(rules, arithmetic, lanes, flows, zero, out, iterations);
    assert(lane_index(i));
}

/// A lane carries the constants of its own reach, whatever the batch holds besides: a batch cut
/// short agrees with the whole on the reaches it keeps, and reaches past the lanes are ignored.
pub proof fn law_partial_batch_keeps_its_reaches<T, D: Fn(ChannelParams<T>) -> ReachParams<T>>(
    derive: D,
    reach: spec_fn(ChannelParams<T>) -> ReachParams<T>,
    dt: T,
    params: Seq<ChannelParams<T>>,
    len: int,
    full: LaneParams<T>,
    part: LaneParams<T>,
    i: int,
)
    requires
        0 <= i < LANES,
        i < len <= params.len(),
        forall|p: ChannelParams<T>, r: ReachParams<T>| #[trigger]
            call_ensures(derive, (p,), r) ==> r == reach(p),
        laid_out(derive, dt, params, full),
        laid_out(derive, dt, params.take(len), part),
    ensures
        full.lane(i) == reach(params[i]),
        full.dt@[i] == dt,
        part.lane(i) == full.lane(i),
        part.dt@[i] == full.dt@[i],
{
    assert(lane_index(i));
}

} // verus!
