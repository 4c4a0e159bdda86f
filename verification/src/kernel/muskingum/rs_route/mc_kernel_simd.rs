//! Lane-parallel Muskingum-Cunge: the lockstep around the arithmetic.
//!
//! Sixteen independent reaches step through the same timestep together. Lanes settle after
//! different numbers of iterations; a settled lane is frozen by masking its updates, and the
//! loop runs until the slowest lane is done. The arithmetic of one lane is handed in by the
//! caller; what stands here is which lane takes which value, and when.

use crate::config::ChannelParams;
use crate::kernel::muskingum::MuskingumCungeResult;
use vstd::prelude::*;

verus! {

/// Reaches per step: one 512-bit register of 32-bit values.
pub const LANES: usize = 16;

/// The solver gives up on a lane after this many iterations.
pub const MAX_ITERATIONS: u32 = 101;

/// One value per lane.
pub type Lane<T> = [T; LANES];

/// Lane by lane, `on_true` where the mask is set and `on_false` where it is not.
pub fn select<T: Copy>(mask: &[bool; LANES], on_true: &[T; LANES], on_false: &[T; LANES]) -> (out:
    [T; LANES])
    ensures
        forall|i: int|
            #![trigger out@[i]]
            0 <= i < LANES ==> out@[i] == if mask@[i] {
                on_true@[i]
            } else {
                on_false@[i]
            },
{
    let mut out: [T; LANES] = *on_false;
    let mut i: usize = 0;
    while i < LANES
        invariant
            i <= LANES,
            forall|k: int|
                #![trigger out@[k]]
                0 <= k < LANES ==> out@[k] == if k < i && mask@[k] {
                    on_true@[k]
                } else {
                    on_false@[k]
                },
        decreases LANES - i,
    {
        if mask[i] {
            out[i] = on_true[i];
        }
        i += 1;
    }
    out
}

/// Some lane is set.
pub open spec fn some_lane(mask: Seq<bool>) -> bool {
    exists|i: int| 0 <= i < mask.len() && #[trigger] mask[i]
}

fn any_lane(mask: &[bool; LANES]) -> (any: bool)
    ensures
        any == some_lane(mask@),
{
    let mut i: usize = 0;
    while i < LANES
        invariant
            i <= LANES,
            forall|k: int| 0 <= k < i ==> !#[trigger] mask@[k],
        decreases LANES - i,
    {
        if mask[i] {
            return true;
        }
        i += 1;
    }
    false
}

/// The flows and the depth that one timestep of one reach starts from.
pub struct StepFlows<T> {
    pub qup: T,
    pub quc: T,
    pub qdp: T,
    pub ql: T,
    pub depthp: T,
}

impl<T: Copy> Copy for StepFlows<T> {

}

impl<T: Copy> Clone for StepFlows<T> {
    fn clone(&self) -> (copy: Self)
        ensures
            copy == *self,
    {
        *self
    }
}

/// The flows and depths that one timestep of a batch starts from, lane by lane.
pub struct LaneFlows<T> {
    pub qup: [T; LANES],
    pub quc: [T; LANES],
    pub qdp: [T; LANES],
    pub ql: [T; LANES],
    pub depth_p: [T; LANES],
}

impl<T: Copy> Copy for LaneFlows<T> {

}

impl<T: Copy> Clone for LaneFlows<T> {
    fn clone(&self) -> (copy: Self)
        ensures
            copy == *self,
    {
        *self
    }
}

impl<T> LaneFlows<T> {
    pub open spec fn lane(self, i: int) -> StepFlows<T> {
        StepFlows {
            qup: self.qup@[i],
            quc: self.quc@[i],
            qdp: self.qdp@[i],
            ql: self.ql@[i],
            depthp: self.depth_p@[i],
        }
    }
}

/// No flow anywhere: what a padding lane is given.
pub open spec fn no_flows<T>(zero: T) -> StepFlows<T> {
    StepFlows { qup: zero, quc: zero, qdp: zero, ql: zero, depthp: zero }
}

/// What the kernel needs to know of one reach, derived from its channel geometry.
pub struct ReachParams<T> {
    pub dx: T,
    pub n: T,
    pub n_cc: T,
    pub so: T,
    pub bw: T,
    pub tw_cc: T,
    pub z: T,
    pub bfd: T,
    pub sqrt_1_z2: T,
    pub sqrt_so: T,
    pub sqrt_so_n: T,
    pub sqrt_so_ncc: T,
    pub bw_2bfd_z: T,
    pub two_sqrt_1_z2: T,
}

impl<T: Copy> Copy for ReachParams<T> {

}

impl<T: Copy> Clone for ReachParams<T> {
    fn clone(&self) -> (copy: Self)
        ensures
            copy == *self,
    {
        *self
    }
}

/// Reach constants hoisted out of the timestep loop, laid out lane-wise.
///
/// These depend only on channel geometry, so they are built once per batch of reaches and
/// reused for every timestep.
pub struct LaneParams<T> {
    pub dt: [T; LANES],
    pub dx: [T; LANES],
    pub n: [T; LANES],
    pub n_cc: [T; LANES],
    pub so: [T; LANES],
    pub bw: [T; LANES],
    pub tw_cc: [T; LANES],
    pub z: [T; LANES],
    pub bfd: [T; LANES],
    pub sqrt_1_z2: [T; LANES],
    pub sqrt_so: [T; LANES],
    pub sqrt_so_n: [T; LANES],
    pub sqrt_so_ncc: [T; LANES],
    pub bw_2bfd_z: [T; LANES],
    pub two_sqrt_1_z2: [T; LANES],
}

impl<T: Copy> Copy for LaneParams<T> {

}

impl<T: Copy> Clone for LaneParams<T> {
    fn clone(&self) -> (copy: Self)
        ensures
            copy == *self,
    {
        *self
    }
}

impl<T> LaneParams<T> {
    pub open spec fn lane(self, i: int) -> ReachParams<T> {
        ReachParams {
            dx: self.dx@[i],
            n: self.n@[i],
            n_cc: self.n_cc@[i],
            so: self.so@[i],
            bw: self.bw@[i],
            tw_cc: self.tw_cc@[i],
            z: self.z@[i],
            bfd: self.bfd@[i],
            sqrt_1_z2: self.sqrt_1_z2@[i],
            sqrt_so: self.sqrt_so@[i],
            sqrt_so_n: self.sqrt_so_n@[i],
            sqrt_so_ncc: self.sqrt_so_ncc@[i],
            bw_2bfd_z: self.bw_2bfd_z@[i],
            two_sqrt_1_z2: self.two_sqrt_1_z2@[i],
        }
    }
}

impl<T: Copy> LaneParams<T> {
    /// What lane `i` starts from.
    fn input(&self, flows: &LaneFlows<T>, i: usize) -> (input: LaneInput<T>)
        requires
            i < LANES,
        ensures
            input == lane_input(*self, *flows, i as int),
    {
        LaneInput {
            reach: ReachParams {
                dx: self.dx[i],
                n: self.n[i],
                n_cc: self.n_cc[i],
                so: self.so[i],
                bw: self.bw[i],
                tw_cc: self.tw_cc[i],
                z: self.z[i],
                bfd: self.bfd[i],
                sqrt_1_z2: self.sqrt_1_z2[i],
                sqrt_so: self.sqrt_so[i],
                sqrt_so_n: self.sqrt_so_n[i],
                sqrt_so_ncc: self.sqrt_so_ncc[i],
                bw_2bfd_z: self.bw_2bfd_z[i],
                two_sqrt_1_z2: self.two_sqrt_1_z2[i],
            },
            dt: self.dt[i],
            flows: StepFlows {
                qup: flows.qup[i],
                quc: flows.quc[i],
                qdp: flows.qdp[i],
                ql: flows.ql[i],
                depthp: flows.depth_p[i],
            },
        }
    }
}

/// What one timestep of one lane starts from: its reach, the length of the timestep, and its
/// flows.
pub struct LaneInput<T> {
    pub reach: ReachParams<T>,
    pub dt: T,
    pub flows: StepFlows<T>,
}

impl<T: Copy> Copy for LaneInput<T> {

}

impl<T: Copy> Clone for LaneInput<T> {
    fn clone(&self) -> (copy: Self)
        ensures
            copy == *self,
    {
        *self
    }
}

/// What lane `i` starts from.
pub open spec fn lane_input<T>(lanes: LaneParams<T>, flows: LaneFlows<T>, i: int) -> LaneInput<T> {
    LaneInput { reach: lanes.lane(i), dt: lanes.dt@[i], flows: flows.lane(i) }
}

/// What the solver carries from one iteration to the next, for one lane.
pub struct LaneValues<T> {
    pub h: T,
    pub h_0: T,
    pub c1: T,
    pub c2: T,
    pub c3: T,
    pub c4: T,
    pub qj_0: T,
}

impl<T: Copy> Copy for LaneValues<T> {

}

impl<T: Copy> Clone for LaneValues<T> {
    fn clone(&self) -> (copy: Self)
        ensures
            copy == *self,
    {
        *self
    }
}

/// Per-lane outputs for a single timestep.
pub struct LaneResult<T> {
    pub qdc: [T; LANES],
    pub velc: [T; LANES],
    pub depthc: [T; LANES],
}

impl<T: Copy> Copy for LaneResult<T> {

}

impl<T: Copy> Clone for LaneResult<T> {
    fn clone(&self) -> (copy: Self)
        ensures
            copy == *self,
    {
        *self
    }
}

impl<T> LaneResult<T> {
    pub open spec fn lane(self, i: int) -> MuskingumCungeResult<T> {
        MuskingumCungeResult {
            qdc: self.qdc@[i],
            velc: self.velc@[i],
            depthc: self.depthc@[i],
        }
    }
}

/// The arithmetic of one lane.
pub struct LaneArithmetic<B, N, A, G> {
    /// Opens the two depths that the solver starts from around the depth of the previous
    /// timestep.
    pub bracket: B,
    /// Tells a flow that is not there.
    pub absent: N,
    /// One iteration of the depth solver: the next values, and whether the lane has settled.
    pub advance: A,
    /// Turns the last values into flow, velocity and depth.
    pub finish: G,
}

/// The solver between two iterations: its values, and the lanes that have not settled.
pub struct Frame<T> {
    pub values: Seq<LaneValues<T>>,
    pub active: Seq<bool>,
}

pub open spec fn lane_index(i: int) -> bool {
    0 <= i < LANES
}

/// One iteration: an active lane takes the values that `advance` gives it and drops out once it
/// is called settled, every other lane stays as it is.
pub open spec fn frame_follows<
    T,
    A: Fn(LaneInput<T>, LaneValues<T>) -> (LaneValues<T>, bool),
>(
    advance: A,
    lanes: LaneParams<T>,
    flows: LaneFlows<T>,
    before: Frame<T>,
    after: Frame<T>,
) -> bool {
    &&& after.active.len() == LANES
    &&& forall|i: int| #[trigger]
        lane_index(i) ==> if before.active[i] {
            call_ensures(
                advance,
                (lane_input(lanes, flows, i), before.values[i]),
                (after.values[i], !after.active[i]),
            )
        } else {
            after.values[i] == before.values[i] && !after.active[i]
        }
}

/// A complete run of the solver: it starts with every lane that has flow, goes on while some
/// lane is active, and stops at the latest after `MAX_ITERATIONS`.
pub open spec fn is_run<T, A: Fn(LaneInput<T>, LaneValues<T>) -> (LaneValues<T>, bool)>(
    advance: A,
    lanes: LaneParams<T>,
    flows: LaneFlows<T>,
    init: Seq<LaneValues<T>>,
    no_flow: Seq<bool>,
    frames: Seq<Frame<T>>,
) -> bool {
    &&& is_partial_run(advance, lanes, flows, init, no_flow, frames)
    &&& frames.len() == MAX_ITERATIONS + 1 || !some_lane(frames.last().active)
}

/// The beginning of a run.
pub open spec fn is_partial_run<T, A: Fn(LaneInput<T>, LaneValues<T>) -> (LaneValues<T>, bool)>(
    advance: A,
    lanes: LaneParams<T>,
    flows: LaneFlows<T>,
    init: Seq<LaneValues<T>>,
    no_flow: Seq<bool>,
    frames: Seq<Frame<T>>,
) -> bool {
    &&& 1 <= frames.len() <= MAX_ITERATIONS + 1
    &&& frames[0].values == init
    &&& frames[0].active.len() == LANES
    &&& forall|i: int| #[trigger] lane_index(i) ==> frames[0].active[i] == !no_flow[i]
    &&& forall|k: int, m: int|
        #![trigger frames[k], frames[m]]
        0 <= k && m == k + 1 && m < frames.len() ==> frame_follows(
            advance,
            lanes,
            flows,
            frames[k],
            frames[m],
        )
    &&& forall|k: int|
        #![trigger frames[k]]
        0 <= k < frames.len() - 1 ==> some_lane(frames[k].active)
}

/// Flow, velocity and depth all at `zero`.
pub open spec fn still<T>(zero: T) -> MuskingumCungeResult<T> {
    MuskingumCungeResult { qdc: zero, velc: zero, depthc: zero }
}

/// `out` is what `finish` makes of the last values, with the lanes that had no flow at zero.
pub open spec fn finished<
    T,
    G: Fn(LaneInput<T>, LaneValues<T>) -> MuskingumCungeResult<T>,
>(
    finish: G,
    lanes: LaneParams<T>,
    flows: LaneFlows<T>,
    last: Seq<LaneValues<T>>,
    no_flow: Seq<bool>,
    zero: T,
    out: LaneResult<T>,
) -> bool {
    forall|i: int| #[trigger]
        lane_index(i) ==> if no_flow[i] {
            out.lane(i) == still(zero)
        } else {
            call_ensures(finish, (lane_input(lanes, flows, i), last[i]), out.lane(i))
        }
}

/// A lane before the first iteration.
pub open spec fn starting<T>(h: T, h_0: T, zero: T) -> LaneValues<T> {
    LaneValues { h, h_0, c1: zero, c2: zero, c3: zero, c4: zero, qj_0: zero }
}

/// Every lane starts from the depths that `bracket` opens around its previous depth, with all
/// coefficients at zero.
pub open spec fn opened<T, B: Fn(T) -> (T, T)>(
    bracket: B,
    flows: LaneFlows<T>,
    zero: T,
    init: Seq<LaneValues<T>>,
) -> bool {
    forall|i: int| #[trigger]
        lane_index(i) ==> {
            &&& call_ensures(bracket, (flows.lane(i).depthp,), (init[i].h, init[i].h_0))
            &&& init[i] == starting(init[i].h, init[i].h_0, zero)
        }
}

/// A lane is dry when `absent` says so of each of its four flows.
pub open spec fn found_dry<T, N: Fn(T) -> bool>(absent: N, flows: StepFlows<T>, dry: bool) -> bool {
    if dry {
        &&& call_ensures(absent, (flows.qdp,), true)
        &&& call_ensures(absent, (flows.ql,), true)
        &&& call_ensures(absent, (flows.qup,), true)
        &&& call_ensures(absent, (flows.quc,), true)
    } else {
        ||| call_ensures(absent, (flows.qdp,), false)
        ||| call_ensures(absent, (flows.ql,), false)
        ||| call_ensures(absent, (flows.qup,), false)
        ||| call_ensures(absent, (flows.quc,), false)
    }
}

/// `no_flow` marks the dry lanes.
pub open spec fn dry_lanes<T, N: Fn(T) -> bool>(
    absent: N,
    flows: LaneFlows<T>,
    no_flow: Seq<bool>,
) -> bool {
    &&& no_flow.len() == LANES
    &&& forall|i: int| #[trigger]
        lane_index(i) ==> found_dry(absent, flows.lane(i), no_flow[i])
}

/// `out` and `iterations` are what one timestep comes to: a run of the solver from the opened
/// bracket on the lanes that are not dry, finished.
pub open spec fn stepped<
    T,
    B: Fn(T) -> (T, T),
    N: Fn(T) -> bool,
    A: Fn(LaneInput<T>, LaneValues<T>) -> (LaneValues<T>, bool),
    G: Fn(LaneInput<T>, LaneValues<T>) -> MuskingumCungeResult<T>,
>(
    arithmetic: LaneArithmetic<B, N, A, G>,
    lanes: LaneParams<T>,
    flows: LaneFlows<T>,
    zero: T,
    out: LaneResult<T>,
    iterations: int,
) -> bool {
    exists|init: Seq<LaneValues<T>>, no_flow: Seq<bool>, frames: Seq<Frame<T>>| #[trigger]
        is_run(arithmetic.advance, lanes, flows, init, no_flow, frames) && opened(
            arithmetic.bracket,
            flows,
            zero,
            init,
        ) && dry_lanes(arithmetic.absent, flows, no_flow) && iterations == frames.len() - 1
            && finished(
            arithmetic.finish,
            lanes,
            flows,
            frames.last().values,
            no_flow,
            zero,
            out,
        )
}

/// The arithmetic can be called on anything.
pub open spec fn callable<
    T,
    B: Fn(T) -> (T, T),
    N: Fn(T) -> bool,
    A: Fn(LaneInput<T>, LaneValues<T>) -> (LaneValues<T>, bool),
    G: Fn(LaneInput<T>, LaneValues<T>) -> MuskingumCungeResult<T>,
>(arithmetic: LaneArithmetic<B, N, A, G>) -> bool {
    &&& forall|d: T| #[trigger] call_requires(arithmetic.bracket, (d,))
    &&& forall|q: T| #[trigger] call_requires(arithmetic.absent, (q,))
    &&& forall|input: LaneInput<T>, values: LaneValues<T>| #[trigger]
        call_requires(arithmetic.advance, (input, values))
    &&& forall|input: LaneInput<T>, values: LaneValues<T>| #[trigger]
        call_requires(arithmetic.finish, (input, values))
}

fn open_lanes<T: Copy, B: Fn(T) -> (T, T)>(flows: &LaneFlows<T>, zero: T, bracket: &B) -> (init: [
    LaneValues<T>;
    LANES
])
    requires
        forall|d: T| #[trigger] call_requires(*bracket, (d,)),
    ensures
        opened(*bracket, *flows, zero, init@),
{
    let nothing = LaneValues { h: zero, h_0: zero, c1: zero, c2: zero, c3: zero, c4: zero, qj_0: zero };
    let mut init: [LaneValues<T>; LANES] = [nothing; LANES];
    let mut i: usize = 0;
    while i < LANES
        invariant
            i <= LANES,
            forall|d: T| #[trigger] call_requires(*bracket, (d,)),
            forall|k: int| #[trigger]
                lane_index(k) ==> k < i ==> {
                    &&& call_ensures(*bracket, (flows.lane(k).depthp,), (init@[k].h, init@[k].h_0))
                    &&& init@[k] == starting(init@[k].h, init@[k].h_0, zero)
                },
        decreases LANES - i,
    {
        let (h, h_0) = bracket(flows.depth_p[i]);
        init[i] = LaneValues { h, h_0, c1: zero, c2: zero, c3: zero, c4: zero, qj_0: zero };
        i += 1;
    }
    init
}

fn find_dry<T: Copy, N: Fn(T) -> bool>(flows: &LaneFlows<T>, absent: &N) -> (no_flow: [bool; LANES])
    requires
        forall|q: T| #[trigger] call_requires(*absent, (q,)),
    ensures
        dry_lanes(*absent, *flows, no_flow@),
{
    let mut no_flow: [bool; LANES] = [false; LANES];
    let mut i: usize = 0;
    while i < LANES
        invariant
            i <= LANES,
            forall|q: T| #[trigger] call_requires(*absent, (q,)),
            forall|k: int| #[trigger]
                lane_index(k) ==> k < i ==> found_dry(*absent, flows.lane(k), no_flow@[k]),
        decreases LANES - i,
    {
        let dry = absent(flows.qdp[i]) && absent(flows.ql[i]) && absent(flows.qup[i]) && absent(
            flows.quc[i],
        );
        assert(found_dry(*absent, flows.lane(i as int), dry));
        no_flow[i] = dry;
        i += 1;
    }
    no_flow
}

/// One iteration on every lane, settled or not.
fn advance_all<T: Copy, A: Fn(LaneInput<T>, LaneValues<T>) -> (LaneValues<T>, bool)>(
    lanes: &LaneParams<T>,
    flows: &LaneFlows<T>,
    values: &[LaneValues<T>; LANES],
    advance: &A,
) -> (out: ([LaneValues<T>; LANES], [bool; LANES]))
    requires
        forall|input: LaneInput<T>, v: LaneValues<T>| #[trigger]
            call_requires(*advance, (input, v)),
    ensures
        forall|i: int| #[trigger]
            lane_index(i) ==> call_ensures(
                *advance,
                (lane_input(*lanes, *flows, i), values@[i]),
                (out.0@[i], out.1@[i]),
            ),
{
    let mut next: [LaneValues<T>; LANES] = *values;
    let mut settled: [bool; LANES] = [false; LANES];
    let mut i: usize = 0;
    while i < LANES
        invariant
            i <= LANES,
            forall|input: LaneInput<T>, v: LaneValues<T>| #[trigger]
                call_requires(*advance, (input, v)),
            forall|k: int| #[trigger]
                lane_index(k) ==> k < i ==> call_ensures(
                    *advance,
                    (lane_input(*lanes, *flows, k), values@[k]),
                    (next@[k], settled@[k]),
                ),
        decreases LANES - i,
    {
        let (v, done) = advance(lanes.input(flows, i), values[i]);
        next[i] = v;
        settled[i] = done;
        i += 1;
    }
    (next, settled)
}

/// Flow, velocity and depth of every lane, dry or not.
fn finish_all<T: Copy, G: Fn(LaneInput<T>, LaneValues<T>) -> MuskingumCungeResult<T>>(
    lanes: &LaneParams<T>,
    flows: &LaneFlows<T>,
    values: &[LaneValues<T>; LANES],
    zero: T,
    finish: &G,
) -> (out: LaneResult<T>)
    requires
        forall|input: LaneInput<T>, v: LaneValues<T>| #[trigger]
            call_requires(*finish, (input, v)),
    ensures
        forall|i: int| #[trigger]
            lane_index(i) ==> call_ensures(
                *finish,
                (lane_input(*lanes, *flows, i), values@[i]),
                out.lane(i),
            ),
{
    let mut out = LaneResult {
        qdc: [zero; LANES],
        velc: [zero; LANES],
        depthc: [zero; LANES],
    };
    let mut i: usize = 0;
    while i < LANES
        invariant
            i <= LANES,
            forall|input: LaneInput<T>, v: LaneValues<T>| #[trigger]
                call_requires(*finish, (input, v)),
            forall|k: int| #[trigger]
                lane_index(k) ==> k < i ==> call_ensures(
                    *finish,
                    (lane_input(*lanes, *flows, k), values@[k]),
                    out.lane(k),
                ),
        decreases LANES - i,
    {
        let ghost before = out;
        let r = finish(lanes.input(flows, i), values[i]);
        out.qdc[i] = r.qdc;
        out.velc[i] = r.velc;
        out.depthc[i] = r.depthc;
        assert(out.lane(i as int) == r);
        assert(forall|k: int| #[trigger] lane_index(k) ==> k != i ==> out.lane(k) == before.lane(k));
        i += 1;
    }
    out
}

/// Route one timestep for `LANES` independent reaches.
///
/// Settled lanes keep the values they finished with while the others go on, and a lane with no
/// flow anywhere returns zeros. Also returns the number of iterations spent, which is that of
/// the slowest lane.
pub fn step<
    T: Copy,
    B: Fn(T) -> (T, T),
    N: Fn(T) -> bool,
    A: Fn(LaneInput<T>, LaneValues<T>) -> (LaneValues<T>, bool),
    G: Fn(LaneInput<T>, LaneValues<T>) -> MuskingumCungeResult<T>,
>(
    lanes: &LaneParams<T>,
    flows: &LaneFlows<T>,
    zero: T,
    arithmetic: &LaneArithmetic<B, N, A, G>,
) -> (out: (LaneResult<T>, u32))
    requires
        callable(*arithmetic),
    ensures
        stepped(*arithmetic, *lanes, *flows, zero, out.0, out.1 as int),
{
    let ghost advance = arithmetic.advance;
    let init: [LaneValues<T>; LANES] = open_lanes(flows, zero, &arithmetic.bracket);
    let no_flow: [bool; LANES] = find_dry(flows, &arithmetic.absent);
    let mut values: [LaneValues<T>; LANES] = init;
    let on: [bool; LANES] = [true; LANES];
    let off: [bool; LANES] = [false; LANES];
    let mut active: [bool; LANES] = select(&no_flow, &off, &on);
    let mut iter: u32 = 0;
    let ghost mut frames: Seq<Frame<T>> = seq![Frame { values: init@, active: active@ }];
    while iter < MAX_ITERATIONS && any_lane(&active)
        invariant
            iter <= MAX_ITERATIONS,
            callable(*arithmetic),
            advance == arithmetic.advance,
            forall|i: int| 0 <= i < LANES ==> !#[trigger] off@[i],
            is_partial_run(advance, *lanes, *flows, init@, no_flow@, frames),
            frames.len() == iter + 1,
            frames.last() == (Frame { values: values@, active: active@ }),
        decreases MAX_ITERATIONS - iter,
    {
        let ghost before = frames.last();
        let (next, settled) = advance_all(lanes, flows, &values, &arithmetic.advance);
        values = select(&active, &next, &values);
        active = select(&settled, &off, &active);
        proof {
            let after = Frame { values: values@, active: active@ };
            assert(frame_follows(advance, *lanes, *flows, before, after));
            let longer = frames.push(after);
            assert forall|k: int, m: int|
                #![trigger longer[k], longer[m]]
                0 <= k && m == k + 1 && m < longer.len() implies frame_follows(
                advance,
                *lanes,
                *flows,
                longer[k],
                longer[m],
            ) by {
                if m < frames.len() {
                    assert(frames[k] == longer[k] && frames[m] == longer[m]);
                }
            }
            assert forall|k: int|
                #![trigger longer[k]]
                0 <= k < longer.len() - 1 implies some_lane(longer[k].active) by {
                assert(frames[k] == longer[k]);
            }
            assert(longer[0] == frames[0]);
            frames = longer;
        }
        iter += 1;
    }
    let raw = finish_all(lanes, flows, &values, zero, &arithmetic.finish);
    let zeros: [T; LANES] = [zero; LANES];
    let out = LaneResult {
        qdc: select(&no_flow, &zeros, &raw.qdc),
        velc: select(&no_flow, &zeros, &raw.velc),
        depthc: select(&no_flow, &zeros, &raw.depthc),
    };
    proof {
        assert forall|i: int| #[trigger] lane_index(i) implies out.lane(i) == if no_flow@[i] {
            still(zero)
        } else {
            raw.lane(i)
        } by {}
        assert(finished(
            arithmetic.finish,
            *lanes,
            *flows,
            frames.last().values,
            no_flow@,
            zero,
            out,
        ));
        assert(is_run(advance, *lanes, *flows, init@, no_flow@, frames));
    }
    (out, iter)
}

/// The reach whose geometry lane `i` carries in a batch of `len` reaches: its own, and in a
/// padding lane that of the first reach.
pub open spec fn lane_source(i: int, len: int) -> int {
    if i < len {
        i
    } else {
        0
    }
}

/// Lane by lane, `lanes` holds what `derive` makes of the reach that the lane carries.
pub open spec fn laid_out<T, D: Fn(ChannelParams<T>) -> ReachParams<T>>(
    derive: D,
    dt: T,
    params: Seq<ChannelParams<T>>,
    lanes: LaneParams<T>,
) -> bool {
    forall|i: int| #[trigger]
        lane_index(i) ==> {
            &&& lanes.dt@[i] == dt
            &&& call_ensures(
                derive,
                (params[lane_source(i, params.len() as int)],),
                lanes.lane(i),
            )
        }
}

impl<T: Copy> LaneParams<T> {
    /// Build lane parameters from up to `LANES` reaches; `derive` computes one reach's constants.
    ///
    /// Short batches are padded with a harmless copy of the first reach; the caller keeps those
    /// lanes inactive by passing zero flows, and discards their outputs.
    pub fn build<D: Fn(ChannelParams<T>) -> ReachParams<T>>(
        dt: T,
        params: &[ChannelParams<T>],
        zero: T,
        derive: &D,
    ) -> (lanes: LaneParams<T>)
        requires
            params@.len() > 0,
            forall|p: ChannelParams<T>| #[trigger] call_requires(*derive, (p,)),
        ensures
            laid_out(*derive, dt, params@, lanes),
    {
        let mut lanes = LaneParams {
            dt: [dt; LANES],
            dx: [zero; LANES],
            n: [zero; LANES],
            n_cc: [zero; LANES],
            so: [zero; LANES],
            bw: [zero; LANES],
            tw_cc: [zero; LANES],
            z: [zero; LANES],
            bfd: [zero; LANES],
            sqrt_1_z2: [zero; LANES],
            sqrt_so: [zero; LANES],
            sqrt_so_n: [zero; LANES],
            sqrt_so_ncc: [zero; LANES],
            bw_2bfd_z: [zero; LANES],
            two_sqrt_1_z2: [zero; LANES],
        };
        let mut i: usize = 0;
        while i < LANES
            invariant
                i <= LANES,
                params@.len() > 0,
                forall|p: ChannelParams<T>| #[trigger] call_requires(*derive, (p,)),
                forall|k: int| 0 <= k < LANES ==> #[trigger] lanes.dt@[k] == dt,
                forall|k: int|
                    #![trigger lanes.lane(k)]
                    0 <= k < i ==> call_ensures(
                        *derive,
                        (params@[lane_source(k, params@.len() as int)],),
                        lanes.lane(k),
                    ),
            decreases LANES - i,
        {
            let ghost before = lanes;
            let source: usize = if i < params.len() {
                i
            } else {
                0
            };
            let reach = derive(params[source]);
            lanes.dx[i] = reach.dx;
            lanes.n[i] = reach.n;
            lanes.n_cc[i] = reach.n_cc;
            lanes.so[i] = reach.so;
            lanes.bw[i] = reach.bw;
            lanes.tw_cc[i] = reach.tw_cc;
            lanes.z[i] = reach.z;
            lanes.bfd[i] = reach.bfd;
            lanes.sqrt_1_z2[i] = reach.sqrt_1_z2;
            lanes.sqrt_so[i] = reach.sqrt_so;
            lanes.sqrt_so_n[i] = reach.sqrt_so_n;
            lanes.sqrt_so_ncc[i] = reach.sqrt_so_ncc;
            lanes.bw_2bfd_z[i] = reach.bw_2bfd_z;
            lanes.two_sqrt_1_z2[i] = reach.two_sqrt_1_z2;
            proof {
                assert(lanes.lane(i as int) == reach);
                assert forall|k: int|
                    #![trigger lanes.lane(k)]
                    0 <= k < i implies lanes.lane(k) == before.lane(k) by {}
            }
            i += 1;
        }
        lanes
    }
}

/// A third of the exponent, on the bits of a positive 32-bit float.
pub open spec fn cube_seed(bits: u32) -> int {
    bits as int / 3 + 709_921_077
}

/// Start value for the Newton cube root: a third of the exponent, on the bits of a positive
/// 32-bit float.
pub fn cube_root_seed(bits: u32) -> (seed: u32)
    ensures
        seed == cube_seed(bits),
{
    bits / 3 + 709_921_077
}

} // verus!
