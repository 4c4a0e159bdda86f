//! Routing one node, or one batch of nodes, over the whole simulation.

use crate::config::ChannelParams;
use crate::io::results::{
    downsample_results, downsampled, filled, repeated, SimulationResults,
};
use crate::kernel::muskingum::rs_route::mc_kernel_simd::{
    callable, laid_out, lane_index, no_flows, step, stepped, LaneArithmetic, LaneFlows, LaneInput,
    LaneParams, LaneResult, LaneValues, ReachParams, StepFlows, LANES,
};
use crate::kernel::muskingum::{MuskingumCungeInput, MuskingumCungeResult};
use crate::network::NetworkTopology;
use vstd::prelude::*;

verus! {

/// A node's resolved inputs: the upstream hydrograph and the lateral-flow series, the former
/// indexed by internal timestep.
pub struct NodeWork<T> {
    pub inflow: Vec<T>,
    pub external: Vec<T>,
    /// Internal timesteps per external (forcing) timestep.
    pub upsampling: usize,
}

/// Why a node cannot be routed.
pub enum PrepareError {
    NodeNotFound { node_id: u32 },
    NoArea { node_id: u32 },
    /// A single value leaves no interval to spread over the timesteps.
    SingleFlow { node_id: u32, qlat_file: String },
}

/// Where a node's lateral inflow comes from, and the area it falls on.
pub struct NodeForcing<A> {
    pub qlat_file: String,
    pub area_sqkm: A,
}

/// What looking a node up comes to: its file and its area, or what is missing.
pub open spec fn looked_up<A>(
    topology: NetworkTopology<A>,
    node_id: u32,
    forcing: Result<NodeForcing<A>, PrepareError>,
) -> bool {
    match forcing {
        Ok(f) => {
            &&& topology.nodes@.contains_key(node_id)
            &&& topology.nodes@[node_id].area_sqkm == Some(f.area_sqkm)
            &&& topology.nodes@[node_id].qlat_file == f.qlat_file
        },
        Err(PrepareError::NodeNotFound { node_id: id }) => {
            id == node_id && !topology.nodes@.contains_key(node_id)
        },
        Err(PrepareError::NoArea { node_id: id }) => {
            &&& id == node_id
            &&& topology.nodes@.contains_key(node_id)
            &&& topology.nodes@[node_id].area_sqkm is None
        },
        Err(PrepareError::SingleFlow { .. }) => false,
    }
}

/// Looks a node up and finds what is needed to load its lateral inflow.
pub fn node_forcing<A: Copy>(node_id: u32, topology: &NetworkTopology<A>) -> (forcing: Result<
    NodeForcing<A>,
    PrepareError,
>)
    ensures
        looked_up(*topology, node_id, forcing),
{
    match topology.node(node_id) {
        None => Err(PrepareError::NodeNotFound { node_id }),
        Some(node) => match node.area_sqkm {
            None => Err(PrepareError::NoArea { node_id }),
            Some(area_sqkm) => Ok(NodeForcing { qlat_file: node.qlat_file.clone(), area_sqkm }),
        },
    }
}

/// The series itself, or `len` zeros where there is none.
pub open spec fn or_zeros<T>(series: Seq<T>, len: nat, zero: T) -> Seq<T> {
    if series.len() == 0 {
        repeated(zero, len)
    } else {
        series
    }
}

/// Internal timesteps per forcing interval. The forcing series has one value more than it has
/// intervals; there is at least one timestep per interval.
pub open spec fn upsampling_for(max_timesteps: nat, external_len: nat) -> nat
    recommends
        external_len >= 2,
{
    let steps = max_timesteps / ((external_len - 1) as nat);
    if steps < 1 {
        1
    } else {
        steps
    }
}

/// `work` is what a node's upstream inflow and lateral inflow are settled to.
pub open spec fn settled<T>(
    inflow: Seq<T>,
    external_flows: Seq<T>,
    max_timesteps: nat,
    zero: T,
    work: NodeWork<T>,
) -> bool {
    let external = or_zeros(external_flows, max_timesteps, zero);
    &&& work.inflow@ == or_zeros(inflow, max_timesteps, zero)
    &&& work.external@ == external
    &&& work.upsampling == upsampling_for(max_timesteps, external.len())
}

/// What settling a node's inputs comes to: nothing to route without any inflow, an error where
/// the lateral inflow is a single value, otherwise what the two are settled to.
pub open spec fn prepared<T>(
    node_id: u32,
    qlat_file: Seq<char>,
    inflow: Seq<T>,
    external_flows: Seq<T>,
    max_timesteps: nat,
    zero: T,
    work: Result<Option<NodeWork<T>>, PrepareError>,
) -> bool {
    match work {
        Ok(None) => inflow.len() == 0 && external_flows.len() == 0,
        Ok(Some(w)) => {
            &&& external_flows.len() != 1
            &&& inflow.len() > 0 || external_flows.len() > 0
            &&& settled(inflow, external_flows, max_timesteps, zero, w)
            &&& w.upsampling > 0
        },
        Err(PrepareError::SingleFlow { node_id: id, qlat_file: file }) => {
            id == node_id && file@ == qlat_file && external_flows.len() == 1
        },
        Err(_) => false,
    }
}

/// Settles a node's inputs once its lateral inflow is loaded and its upstream inflow complete.
///
/// `None` when the node has neither, which routes to all zeros. A headwater has zero upstream
/// inflow, a node without forcing zero lateral inflow.
pub fn prepare_node<T: Copy>(
    node_id: u32,
    qlat_file: &String,
    inflow: Vec<T>,
    external_flows: Vec<T>,
    max_timesteps: usize,
    zero: T,
) -> (work: Result<Option<NodeWork<T>>, PrepareError>)
    requires
        inflow@.len() > 0 && external_flows@.len() == 0 ==> max_timesteps >= 2,
    ensures
        prepared(
            node_id,
            qlat_file@,
            inflow@,
            external_flows@,
            max_timesteps as nat,
            zero,
            work,
        ),
{
    if inflow.len() == 0 && external_flows.len() == 0 {
        return Ok(None);
    }
    let inflow: Vec<T> = if inflow.len() == 0 {
        filled(zero, max_timesteps)
    } else {
        inflow
    };
    let external: Vec<T> = if external_flows.len() == 0 {
        filled(zero, max_timesteps)
    } else if external_flows.len() == 1 {
        return Err(PrepareError::SingleFlow { node_id, qlat_file: qlat_file.clone() });
    } else {
        external_flows
    };
    let steps: usize = max_timesteps / (external.len() - 1);
    let upsampling: usize = if steps < 1 {
        1
    } else {
        steps
    };
    Ok(Some(NodeWork { inflow, external, upsampling }))
}

/// The entry at `i`, zero past the end.
pub open spec fn at_or_zero<T>(series: Seq<T>, i: int, zero: T) -> T {
    if 0 <= i < series.len() {
        series[i]
    } else {
        zero
    }
}

fn get_or_zero<T: Copy>(series: &Vec<T>, i: usize, zero: T) -> (value: T)
    ensures
        value == at_or_zero(series@, i as int, zero),
{
    if i < series.len() {
        series[i]
    } else {
        zero
    }
}

impl<T> NodeWork<T> {
    /// What timestep `t` starts from, given the flows and depths routed so far: upstream flow
    /// of this and the previous timestep, lateral inflow of the forcing interval that `t` falls
    /// in, and the node's own flow and depth of the previous timestep, all zero before the start.
    pub open spec fn step_flows(self, flow: Seq<T>, depth: Seq<T>, t: int, zero: T) -> StepFlows<T> {
        StepFlows {
            qup: at_or_zero(self.inflow@, t - 1, zero),
            quc: at_or_zero(self.inflow@, t, zero),
            qdp: at_or_zero(flow, t - 1, zero),
            ql: at_or_zero(self.external@, t / self.upsampling as int, zero),
            depthp: at_or_zero(depth, t - 1, zero),
        }
    }
}

/// One kernel call: the channel, with its bed slope floored to `s0`, and the flows of a step.
pub open spec fn kernel_input<T>(
    dt: T,
    channel: ChannelParams<T>,
    s0: T,
    flows: StepFlows<T>,
    zero: T,
) -> MuskingumCungeInput<T> {
    MuskingumCungeInput {
        dt,
        qup: flows.qup,
        quc: flows.quc,
        qdp: flows.qdp,
        ql: flows.ql,
        dx: channel.dx,
        bw: channel.bw,
        tw: channel.tw,
        tw_cc: channel.twcc,
        n: channel.n,
        n_cc: channel.ncc,
        cs: channel.cs,
        s0,
        velp: zero,
        depthp: flows.depthp,
    }
}

impl<T> SimulationResults<T> {
    /// The three series have `steps` entries each.
    pub open spec fn covers(self, steps: nat) -> bool {
        &&& self.flow_data@.len() == steps
        &&& self.velocity_data@.len() == steps
        &&& self.depth_data@.len() == steps
    }

    pub open spec fn at(self, t: int) -> MuskingumCungeResult<T> {
        MuskingumCungeResult {
            qdc: self.flow_data@[t],
            velc: self.velocity_data@[t],
            depthc: self.depth_data@[t],
        }
    }
}

/// `results` is what calling `kernel` timestep by timestep gives: every entry is a result of
/// the kernel on the inputs of its timestep.
pub open spec fn routed_by<T, K: Fn(MuskingumCungeInput<T>) -> MuskingumCungeResult<T>>(
    kernel: K,
    dt: T,
    channel: ChannelParams<T>,
    s0: T,
    work: NodeWork<T>,
    zero: T,
    results: SimulationResults<T>,
) -> bool {
    forall|t: int|
        #![trigger results.at(t)]
        0 <= t < results.flow_data@.len() ==> call_ensures(
            kernel,
            (
                kernel_input(
                    dt,
                    channel,
                    s0,
                    work.step_flows(results.flow_data@, results.depth_data@, t, zero),
                    zero,
                ),
            ),
            results.at(t),
        )
}

/// `results` is what routing one node on its own gives, with the bed slope floored first.
pub open spec fn routed_alone<
    T,
    F: Fn(T) -> T,
    K: Fn(MuskingumCungeInput<T>) -> MuskingumCungeResult<T>,
>(
    floor_slope: F,
    kernel: K,
    dt: T,
    channel: ChannelParams<T>,
    work: NodeWork<T>,
    zero: T,
    results: SimulationResults<T>,
) -> bool {
    exists|s0: T| #[trigger]
        call_ensures(floor_slope, (channel.s0,), s0) && routed_by(
            kernel,
            dt,
            channel,
            s0,
            work,
            zero,
            results,
        )
}

/// Route one node, one timestep at a time, through a scalar kernel.
///
/// `floor_slope` keeps the bed slope away from zero.
pub fn route_node_scalar<
    T: Copy,
    F: Fn(T) -> T,
    K: Fn(MuskingumCungeInput<T>) -> MuskingumCungeResult<T>,
>(
    floor_slope: &F,
    kernel: &K,
    feature_id: u32,
    work: &NodeWork<T>,
    channel_params: &ChannelParams<T>,
    max_timesteps: usize,
    dt: T,
    zero: T,
) -> (results: SimulationResults<T>)
    requires
        max_timesteps > 0 ==> work.upsampling > 0,
        forall|s: T| #[trigger] call_requires(*floor_slope, (s,)),
        forall|input: MuskingumCungeInput<T>| #[trigger] call_requires(*kernel, (input,)),
    ensures
        results.feature_id == feature_id,
        results.covers(max_timesteps as nat),
        routed_alone(*floor_slope, *kernel, dt, *channel_params, *work, zero, results),
{
    let s0: T = floor_slope(channel_params.s0);
    let mut results: SimulationResults<T> = SimulationResults::new(feature_id);
    let mut qup: T = zero;
    let mut qdp: T = zero;
    let mut depth_p: T = zero;
    let mut timestep: usize = 0;
    while timestep < max_timesteps
        invariant
            max_timesteps > 0 ==> work.upsampling > 0,
            forall|input: MuskingumCungeInput<T>| #[trigger] call_requires(*kernel, (input,)),
            timestep <= max_timesteps,
            results.feature_id == feature_id,
            results.covers(timestep as nat),
            qup == at_or_zero(work.inflow@, timestep - 1, zero),
            qdp == at_or_zero(results.flow_data@, timestep - 1, zero),
            depth_p == at_or_zero(results.depth_data@, timestep - 1, zero),
            routed_by(*kernel, dt, *channel_params, s0, *work, zero, results),
        decreases max_timesteps - timestep,
    {
        let upstream_flow: T = get_or_zero(&work.inflow, timestep, zero);
        let external_flow: T = get_or_zero(&work.external, timestep / work.upsampling, zero);
        let input = MuskingumCungeInput {
            dt,
            qup,
            quc: upstream_flow,
            qdp,
            ql: external_flow,
            dx: channel_params.dx,
            bw: channel_params.bw,
            tw: channel_params.tw,
            tw_cc: channel_params.twcc,
            n: channel_params.n,
            n_cc: channel_params.ncc,
            cs: channel_params.cs,
            s0,
            velp: zero,
            depthp: depth_p,
        };
        let result = kernel(input);
        let ghost before = results;
        results.record(result.qdc, result.velc, result.depthc);
        proof {
            let now = timestep as int;
            assert forall|t: int|
                #![trigger results.at(t)]
                0 <= t < results.flow_data@.len() implies call_ensures(
                *kernel,
                (
                    kernel_input(
                        dt,
                        *channel_params,
                        s0,
                        work.step_flows(results.flow_data@, results.depth_data@, t, zero),
                        zero,
                    ),
                ),
                results.at(t),
            ) by {
                assert(work.step_flows(results.flow_data@, results.depth_data@, t, zero)
                    == work.step_flows(before.flow_data@, before.depth_data@, t, zero));
                if t < now {
                    assert(before.at(t) == results.at(t));
                }
            }
        }
        qup = upstream_flow;
        qdp = result.qdc;
        depth_p = result.depthc;
        timestep += 1;
    }
    results
}

/// A node ready for the kernel.
pub struct PreparedNode<T> {
    pub node_id: u32,
    pub work: NodeWork<T>,
    pub params: ChannelParams<T>,
}

/// What lane `i` of a batch starts timestep `t` from.
pub open spec fn batch_flows<T>(
    batch: Seq<PreparedNode<T>>,
    results: Seq<SimulationResults<T>>,
    t: int,
    i: int,
    zero: T,
) -> StepFlows<T> {
    if i < batch.len() {
        batch[i].work.step_flows(results[i].flow_data@, results[i].depth_data@, t, zero)
    } else {
        no_flows(zero)
    }
}

/// `out` is what one timestep of the lanes comes to, after however many iterations.
pub open spec fn steps_to<
    T,
    B: Fn(T) -> (T, T),
    N: Fn(T) -> bool,
    A: Fn(LaneInput<T>, LaneValues<T>) -> (LaneValues<T>, bool),
    G: Fn(LaneInput<T>, LaneValues<T>) -> MuskingumCungeResult<T>,
>(
    arithmetic: LaneArithmetic<B, N, A, G>,
    lanes: LaneParams<T>,
    flows: LaneFlows<T>,
    zero: T,
    out: LaneResult<T>,
) -> bool {
    exists|iterations: int| stepped(arithmetic, lanes, flows, zero, out, iterations)
}

/// `results` is what stepping the whole batch timestep by timestep gives: `ins` are the flows
/// that the timesteps start from and `outs` what they come to.
pub open spec fn in_lockstep<
    T,
    B: Fn(T) -> (T, T),
    N: Fn(T) -> bool,
    A: Fn(LaneInput<T>, LaneValues<T>) -> (LaneValues<T>, bool),
    G: Fn(LaneInput<T>, LaneValues<T>) -> MuskingumCungeResult<T>,
>(
    arithmetic: LaneArithmetic<B, N, A, G>,
    lanes: LaneParams<T>,
    batch: Seq<PreparedNode<T>>,
    results: Seq<SimulationResults<T>>,
    steps: nat,
    zero: T,
    ins: Seq<LaneFlows<T>>,
    outs: Seq<LaneResult<T>>,
) -> bool {
    &&& ins.len() == steps
    &&& outs.len() == steps
    &&& forall|t: int|
        #![trigger outs[t]]
        0 <= t < steps ==> steps_to(arithmetic, lanes, ins[t], zero, outs[t])
    &&& forall|t: int, i: int|
        #![trigger ins[t].lane(i)]
        0 <= t < steps && lane_index(i) ==> ins[t].lane(i) == batch_flows(
            batch,
            results,
            t,
            i,
            zero,
        )
    &&& forall|t: int, i: int|
        #![trigger results[i].at(t)]
        0 <= t < steps && 0 <= i < batch.len() ==> results[i].at(t) == outs[t].lane(i)
}

/// One result per node of the batch, in the batch's order, over all timesteps.
pub open spec fn answers<T>(
    batch: Seq<PreparedNode<T>>,
    results: Seq<SimulationResults<T>>,
    steps: nat,
) -> bool {
    &&& results.len() == batch.len()
    &&& forall|i: int|
        #![trigger results[i]]
        0 <= i < batch.len() ==> results[i].feature_id == batch[i].node_id && results[i].covers(
            steps,
        )
}

/// The channel geometry of a batch.
pub open spec fn batch_params<T>(batch: Seq<PreparedNode<T>>) -> Seq<ChannelParams<T>> {
    Seq::new(batch.len(), |i: int| batch[i].params)
}

/// `results` is what routing a batch in lockstep gives, with the lane parameters that `derive`
/// makes of the batch's channels.
pub open spec fn routed_together<
    T,
    D: Fn(ChannelParams<T>) -> ReachParams<T>,
    B: Fn(T) -> (T, T),
    N: Fn(T) -> bool,
    A: Fn(LaneInput<T>, LaneValues<T>) -> (LaneValues<T>, bool),
    G: Fn(LaneInput<T>, LaneValues<T>) -> MuskingumCungeResult<T>,
>(
    derive: D,
    arithmetic: LaneArithmetic<B, N, A, G>,
    dt: T,
    batch: Seq<PreparedNode<T>>,
    results: Seq<SimulationResults<T>>,
    steps: nat,
    zero: T,
) -> bool {
    exists|lanes: LaneParams<T>, ins: Seq<LaneFlows<T>>, outs: Seq<LaneResult<T>>|
        laid_out(derive, dt, batch_params(batch), lanes) && #[trigger] in_lockstep(
            arithmetic,
            lanes,
            batch,
            results,
            steps,
            zero,
            ins,
            outs,
        )
}

/// Route up to `LANES` independent nodes together, one timestep at a time.
///
/// The reaches in a batch have no dependency on each other, so they can be stepped in lockstep
/// through the lane kernel. Short batches leave the spare lanes at zero flow.
pub fn route_nodes_simd<
    T: Copy,
    D: Fn(ChannelParams<T>) -> ReachParams<T>,
    B: Fn(T) -> (T, T),
    N: Fn(T) -> bool,
    A: Fn(LaneInput<T>, LaneValues<T>) -> (LaneValues<T>, bool),
    G: Fn(LaneInput<T>, LaneValues<T>) -> MuskingumCungeResult<T>,
>(
    batch: &[PreparedNode<T>],
    max_timesteps: usize,
    dt: T,
    zero: T,
    derive: &D,
    arithmetic: &LaneArithmetic<B, N, A, G>,
) -> (results: Vec<SimulationResults<T>>)
    requires
        0 < batch@.len() <= LANES,
        forall|i: int|
            max_timesteps > 0 && 0 <= i < batch@.len() ==> (
            #[trigger] batch@[i]).work.upsampling > 0,
        forall|p: ChannelParams<T>| #[trigger] call_requires(*derive, (p,)),
        callable(*arithmetic),
    ensures
        answers(batch@, results@, max_timesteps as nat),
        routed_together(*derive, *arithmetic, dt, batch@, results@, max_timesteps as nat, zero),
{
    let mut params: Vec<ChannelParams<T>> = Vec::new();
    let mut results: Vec<SimulationResults<T>> = Vec::new();
    let mut n: usize = 0;
    while n < batch.len()
        invariant
            n <= batch@.len(),
            params@ == batch_params(batch@).take(n as int),
            results@.len() == n,
            forall|i: int|
                #![trigger results@[i]]
                0 <= i < n ==> results@[i].feature_id == batch@[i].node_id && results@[i].covers(0),
        decreases batch@.len() - n,
    {
        params.push(batch[n].params);
        results.push(SimulationResults::new(batch[n].node_id));
        n += 1;
    }
    assert(params@ =~= batch_params(batch@));
    let lanes = LaneParams::build(dt, params.as_slice(), zero, derive);
    let mut qup: [T; LANES] = [zero; LANES];
    let mut qdp: [T; LANES] = [zero; LANES];
    let mut depth_p: [T; LANES] = [zero; LANES];
    let ghost mut ins: Seq<LaneFlows<T>> = Seq::empty();
    let ghost mut outs: Seq<LaneResult<T>> = Seq::empty();
    let mut timestep: usize = 0;
    while timestep < max_timesteps
        invariant
            0 < batch@.len() <= LANES,
            forall|i: int|
                max_timesteps > 0 && 0 <= i < batch@.len() ==> (
                #[trigger] batch@[i]).work.upsampling > 0,
            callable(*arithmetic),
            timestep <= max_timesteps,
            answers(batch@, results@, timestep as nat),
            in_lockstep(*arithmetic, lanes, batch@, results@, timestep as nat, zero, ins, outs),
            forall|i: int|
                #![trigger lane_index(i)]
                lane_index(i) ==> {
                    let flows = batch_flows(batch@, results@, timestep as int, i, zero);
                    qup@[i] == flows.qup && qdp@[i] == flows.qdp && depth_p@[i] == flows.depthp
                },
        decreases max_timesteps - timestep,
    {
        let mut quc: [T; LANES] = [zero; LANES];
        let mut ql: [T; LANES] = [zero; LANES];
        let mut lane: usize = 0;
        while lane < batch.len()
            invariant
                lane <= batch@.len() <= LANES,
                timestep < max_timesteps,
                forall|i: int|
                    max_timesteps > 0 && 0 <= i < batch@.len() ==> (
                    #[trigger] batch@[i]).work.upsampling > 0,
                forall|i: int|
                    #![trigger lane_index(i)]
                    lane_index(i) ==> {
                        let flows = batch_flows(batch@, results@, timestep as int, i, zero);
                        if i < lane {
                            quc@[i] == flows.quc && ql@[i] == flows.ql
                        } else {
                            quc@[i] == zero && ql@[i] == zero
                        }
                    },
            decreases batch@.len() - lane,
        {
            let work = &batch[lane].work;
            quc[lane] = get_or_zero(&work.inflow, timestep, zero);
            ql[lane] = get_or_zero(&work.external, timestep / work.upsampling, zero);
            lane += 1;
        }
        let flows = LaneFlows { qup, quc, qdp, ql, depth_p };
        let (out, iterations) = step(&lanes, &flows, zero, arithmetic);
        assert(stepped(*arithmetic, lanes, flows, zero, out, iterations as int));
        assert(steps_to(*arithmetic, lanes, flows, zero, out));
        let ghost before = results@;
        let mut lane: usize = 0;
        while lane < batch.len()
            invariant
                lane <= batch@.len() <= LANES,
                results@.len() == batch@.len(),
                before.len() == batch@.len(),
                answers(batch@, before, timestep as nat),
                forall|i: int|
                    #![trigger results@[i]]
                    0 <= i < batch@.len() ==> {
                        if i < lane {
                            &&& results@[i].feature_id == before[i].feature_id
                            &&& results@[i].flow_data@ == before[i].flow_data@.push(out.qdc@[i])
                            &&& results@[i].velocity_data@ == before[i].velocity_data@.push(
                                out.velc@[i],
                            )
                            &&& results@[i].depth_data@ == before[i].depth_data@.push(
                                out.depthc@[i],
                            )
                        } else {
                            results@[i] == before[i]
                        }
                    },
                forall|i: int|
                    #![trigger lane_index(i)]
                    lane_index(i) ==> {
                        if i < lane {
                            qup@[i] == quc@[i] && qdp@[i] == out.qdc@[i] && depth_p@[i]
                                == out.depthc@[i]
                        } else {
                            qup@[i] == flows.qup@[i] && qdp@[i] == flows.qdp@[i] && depth_p@[i]
                                == flows.depth_p@[i]
                        }
                    },
            decreases batch@.len() - lane,
        {
            results[lane].record(out.qdc[lane], out.velc[lane], out.depthc[lane]);
            qup[lane] = quc[lane];
            qdp[lane] = out.qdc[lane];
            depth_p[lane] = out.depthc[lane];
            lane += 1;
        }
        proof {
            assert forall|i: int| #[trigger] lane_index(i) implies flows.lane(i) == batch_flows(
                batch@,
                before,
                timestep as int,
                i,
                zero,
            ) by {}
            lemma_lockstep_extends(
                *arithmetic,
                lanes,
                batch@,
                before,
                results@,
                timestep as nat,
                zero,
                ins,
                outs,
                flows,
                out,
            );
            ins = ins.push(flows);
            outs = outs.push(out);
        }
        timestep += 1;
    }
    results
}

/// One more timestep in lockstep.
proof fn lemma_lockstep_extends<
    T,
    B: Fn(T) -> (T, T),
    N: Fn(T) -> bool,
    A: Fn(LaneInput<T>, LaneValues<T>) -> (LaneValues<T>, bool),
    G: Fn(LaneInput<T>, LaneValues<T>) -> MuskingumCungeResult<T>,
>(
    arithmetic: LaneArithmetic<B, N, A, G>,
    lanes: LaneParams<T>,
    batch: Seq<PreparedNode<T>>,
    before: Seq<SimulationResults<T>>,
    after: Seq<SimulationResults<T>>,
    steps: nat,
    zero: T,
    ins: Seq<LaneFlows<T>>,
    outs: Seq<LaneResult<T>>,
    flows: LaneFlows<T>,
    out: LaneResult<T>,
)
    requires
        batch.len() <= LANES,
        answers(batch, before, steps),
        in_lockstep(arithmetic, lanes, batch, before, steps, zero, ins, outs),
        steps_to(arithmetic, lanes, flows, zero, out),
        forall|i: int| #[trigger]
            lane_index(i) ==> flows.lane(i) == batch_flows(batch, before, steps as int, i, zero),
        after.len() == batch.len(),
        forall|i: int|
            #![trigger after[i]]
            0 <= i < batch.len() ==> {
                &&& after[i].feature_id == before[i].feature_id
                &&& after[i].flow_data@ == before[i].flow_data@.push(out.qdc@[i])
                &&& after[i].velocity_data@ == before[i].velocity_data@.push(out.velc@[i])
                &&& after[i].depth_data@ == before[i].depth_data@.push(out.depthc@[i])
            },
    ensures
        answers(batch, after, steps + 1),
        in_lockstep(
            arithmetic,
            lanes,
            batch,
            after,
            steps + 1,
            zero,
            ins.push(flows),
            outs.push(out),
        ),
{
    let ins2 = ins.push(flows);
    let outs2 = outs.push(out);
    assert forall|t: int, i: int|
        #![trigger ins2[t].lane(i)]
        0 <= t < steps + 1 && lane_index(i) implies ins2[t].lane(i) == batch_flows(
        batch,
        after,
        t,
        i,
        zero,
    ) by {
        assert(batch_flows(batch, after, t, i, zero) == batch_flows(batch, before, t, i, zero)) by {
            if i < batch.len() {
                let a = after[i];
                assert(before[i].covers(steps));
            }
        }
        if t < steps {
            assert(ins[t].lane(i) == ins2[t].lane(i));
        }
    }
    assert forall|t: int, i: int|
        #![trigger after[i].at(t)]
        0 <= t < steps + 1 && 0 <= i < batch.len() implies after[i].at(t) == outs2[t].lane(i) by {
        assert(before[i].covers(steps));
        if t < steps {
            assert(before[i].at(t) == after[i].at(t));
        }
    }
    assert forall|t: int| #![trigger outs2[t]] 0 <= t < steps + 1 implies steps_to(
        arithmetic,
        lanes,
        ins2[t],
        zero,
        outs2[t],
    ) by {
        if t < steps {
            assert(outs[t] == outs2[t]);
        }
    }
}

/// The node that `node_id` drains into, if both are in the network.
pub open spec fn receiver<A>(topology: NetworkTopology<A>, node_id: u32) -> Option<u32> {
    if topology.nodes@.contains_key(node_id) && topology.nodes@.contains_key(
        topology.nodes@[node_id].downstream_id,
    ) {
        Some(topology.nodes@[node_id].downstream_id)
    } else {
        None
    }
}

/// Whose inflow buffer takes the flow of `node_id`.
pub fn downstream_of<A>(topology: &NetworkTopology<A>, node_id: u32) -> (id: Option<u32>)
    ensures
        id == receiver(*topology, node_id),
{
    match topology.node(node_id) {
        Some(node) => match topology.node(node.downstream_id) {
            Some(_) => Some(node.downstream_id),
            None => None,
        },
        None => None,
    }
}

/// `after` is `before` with `flows` added entry by entry. An empty buffer counts as zeros as
/// long as `flows`; entries of `flows` past the end of a buffer are dropped.
pub open spec fn inflow_added<T, P: Fn(T, T) -> T>(
    plus: P,
    before: Seq<T>,
    flows: Seq<T>,
    zero: T,
    after: Seq<T>,
) -> bool {
    let base = or_zeros(before, flows.len(), zero);
    &&& after.len() == base.len()
    &&& forall|i: int|
        #![trigger after[i]]
        0 <= i < after.len() ==> if i < flows.len() {
            call_ensures(plus, (base[i], flows[i]), after[i])
        } else {
            after[i] == base[i]
        }
}

/// Adds a finished node's flow to the inflow buffer of the node below it.
pub fn add_inflow<T: Copy, P: Fn(T, T) -> T>(
    buffer: &mut Vec<T>,
    flows: &Vec<T>,
    zero: T,
    plus: &P,
)
    requires
        forall|a: T, b: T| #[trigger] call_requires(*plus, (a, b)),
    ensures
        inflow_added(*plus, old(buffer)@, flows@, zero, final(buffer)@),
{
    if buffer.len() == 0 {
        *buffer = filled(zero, flows.len());
    }
    let ghost base = buffer@;
    assert(base == or_zeros(old(buffer)@, flows@.len(), zero));
    let mut i: usize = 0;
    while i < flows.len() && i < buffer.len()
        invariant
            forall|a: T, b: T| #[trigger] call_requires(*plus, (a, b)),
            i <= flows@.len(),
            i <= base.len(),
            buffer@.len() == base.len(),
            forall|k: int|
                #![trigger buffer@[k]]
                0 <= k < base.len() ==> if k < i {
                    call_ensures(*plus, (base[k], flows@[k]), buffer@[k])
                } else {
                    buffer@[k] == base[k]
                },
        decreases flows@.len() - i,
    {
        let sum = plus(buffer[i], flows[i]);
        buffer[i] = sum;
        i += 1;
    }
}

/// What is handed on of a node's results: to the inflow buffer below, where there is one, and to
/// the writer.
pub open spec fn handed<T, P: Fn(T, T) -> T>(
    plus: P,
    results: SimulationResults<T>,
    before: Option<Vec<T>>,
    downsampling: nat,
    zero: T,
    after: Option<Vec<T>>,
    output: SimulationResults<T>,
) -> bool {
    &&& match (before, after) {
        (Some(b), Some(a)) => inflow_added(plus, b@, results.flow_data@, zero, a@),
        (None, None) => true,
        _ => false,
    }
    &&& downsampled(results, downsampling, output)
}

/// Hands a finished node's results on: its full-resolution flow into the inflow buffer of the
/// node below, where there is one, and the downsampled results to the writer.
pub fn finish_node<T: Copy, P: Fn(T, T) -> T>(
    results: SimulationResults<T>,
    downstream_buffer: Option<Vec<T>>,
    downsampling: usize,
    zero: T,
    plus: &P,
) -> (handed_on: (Option<Vec<T>>, SimulationResults<T>))
    requires
        downsampling > 1 ==> {
            let last = (results.flow_data@.len() / downsampling as nat) * downsampling;
            last <= results.velocity_data@.len() && last <= results.depth_data@.len()
        },
        forall|a: T, b: T| #[trigger] call_requires(*plus, (a, b)),
    ensures
        handed(
            *plus,
            results,
            downstream_buffer,
            downsampling as nat,
            zero,
            handed_on.0,
            handed_on.1,
        ),
{
    let buffer: Option<Vec<T>> = match downstream_buffer {
        Some(buffer) => {
            let mut buffer = buffer;
            add_inflow(&mut buffer, &results.flow_data, zero, plus);
            Some(buffer)
        },
        None => None,
    };
    (buffer, downsample_results(results, downsampling))
}

} // verus!
