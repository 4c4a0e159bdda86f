//! What passes from node to node, and from a node to the output.

use crate::io::results::{downsampled, repeated, sampled, SimulationResults};
use crate::network::NetworkTopology;
use crate::routing::node::{
    handed, inflow_added, looked_up, or_zeros, prepared, receiver, settled, NodeForcing, NodeWork,
    PrepareError,
};
use crate::routing::run_laws::RunInput;
use crate::routing::worker::all_zero;
use vstd::prelude::*;

verus! {

/// The flow of a node goes to its downstream node wherever both are in the network, whatever their
/// ids are, and nowhere otherwise.
pub proof fn law_flow_goes_to_the_downstream_node<A>(topology: NetworkTopology<A>, id: u32)
    ensures
        ({
            let nodes = topology.nodes@;
            &&& nodes.contains_key(id) && nodes.contains_key(nodes[id].downstream_id) ==> receiver(
                topology,
                id,
            ) == Some(nodes[id].downstream_id)
            &&& !nodes.contains_key(id) || !nodes.contains_key(nodes[id].downstream_id)
                ==> receiver(topology, id) is None
        }),
{
}

/// The nodes whose flow a node takes are exactly those with channel parameters that have it as
/// their downstream node, which are those whose receiver it is.
pub proof fn law_contributors_are_those_that_drain_here<T, A>(
    topology: NetworkTopology<A>,
    input: RunInput<T>,
    id: u32,
    u: u32,
)
    requires
        input.net == topology.drainage(),
        topology.nodes@.contains_key(id),
    ensures
        input.contributors(id).contains(u) <==> topology.nodes@.contains_key(u)
            && input.channels.contains_key(u) && topology.nodes@[u].downstream_id == id,
        input.contributors(id).contains(u) <==> input.channels.contains_key(u) && receiver(
            topology,
            u,
        ) == Some(id),
        input.routed(u) <==> topology.nodes@.contains_key(u) && input.channels.contains_key(u),
{
}

/// The scheduler sees the network as it is: the same nodes, each with its downstream node and with
/// the number of upstream nodes on record, which is 0 where there is no record.
pub proof fn law_the_scheduler_sees_the_network<A>(topology: NetworkTopology<A>, id: u32, u: u32)
    ensures
        ({
            let net = topology.drainage();
            &&& net.contains(id) <==> topology.nodes@.contains_key(id)
            &&& topology.nodes@.contains_key(id) ==> net.downstream[id]
                == topology.nodes@[id].downstream_id
            &&& topology.upstream_counts@.contains_key(id) ==> net.count(id)
                == topology.upstream_counts@[id]
            &&& !topology.upstream_counts@.contains_key(id) ==> net.count(id) == 0
            &&& net.upstreams(id).contains(u) <==> topology.nodes@.contains_key(u)
                && topology.nodes@[u].downstream_id == id
        }),
{
}

/// Inflow that is there is routed as it is, and inflow that is missing as zeros over the whole
/// simulation.
pub proof fn law_missing_inflow_is_zeros<T>(
    inflow: Seq<T>,
    forcing: Seq<T>,
    steps: nat,
    zero: T,
    work: NodeWork<T>,
    t: int,
)
    requires
        settled(inflow, forcing, steps, zero, work),
    ensures
        inflow.len() > 0 ==> work.inflow@ == inflow,
        inflow.len() == 0 ==> work.inflow@.len() == steps,
        inflow.len() == 0 && 0 <= t < steps ==> work.inflow@[t] == zero,
        forcing.len() > 0 ==> work.external@ == forcing,
        forcing.len() == 0 ==> work.external@.len() == steps,
        forcing.len() == 0 && 0 <= t < steps ==> work.external@[t] == zero,
{
}

/// The timesteps are spread evenly over the intervals of the lateral inflow: as many to each as all
/// of them can have, and at least one.
pub proof fn law_timesteps_are_spread_evenly<T>(
    inflow: Seq<T>,
    forcing: Seq<T>,
    steps: nat,
    zero: T,
    work: NodeWork<T>,
)
    requires
        settled(inflow, forcing, steps, zero, work),
        work.external@.len() >= 2,
    ensures
        ({
            let intervals = work.external@.len() - 1;
            &&& work.upsampling >= 1
            &&& steps < (work.upsampling + 1) * intervals
            &&& steps >= intervals ==> work.upsampling * intervals <= steps
            &&& steps < intervals ==> work.upsampling == 1
        }),
{
    let intervals = work.external@.len() - 1;
    let each = steps as int / intervals;
    vstd::arithmetic::div_mod::lemma_fundamental_div_mod(steps as int, intervals);
    assert(each * intervals <= steps < (each + 1) * intervals) by (nonlinear_arith)
        requires
            steps == intervals * each + steps as int % intervals,
            0 <= steps as int % intervals < intervals,
    ;
    if steps < intervals {
        assert(each < 1) by (nonlinear_arith)
            requires
                each * intervals <= steps,
                steps < intervals,
                intervals > 0,
        ;
        assert((1 + 1) * intervals == 2 * intervals);
    } else {
        assert(each >= 1) by (nonlinear_arith)
            requires
                steps < (each + 1) * intervals,
                steps >= intervals,
                intervals > 0,
        ;
    }
}

/// A node's flow is added to the inflow below entry by entry: to zeros as long as the flow where
/// nothing was there, otherwise to what was there, which keeps its length and the entries past the
/// flow.
pub proof fn law_inflow_is_added_entry_by_entry<T, P: Fn(T, T) -> T>(
    plus: P,
    before: Seq<T>,
    flows: Seq<T>,
    zero: T,
    after: Seq<T>,
    i: int,
)
    requires
        inflow_added(plus, before, flows, zero, after),
    ensures
        before.len() == 0 ==> after.len() == flows.len(),
        before.len() > 0 ==> after.len() == before.len(),
        before.len() == 0 && 0 <= i < after.len() ==> call_ensures(
            plus,
            (zero, flows[i]),
            after[i],
        ),
        before.len() > 0 && 0 <= i < after.len() && i < flows.len() ==> call_ensures(
            plus,
            (before[i], flows[i]),
            after[i],
        ),
        before.len() > 0 && flows.len() <= i < after.len() ==> after[i] == before[i],
{
    if 0 <= i < after.len() {
        let entry = after[i];
        if before.len() == 0 {
            assert(or_zeros(before, flows.len(), zero)[i] == zero);
        }
    }
}

/// The output of a series takes the last entry of each full block of `factor`, and nothing of a
/// block that is not full; a factor of 0 or 1 takes all entries.
pub proof fn law_the_last_of_each_block_is_kept<T>(data: Seq<T>, factor: nat, k: int)
    ensures
        ({
            let output = sampled(data, data.len(), factor);
            &&& factor <= 1 ==> output == data
            &&& factor > 1 ==> output.len() * factor <= data.len() < (output.len() + 1) * factor
            &&& factor > 1 && 0 <= k < output.len() ==> 0 <= k * factor + factor - 1 < data.len()
                && output[k] == data[k * factor + factor - 1]
        }),
{
    let output = sampled(data, data.len(), factor);
    if factor > 1 {
        let (len, f, n) = (data.len() as int, factor as int, output.len() as int);
        vstd::arithmetic::div_mod::lemma_fundamental_div_mod(len, f);
        assert(n * f <= len < (n + 1) * f) by (nonlinear_arith)
            requires
                len == f * n + len % f,
                0 <= len % f < f,
        ;
        assert((k + 1) * f == k * f + f) by (nonlinear_arith);
        if 0 <= k < n {
            assert(0 <= k * f && k * f + f <= n * f) by (nonlinear_arith)
                requires
                    0 <= k < n,
                    f > 1,
            ;
        }
    }
}

/// A node that routes to zeros has all three series at zero over the whole simulation.
pub proof fn law_zeros_are_zeros_throughout<T>(
    results: SimulationResults<T>,
    id: u32,
    steps: nat,
    zero: T,
    t: int,
)
    requires
        all_zero(results, id, steps, zero),
    ensures
        results.feature_id == id,
        results.flow_data@.len() == steps,
        results.velocity_data@.len() == steps,
        results.depth_data@.len() == steps,
        0 <= t < steps ==> results.flow_data@[t] == zero && results.velocity_data@[t] == zero
            && results.depth_data@[t] == zero,
        repeated(zero, steps).len() == steps,
        0 <= t < steps ==> repeated(zero, steps)[t] == zero,
{
}

/// A node's file and area are found wherever the node is in the network and its area is known, and
/// they are the node's own; otherwise the error says which of the two is missing, and of which
/// node.
pub proof fn law_nodes_are_looked_up_by_their_id<A>(
    topology: NetworkTopology<A>,
    id: u32,
    forcing: Result<NodeForcing<A>, PrepareError>,
)
    requires
        looked_up(topology, id, forcing),
    ensures
        ({
            let nodes = topology.nodes@;
            &&& !nodes.contains_key(id) ==> forcing == Err::<NodeForcing<A>, PrepareError>(
                PrepareError::NodeNotFound { node_id: id },
            )
            &&& nodes.contains_key(id) && nodes[id].area_sqkm is None ==> forcing == Err::<
                NodeForcing<A>,
                PrepareError,
            >(PrepareError::NoArea { node_id: id })
            &&& nodes.contains_key(id) && nodes[id].area_sqkm is Some ==> forcing == Ok::<
                NodeForcing<A>,
                PrepareError,
            >(
                NodeForcing {
                    qlat_file: nodes[id].qlat_file,
                    area_sqkm: nodes[id].area_sqkm->0,
                },
            )
        }),
{
}

/// A node is left out of the kernel exactly where it has neither upstream nor lateral inflow, and
/// refused exactly where its lateral inflow is a single value, by its own id and file. Any other
/// node is routed, on what its inflows are settled to.
pub proof fn law_nodes_with_inflow_are_routed<T>(
    id: u32,
    file: Seq<char>,
    inflow: Seq<T>,
    forcing: Seq<T>,
    steps: nat,
    zero: T,
    work: Result<Option<NodeWork<T>>, PrepareError>,
)
    requires
        prepared(id, file, inflow, forcing, steps, zero, work),
    ensures
        inflow.len() == 0 && forcing.len() == 0 ==> work == Ok::<
            Option<NodeWork<T>>,
            PrepareError,
        >(None),
        forcing.len() == 1 ==> {
            work matches Err(PrepareError::SingleFlow { node_id, qlat_file }) && node_id == id
                && qlat_file@ == file
        },
        forcing.len() >= 2 || forcing.len() == 0 && inflow.len() > 0 ==> {
            work matches Ok(Some(w)) && settled(inflow, forcing, steps, zero, w)
        },
{
}

/// The results of a node keep its id, and all three series are thinned at the same timesteps: the
/// last of each full block of `factor`.
pub proof fn law_output_keeps_the_series_in_step<T>(
    results: SimulationResults<T>,
    factor: nat,
    output: SimulationResults<T>,
    steps: nat,
    k: int,
)
    requires
        downsampled(results, factor, output),
        results.flow_data@.len() == steps,
        results.velocity_data@.len() == steps,
        results.depth_data@.len() == steps,
    ensures
        output.feature_id == results.feature_id,
        factor <= 1 ==> output.flow_data@ == results.flow_data@ && output.velocity_data@
            == results.velocity_data@ && output.depth_data@ == results.depth_data@,
        factor > 1 ==> output.flow_data@.len() == output.velocity_data@.len()
            && output.flow_data@.len() == output.depth_data@.len(),
        factor > 1 ==> output.flow_data@.len() * factor <= steps < (output.flow_data@.len() + 1)
            * factor,
        factor > 1 && 0 <= k < output.flow_data@.len() ==> {
            let t = k * factor + factor - 1;
            &&& output.flow_data@[k] == results.flow_data@[t]
            &&& output.velocity_data@[k] == results.velocity_data@[t]
            &&& output.depth_data@[k] == results.depth_data@[t]
        },
{
    law_the_last_of_each_block_is_kept(results.flow_data@, factor, k);
    law_the_last_of_each_block_is_kept(results.velocity_data@, factor, k);
    law_the_last_of_each_block_is_kept(results.depth_data@, factor, k);
}

/// A finished node hands its flow of every timestep to the node below, where there is one, entry
/// by entry and before anything is thinned; only the output is thinned.
pub proof fn law_the_full_flow_goes_downstream<T, P: Fn(T, T) -> T>(
    plus: P,
    results: SimulationResults<T>,
    before: Option<Vec<T>>,
    downsampling: nat,
    zero: T,
    after: Option<Vec<T>>,
    output: SimulationResults<T>,
    t: int,
)
    requires
        handed(plus, results, before, downsampling, zero, after, output),
    ensures
        after is Some <==> before is Some,
        before is Some && before->0@.len() == 0 ==> after->0@.len() == results.flow_data@.len(),
        before is Some && before->0@.len() > 0 ==> after->0@.len() == before->0@.len(),
        before is Some && before->0@.len() == 0 && 0 <= t < results.flow_data@.len()
            ==> call_ensures(plus, (zero, results.flow_data@[t]), after->0@[t]),
        before is Some && 0 <= t < before->0@.len() && t < results.flow_data@.len()
            ==> call_ensures(plus, (before->0@[t], results.flow_data@[t]), after->0@[t]),
        before is Some && results.flow_data@.len() <= t < before->0@.len() ==> after->0@[t]
            == before->0@[t],
        downsampled(results, downsampling, output),
{
    if before is Some {
        law_inflow_is_added_entry_by_entry(
            plus,
            before->0@,
            results.flow_data@,
            zero,
            after->0@,
            t,
        );
    }
}

} // verus!
