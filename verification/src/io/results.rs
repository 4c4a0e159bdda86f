//! What a routed reach leaves behind: one hydrograph each of flow, velocity and depth.

use vstd::prelude::*;

verus! {

/// The routed series of one reach, one entry per timestep.
pub struct SimulationResults<T> {
    pub feature_id: u32,
    pub flow_data: Vec<T>,
    pub velocity_data: Vec<T>,
    pub depth_data: Vec<T>,
}

impl<T> SimulationResults<T> {
    /// Empty results for one reach.
    pub fn new(feature_id: u32) -> (results: Self)
        ensures
            results.feature_id == feature_id,
            results.flow_data@ == Seq::<T>::empty(),
            results.velocity_data@ == Seq::<T>::empty(),
            results.depth_data@ == Seq::<T>::empty(),
    {
        SimulationResults {
            feature_id,
            flow_data: Vec::new(),
            velocity_data: Vec::new(),
            depth_data: Vec::new(),
        }
    }

    /// Appends one timestep.
    pub fn record(&mut self, flow: T, velocity: T, depth: T)
        ensures
            final(self).feature_id == old(self).feature_id,
            final(self).flow_data@ == old(self).flow_data@.push(flow),
            final(self).velocity_data@ == old(self).velocity_data@.push(velocity),
            final(self).depth_data@ == old(self).depth_data@.push(depth),
    {
        self.flow_data.push(flow);
        self.velocity_data.push(velocity);
        self.depth_data.push(depth);
    }
}

/// `len` copies of `value`.
pub open spec fn repeated<T>(value: T, len: nat) -> Seq<T> {
    Seq::new(len, |i: int| value)
}

pub(crate) fn filled<T: Copy>(value: T, len: usize) -> (values: Vec<T>)
    ensures
        values@ == repeated(value, len as nat),
{
    let mut values: Vec<T> = Vec::with_capacity(len);
    while values.len() < len
        invariant
            values@.len() <= len,
            values@ == repeated(value, values@.len()),
        decreases len - values@.len(),
    {
        values.push(value);
    }
    values
}

/// A reach without any inflow routes to zeros.
pub fn zero_results<T: Copy>(feature_id: u32, max_timesteps: usize, zero: T) -> (results:
    SimulationResults<T>)
    ensures
        results.feature_id == feature_id,
        results.flow_data@ == repeated(zero, max_timesteps as nat),
        results.velocity_data@ == repeated(zero, max_timesteps as nat),
        results.depth_data@ == repeated(zero, max_timesteps as nat),
{
    SimulationResults {
        feature_id,
        flow_data: filled(zero, max_timesteps),
        velocity_data: filled(zero, max_timesteps),
        depth_data: filled(zero, max_timesteps),
    }
}

/// Every `factor`-th entry, the last of each full block of `factor`; all of them for a factor
/// of 0 or 1.
pub open spec fn sampled<T>(data: Seq<T>, len: nat, factor: nat) -> Seq<T> {
    if factor <= 1 {
        data
    } else {
        Seq::new(len / factor, |k: int| data[(k + 1) * factor - 1])
    }
}

/// `output` is `results` of the same reach, all three series sampled at the positions that the
/// flow series has.
pub open spec fn downsampled<T>(
    results: SimulationResults<T>,
    factor: nat,
    output: SimulationResults<T>,
) -> bool {
    let len = results.flow_data@.len();
    &&& output.feature_id == results.feature_id
    &&& output.flow_data@ == sampled(results.flow_data@, len, factor)
    &&& output.velocity_data@ == sampled(results.velocity_data@, len, factor)
    &&& output.depth_data@ == sampled(results.depth_data@, len, factor)
}

/// Downsample full-resolution results to output frequency.
///
/// All three series are sampled at the positions that the flow series has.
pub fn downsample_results<T: Copy>(results: SimulationResults<T>, downsampling: usize) -> (sampled_results:
    SimulationResults<T>)
    requires
        downsampling > 1 ==> {
            let last = (results.flow_data@.len() / downsampling as nat) * downsampling;
            last <= results.velocity_data@.len() && last <= results.depth_data@.len()
        },
    ensures
        downsampled(results, downsampling as nat, sampled_results),
{
    if downsampling <= 1 {
        return results;
    }
    let actual_timesteps: usize = results.flow_data.len();
    let count: usize = actual_timesteps / downsampling;
    let mut flow_data: Vec<T> = Vec::with_capacity(count);
    let mut velocity_data: Vec<T> = Vec::with_capacity(count);
    let mut depth_data: Vec<T> = Vec::with_capacity(count);
    let ghost len = results.flow_data@.len();
    let ghost factor = downsampling as nat;
    let mut k: usize = 0;
    while k < count
        invariant
            downsampling > 1,
            factor == downsampling,
            actual_timesteps == results.flow_data@.len(),
            len == actual_timesteps,
            count == actual_timesteps / downsampling,
            (len / factor) * downsampling <= results.velocity_data@.len(),
            (len / factor) * downsampling <= results.depth_data@.len(),
            k <= count,
            flow_data@ == sampled(results.flow_data@, len, factor).take(k as int),
            velocity_data@ == sampled(results.velocity_data@, len, factor).take(k as int),
            depth_data@ == sampled(results.depth_data@, len, factor).take(k as int),
        decreases count - k,
    {
        proof {
            assert((k + 1) * downsampling <= count * downsampling) by (nonlinear_arith)
                requires
                    k < count,
                    downsampling > 1,
            ;
            assert(count * downsampling <= actual_timesteps) by (nonlinear_arith)
                requires
                    count == actual_timesteps / downsampling,
                    downsampling > 1,
            ;
            assert((k + 1) * downsampling >= downsampling) by (nonlinear_arith)
                requires
                    k >= 0,
                    downsampling > 1,
            ;
        }
        let i: usize = (k + 1) * downsampling - 1;
        flow_data.push(results.flow_data[i]);
        velocity_data.push(results.velocity_data[i]);
        depth_data.push(results.depth_data[i]);
        k += 1;
    }
    proof {
        assert(sampled(results.flow_data@, len, factor).take(k as int) =~= sampled(
            results.flow_data@,
            len,
            factor,
        ));
        assert(sampled(results.velocity_data@, len, factor).take(k as int) =~= sampled(
            results.velocity_data@,
            len,
            factor,
        ));
        assert(sampled(results.depth_data@, len, factor).take(k as int) =~= sampled(
            results.depth_data@,
            len,
            factor,
        ));
    }
    SimulationResults { feature_id: results.feature_id, flow_data, velocity_data, depth_data }
}

} // verus!
