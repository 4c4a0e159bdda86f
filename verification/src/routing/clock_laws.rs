//! The routing clock keeps step with the forcing clock.

use crate::cli::{accepted_timestep, law_accepted_timesteps_reconstruct_the_forcing_step};
use crate::config::EXTERNAL_TIMESTEP_SECONDS;
use crate::io::results::sampled;
use crate::routing::node::upsampling_for;
use vstd::prelude::*;

verus! {

/// Internal timesteps per forcing step.
pub open spec fn steps_per_forcing_step(dt: int) -> int {
    EXTERNAL_TIMESTEP_SECONDS as int / dt
}

/// Over a simulation of `hours` forcing steps, each value of the forcing series lasts exactly one
/// forcing step: internal timestep `t` uses the value of the forcing step that its start, `t * dt`
/// seconds in, falls in.
pub proof fn law_forcing_keeps_time(dt: usize, hours: nat, t: nat)
    requires
        accepted_timestep(dt as int),
        hours >= 1,
    ensures
        ({
            let per_step = steps_per_forcing_step(dt as int);
            let upsampling = upsampling_for((hours * per_step) as nat, hours + 1);
            &&& upsampling == per_step
            &&& t as int / upsampling as int == (t * dt) / EXTERNAL_TIMESTEP_SECONDS as int
        }),
{
    let per_step = steps_per_forcing_step(dt as int);
    law_accepted_timesteps_reconstruct_the_forcing_step(dt);
    assert(per_step >= 1) by (nonlinear_arith)
        requires
            per_step * dt == 3600,
            dt > 0,
    ;
    vstd::arithmetic::div_mod::lemma_div_by_multiple(per_step, hours as int);
    assert(hours * per_step == per_step * hours) by (nonlinear_arith);
    vstd::arithmetic::div_mod::lemma_div_denominator(t * dt, dt as int, per_step);
    vstd::arithmetic::div_mod::lemma_div_by_multiple(t as int, dt as int);
    assert(dt * per_step == per_step * dt) by (nonlinear_arith);
}

/// Over a simulation of `hours` forcing steps, the downsampled output has one entry per forcing
/// step, each taken from the internal timestep that ends with it.
pub proof fn law_output_is_one_entry_per_forcing_step<T>(dt: usize, hours: nat, data: Seq<T>, k: int)
    requires
        accepted_timestep(dt as int),
        data.len() == hours * steps_per_forcing_step(dt as int),
        0 <= k < hours,
    ensures
        ({
            let per_step = steps_per_forcing_step(dt as int);
            let output = sampled(data, data.len(), per_step as nat);
            let t = (k + 1) * per_step - 1;
            &&& output.len() == hours
            &&& 0 <= t < data.len()
            &&& output[k] == data[t]
            &&& (t + 1) * dt == (k + 1) * EXTERNAL_TIMESTEP_SECONDS
        }),
{
    let per_step = steps_per_forcing_step(dt as int);
    let t = (k + 1) * per_step - 1;
    law_accepted_timesteps_reconstruct_the_forcing_step(dt);
    assert(per_step >= 1) by (nonlinear_arith)
        requires
            per_step * dt == 3600,
            dt > 0,
    ;
    vstd::arithmetic::div_mod::lemma_div_by_multiple(hours as int, per_step);
    assert(0 <= t < hours * per_step) by (nonlinear_arith)
        requires
            0 <= k < hours,
            per_step >= 1,
            t == (k + 1) * per_step - 1,
    ;
    assert((t + 1) * dt == (k + 1) * (per_step * dt)) by (nonlinear_arith)
        requires
            t + 1 == (k + 1) * per_step,
    ;
    if per_step == 1 {
        assert(hours * per_step == hours && t == k) by (nonlinear_arith)
            requires
                per_step == 1,
                t == (k + 1) * per_step - 1,
        ;
    }
}

} // verus!
