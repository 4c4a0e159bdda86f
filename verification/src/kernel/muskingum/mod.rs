//! The routing kernels and what goes in and out of one step.

pub mod rs_route;

use crate::text::same_text;
use vstd::prelude::*;

verus! {

/// One reach, one timestep: flows in, channel geometry, and the depth the solver starts from.
pub struct MuskingumCungeInput<T> {
    pub dt: T,
    /// Upstream flow of the previous timestep.
    pub qup: T,
    /// Upstream flow of this timestep.
    pub quc: T,
    /// Downstream flow of the previous timestep.
    pub qdp: T,
    /// Lateral inflow.
    pub ql: T,
    pub dx: T,
    pub bw: T,
    pub tw: T,
    pub tw_cc: T,
    pub n: T,
    pub n_cc: T,
    pub cs: T,
    pub s0: T,
    /// Unused by the kernels.
    pub velp: T,
    /// Depth of the previous timestep.
    pub depthp: T,
}

impl<T: Copy> Copy for MuskingumCungeInput<T> {

}

impl<T: Copy> Clone for MuskingumCungeInput<T> {
    fn clone(&self) -> (copy: Self)
        ensures
            copy == *self,
    {
        *self
    }
}

/// Flow, velocity and depth at the downstream end of a reach.
pub struct MuskingumCungeResult<T> {
    pub qdc: T,
    pub velc: T,
    pub depthc: T,
}

impl<T: Copy> Copy for MuskingumCungeResult<T> {

}

impl<T: Copy> Clone for MuskingumCungeResult<T> {
    fn clone(&self) -> (copy: Self)
        ensures
            copy == *self,
    {
        *self
    }
}

/// The kernels a run can choose from.
#[derive(Debug, Clone, Copy, PartialEq, Eq, Structural)]
pub enum MuskingumCungeKernel {
    RouteRs,
    RouteRsSimd,
    TRouteModernized,
    TRouteLegacy,
    CMuskingumCunge,
}

impl MuskingumCungeKernel {
    /// The kernel's name on the command line.
    pub open spec fn spelled(self) -> Seq<char> {
        match self {
            MuskingumCungeKernel::RouteRs => "route-rs"@,
            MuskingumCungeKernel::RouteRsSimd => "route-rs-simd"@,
            MuskingumCungeKernel::TRouteModernized => "t-route-modernized"@,
            MuskingumCungeKernel::TRouteLegacy => "t-route-legacy"@,
            MuskingumCungeKernel::CMuskingumCunge => "c-muskingum-cunge"@,
        }
    }

    /// The kernel's name on the command line.
    pub fn name(&self) -> (name: &'static str)
        ensures
            name@ == self.spelled(),
    {
        match self {
            MuskingumCungeKernel::RouteRs => "route-rs",
            MuskingumCungeKernel::RouteRsSimd => "route-rs-simd",
            MuskingumCungeKernel::TRouteModernized => "t-route-modernized",
            MuskingumCungeKernel::TRouteLegacy => "t-route-legacy",
            MuskingumCungeKernel::CMuskingumCunge => "c-muskingum-cunge",
        }
    }

    /// The kernel of this name.
    pub fn from_name(name: &str) -> (kernel: Option<MuskingumCungeKernel>)
        ensures
            match kernel {
                Some(k) => name@ == k.spelled(),
                None => forall|k: MuskingumCungeKernel| name@ != #[trigger] k.spelled(),
            },
    {
        if same_text(name, "route-rs") {
            Some(MuskingumCungeKernel::RouteRs)
        } else if same_text(name, "route-rs-simd") {
            Some(MuskingumCungeKernel::RouteRsSimd)
        } else if same_text(name, "t-route-modernized") {
            Some(MuskingumCungeKernel::TRouteModernized)
        } else if same_text(name, "t-route-legacy") {
            Some(MuskingumCungeKernel::TRouteLegacy)
        } else if same_text(name, "c-muskingum-cunge") {
            Some(MuskingumCungeKernel::CMuskingumCunge)
        } else {
            None
        }
    }

    /// Whether the kernel routes several reaches at once.
    pub fn is_batched(&self) -> (batched: bool)
        ensures
            batched == (*self == MuskingumCungeKernel::RouteRsSimd),
    {
        match self {
            MuskingumCungeKernel::RouteRsSimd => true,
            _ => false,
        }
    }
}

/// No two kernels share a name, so a name says which kernel is meant.
pub proof fn law_kernel_names_differ(a: MuskingumCungeKernel, b: MuskingumCungeKernel)
    requires
        a.spelled() == b.spelled(),
    ensures
        a == b,
{
    reveal_strlit("route-rs");
    reveal_strlit("route-rs-simd");
    reveal_strlit("t-route-modernized");
    reveal_strlit("t-route-legacy");
    reveal_strlit("c-muskingum-cunge");
    assert("route-rs"@.len() == 8);
    assert("route-rs-simd"@.len() == 13);
    assert("t-route-modernized"@.len() == 18);
    assert("t-route-legacy"@.len() == 14);
    assert("c-muskingum-cunge"@.len() == 17);
}

/// Which bracket the depth solver starts from.
#[derive(Debug, Clone, Copy, PartialEq, Eq, Structural)]
pub enum SecantBracket {
    /// The usual bracket.
    Wide,
    /// A tighter one: fewer iterations, depths slightly less converged.
    Tight,
}

} // verus!
