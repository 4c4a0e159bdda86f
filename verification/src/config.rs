//! Configuration shared by the whole run.

use vstd::prelude::*;

verus! {

/// Spacing of the ngen forcing files, and so of the routing output.
///
/// The internal routing timestep must divide this exactly: the simulation advances
/// `3600 / internal_timestep_seconds` internal steps per forcing step, and if that division has
/// a remainder the two clocks drift apart.
pub const EXTERNAL_TIMESTEP_SECONDS: usize = 3600;

/// Names of the hydrofabric columns that hold a reach's id, outlet and channel geometry.
#[derive(Debug, Clone)]
pub struct ColumnConfig {
    pub key: String,
    pub downstream: String,
    pub dx: String,
    pub n: String,
    pub ncc: String,
    pub s0: String,
    pub bw: String,
    pub tw: String,
    pub twcc: String,
    pub cs: String,
}

impl ColumnConfig {
    /// The column names of the NextGen hydrofabric.
    pub open spec fn is_default(self) -> bool {
        &&& self.key@ == "id"@
        &&& self.downstream@ == "toid"@
        &&& self.dx@ == "Length_m"@
        &&& self.n@ == "n"@
        &&& self.ncc@ == "nCC"@
        &&& self.s0@ == "So"@
        &&& self.bw@ == "BtmWdth"@
        &&& self.tw@ == "TopWdth"@
        &&& self.twcc@ == "TopWdthCC"@
        &&& self.cs@ == "ChSlp"@
    }

    pub fn new() -> (columns: Self)
        ensures
            columns.is_default(),
    {
        ColumnConfig {
            key: "id".to_string(),
            downstream: "toid".to_string(),
            dx: "Length_m".to_string(),
            n: "n".to_string(),
            ncc: "nCC".to_string(),
            s0: "So".to_string(),
            bw: "BtmWdth".to_string(),
            tw: "TopWdth".to_string(),
            twcc: "TopWdthCC".to_string(),
            cs: "ChSlp".to_string(),
        }
    }
}

impl Default for ColumnConfig {
    fn default() -> (columns: Self)
        ensures
            columns.is_default(),
    {
        Self::new()
    }
}

/// Which output files a run writes.
#[derive(Debug, Clone, Copy, PartialEq, Eq, Structural)]
pub enum OutputFormat {
    Csv,
    NetCdf,
    Both,
}

/// Channel geometry of one reach, over the caller's number type.
#[derive(Debug)]
pub struct ChannelParams<T> {
    pub dx: T,
    pub n: T,
    pub ncc: T,
    pub s0: T,
    pub bw: T,
    pub tw: T,
    pub twcc: T,
    pub cs: T,
}

impl<T: Copy> Copy for ChannelParams<T> {

}

impl<T: Copy> Clone for ChannelParams<T> {
    fn clone(&self) -> (copy: Self)
        ensures
            copy == *self,
    {
        *self
    }
}

} // verus!
