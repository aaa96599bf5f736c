//! `netstat -m`: the network memory buffers.

use vstd::prelude::*;

use crate::usage::Usage;

verus! {

/// How many buffer clusters exist and how many may exist.
#[derive(Clone, Copy, Debug, PartialEq, Eq, Structural)]
pub struct MBufStatistics {
    pub cluster_max: u64,
    pub cluster_total: u64,
}

/// The command line that reports the buffers.
pub fn command() -> (c: &'static str)
    ensures
        c@ == "/usr/bin/netstat -m --libxo json"@,
{
    "/usr/bin/netstat -m --libxo json"
}

impl MBufStatistics {
    /// Existing clusters against the most that may exist.
    pub fn usage(&self) -> (u: Usage)
        ensures
            u == (Usage { used: self.cluster_total, max: self.cluster_max }),
    {
        Usage { used: self.cluster_total, max: self.cluster_max }
    }
}

} // verus!
