//! `df`: the mounted file systems and how full they are.

use vstd::prelude::*;

use crate::usage::Usage;

verus! {

/// One mounted file system, sizes in blocks of 1024 bytes.
#[derive(Debug)]
pub struct Filesystem {
    pub mounted_on: String,
    pub total_blocks: u64,
    pub used_blocks: u64,
}

/// The command line that lists the memory and disk file systems.
pub fn command() -> (c: &'static str)
    ensures
        c@ == "/bin/df -kt tmpfs,ufs --libxo json"@,
{
    "/bin/df -kt tmpfs,ufs --libxo json"
}

impl Filesystem {
    /// Used blocks against all blocks.
    pub fn usage(&self) -> (u: Usage)
        ensures
            u == (Usage { used: self.used_blocks, max: self.total_blocks }),
    {
        Usage { used: self.used_blocks, max: self.total_blocks }
    }

    /// The size in bytes.
    pub fn total_bytes(&self) -> (n: u128)
        ensures
            n == self.total_blocks * 1024,
    {
        self.total_blocks as u128 * 1024
    }
}

} // verus!
