//! `netstat -bin`: the byte counters and addresses of the interfaces.

use vstd::prelude::*;

verus! {

/// One row of the listing: an interface with one of its networks.
#[derive(Debug)]
pub struct Interface {
    pub name: String,
    pub network: String,
    pub address: String,
    pub received_bytes: u64,
    pub sent_bytes: u64,
}

/// The command line that lists the interfaces.
pub fn command() -> (c: &'static str)
    ensures
        c@ == "/usr/bin/netstat -bin --libxo json"@,
{
    "/usr/bin/netstat -bin --libxo json"
}

} // verus!
