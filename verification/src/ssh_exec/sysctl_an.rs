//! `sysctl -aN`: the names of all sysctls.

use vstd::prelude::*;

verus! {

/// The command line that lists the names.
pub fn command() -> (c: &'static str)
    ensures
        c@ == "/sbin/sysctl -aN"@,
{
    "/sbin/sysctl -aN"
}

} // verus!
