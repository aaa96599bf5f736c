//! `uname -sr`: name and release of the operating system.

use vstd::prelude::*;

verus! {

/// The command line that prints name and release.
pub fn command() -> (c: &'static str)
    ensures
        c@ == "/usr/bin/uname -sr"@,
{
    "/usr/bin/uname -sr"
}

} // verus!
