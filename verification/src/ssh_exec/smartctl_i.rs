//! `smartctl -i`: the identity of one disk.

use vstd::prelude::*;
use vstd::string::StringExecFns;

verus! {

/// The command line that identifies the disk `name`.
pub open spec fn command_line(name: Seq<char>) -> Seq<char> {
    "/usr/local/sbin/smartctl -i --json=c '/dev/"@ + name + "'"@
}

/// The command line that identifies the disk `name`.
pub fn command(name: &str) -> (c: String)
    ensures
        c@ == command_line(name@),
{
    let mut c: String = String::from_str("/usr/local/sbin/smartctl -i --json=c '/dev/");
    c.append(name);
    c.append("'");
    c
}

} // verus!
