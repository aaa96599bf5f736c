//! The router's configuration document.

use vstd::prelude::*;

verus! {

/// Where the configuration document lies on the router.
pub fn path() -> (p: &'static str)
    ensures
        p@ == "/conf/config.xml"@,
{
    "/conf/config.xml"
}

} // verus!
