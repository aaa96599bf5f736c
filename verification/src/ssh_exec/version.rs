//! The product's version file.

use vstd::prelude::*;

verus! {

/// What the version file says of the product.
#[derive(Debug)]
pub struct Version {
    pub product_arch: String,
    pub product_name: String,
    pub product_version: String,
}

/// Where the version file lies on the router.
pub fn path() -> (p: &'static str)
    ensures
        p@ == "/usr/local/opnsense/version/core"@,
{
    "/usr/local/opnsense/version/core"
}

} // verus!
