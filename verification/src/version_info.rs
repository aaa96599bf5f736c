//! What the router is: product and operating system.

use vstd::prelude::*;
use vstd::string::StringExecFns;

use crate::ssh_exec::version::Version;

verus! {

/// The router's identity. It is read once and never changes.
#[derive(Debug)]
pub struct VersionInfo {
    pub version: Version,
    pub os_base_version: String,
}

impl VersionInfo {
    /// The identity from the version file and the first line of `uname`.
    pub fn get(version: Version, os_base_version: String) -> (info: Self)
        ensures
            info.version == version,
            info.os_base_version == os_base_version,
    {
        VersionInfo { version, os_base_version }
    }

    /// The two lines that head every frame: the product with version and
    /// architecture, and below it the operating system.
    pub open spec fn lines(&self) -> Seq<char> {
        "Version       : "@ + self.version.product_name@ + " "@ + self.version.product_version@
            + "-"@ + self.version.product_arch@ + "\n                "@ + self.os_base_version@
            + "\n"@
    }

    /// Appends the two identity lines to `out`.
    pub fn write_lines(&self, out: &mut String)
        ensures
            final(out)@ == old(out)@ + self.lines(),
    {
        out.append("Version       : ");
        out.append(self.version.product_name.as_str());
        out.append(" ");
        out.append(self.version.product_version.as_str());
        out.append("-");
        out.append(self.version.product_arch.as_str());
        out.append("\n                ");
        out.append(self.os_base_version.as_str());
        out.append("\n");
        assert(out@ =~= old(out)@ + self.lines());
    }
}

} // verus!
