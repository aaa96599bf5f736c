//! The remote diagnostic tools: for each one the exact command line and
//! the decoding of what it prints.
//!
//! Running a command is the caller's business. Every invocation stands
//! alone, and its output is handed over as bytes, as lines or as a decoded
//! record.

pub mod batched_sysctls_1;
pub mod batched_sysctls_2;
pub mod clog_filter_log;
pub mod df;
pub mod dpinger;
pub mod ifconfig;
pub mod netstat_bin;
pub mod netstat_m;
pub mod opnconfig;
pub mod pfctl_s_info;
pub mod pgrep;
pub mod smartctl_a;
pub mod smartctl_i;
pub mod sysctl_an;
pub mod sysctl_kern_disks;
pub mod uname_sr;
pub mod version;
