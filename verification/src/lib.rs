//! Telemetry acquisition and aggregation for a firewall dashboard.
//!
//! The dashboard polls a router over a remote shell once a second and
//! draws what it learns on a terminal. This library is what the dashboard
//! knows: the command line of every diagnostic tool and the decoding of
//! what the tool prints, the state that lives from one cycle to the next
//! (counter samples, the ring of firewall events), the order of a cycle,
//! and how a frame starts. It performs no I/O: callers hand it the bytes
//! and lines they read and write out what it returns.
//!
//! - [`codec`] decodes the fixed-width binary fields of `sysctl -b`, and
//!   [`boot_time`], [`memory`], [`cpu`] and [`temperature_sysctl`] read
//!   their values with it.
//! - [`text`] scans lines; [`lines`] says how an output is read line by
//!   line.
//! - [`ssh_exec`] holds the tools, one module for each.
//! - [`rate`] turns counter samples into rates, [`usage`] levels into
//!   shares.
//! - [`disk`], [`interface`], [`gateway`] and [`service`] hold what is
//!   known of each watched thing; [`firewall_logs`] holds the most recent
//!   firewall events.
//! - [`opnconfig`] reads the topology from the router's configuration
//!   document, whose nodes [`xml`] lists; [`config`] is the dashboard's own
//!   configuration and [`version_info`] the router's identity.
//! - [`orchestrator`] orders a cycle, and [`render`] starts a frame and
//!   writes the parts of it that are plain text.

pub mod boot_time;
pub mod codec;
pub mod config;
pub mod cpu;
pub mod disk;
pub mod firewall_logs;
pub mod gateway;
pub mod interface;
pub mod lines;
pub mod memory;
pub mod opnconfig;
pub mod orchestrator;
pub mod rate;
pub mod render;
pub mod service;
pub mod sorted;
pub mod ssh_exec;
pub mod temperature_sysctl;
pub mod text;
pub mod usage;
pub mod version_info;
pub mod xml;
