//! What the configuration file holds.

use vstd::prelude::*;

verus! {

/// How to tell whether a service runs.
#[derive(Debug)]
pub enum ServiceMonitor {
    /// By the start of its command line.
    CmdLine(String),
    /// By the file that holds its process id.
    PidFile(String),
}

/// A `ServiceMonitor` as plain values.
pub enum MonitorView {
    CmdLine(Seq<char>),
    PidFile(Seq<char>),
}

impl View for ServiceMonitor {
    type V = MonitorView;

    open spec fn view(&self) -> MonitorView {
        match self {
            ServiceMonitor::CmdLine(cmdline) => MonitorView::CmdLine(cmdline@),
            ServiceMonitor::PidFile(pidfile) => MonitorView::PidFile(pidfile@),
        }
    }
}

/// A service that the configuration describes in full.
#[derive(Debug)]
pub struct CustomService {
    pub name: String,
    pub monitor: ServiceMonitor,
}

/// The services to watch.
#[derive(Debug)]
pub struct Services {
    /// Names of services that the dashboard knows how to watch.
    pub builtin: Vec<String>,
    pub custom: Vec<CustomService>,
}

/// Where and as whom to log in.
#[derive(Debug)]
pub struct Ssh {
    pub hostname: String,
    pub username: String,
    pub identity_comment: Option<String>,
}

/// The configuration.
#[derive(Debug)]
pub struct Config {
    pub ssh: Ssh,
    pub services: Option<Services>,
}

} // verus!
