//! `pgrep`: whether a process runs.

use vstd::prelude::*;
use vstd::string::StringExecFns;

use crate::config::{MonitorView, ServiceMonitor};

verus! {

/// The command that looks for one service.
#[derive(Debug)]
pub struct Exec {
    command: String,
}

/// The command line that looks for a service: by the start of its command
/// line, or by the process id in its pid file.
pub open spec fn command_line(monitor: MonitorView) -> Seq<char> {
    match monitor {
        MonitorView::CmdLine(cmdline) => "/bin/pgrep -f '^"@ + cmdline + "'"@,
        MonitorView::PidFile(pidfile) => "/bin/pgrep -F '"@ + pidfile + "'"@,
    }
}

impl View for Exec {
    type V = Seq<char>;

    closed spec fn view(&self) -> Seq<char> {
        self.command@
    }
}

impl Exec {
    /// The command for the given way of looking.
    pub fn new(monitor: ServiceMonitor) -> (exec: Self)
        ensures
            exec@ == command_line(monitor@),
    {
        let command = match monitor {
            ServiceMonitor::CmdLine(cmdline) => {
                let mut c: String = String::from_str("/bin/pgrep -f '^");
                c.append(cmdline.as_str());
                c.append("'");
                c
            },
            ServiceMonitor::PidFile(pidfile) => {
                let mut c: String = String::from_str("/bin/pgrep -F '");
                c.append(pidfile.as_str());
                c.append("'");
                c
            },
        };
        Exec { command }
    }

    /// The command line to run.
    pub fn command(&self) -> (c: &str)
        ensures
            c@ == self@,
    {
        self.command.as_str()
    }

    /// Whether the process runs, from the first line that the command
    /// printed (the empty string where it printed nothing): `pgrep` prints
    /// the ids of the processes it found.
    pub fn is_running(first_line: &str) -> (r: bool)
        ensures
            r == (first_line@.len() > 0),
    {
        !first_line.is_empty()
    }
}

} // verus!
