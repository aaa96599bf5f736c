//! `smartctl -a`: health and temperature of one disk.

use vstd::prelude::*;
use vstd::string::StringExecFns;

verus! {

/// The command that reads one disk.
#[derive(Debug)]
pub struct Exec {
    command: String,
}

/// What the command reports, with the appliance's defaults for what it
/// leaves out: not passed, and a temperature of zero.
#[derive(Clone, Copy, Debug, PartialEq, Eq, Structural)]
pub struct Output {
    pub passed: Option<bool>,
    /// Degrees Celsius.
    pub temperature: Option<u32>,
}

/// The command line that reads the disk `name`.
pub open spec fn command_line(name: Seq<char>) -> Seq<char> {
    "/usr/local/sbin/smartctl -a --json=c '/dev/"@ + name + "'"@
}

impl View for Exec {
    type V = Seq<char>;

    closed spec fn view(&self) -> Seq<char> {
        self.command@
    }
}

impl Exec {
    /// The command for the disk `name`.
    pub fn new(name: &str) -> (exec: Self)
        ensures
            exec@ == command_line(name@),
    {
        let mut command: String = String::from_str("/usr/local/sbin/smartctl -a --json=c '/dev/");
        command.append(name);
        command.append("'");
        Exec { command }
    }

    /// The command line to run.
    pub fn command(&self) -> (c: &str)
        ensures
            c@ == self@,
    {
        self.command.as_str()
    }

    /// Whether the disk passed and how warm it is, with the defaults for
    /// what the report leaves out.
    pub fn status(output: Output) -> (r: (bool, u32))
        ensures
            r.0 == match output.passed {
                Some(passed) => passed,
                None => false,
            },
            r.1 == match output.temperature {
                Some(current) => current,
                None => 0,
            },
    {
        let passed: bool = match output.passed {
            Some(passed) => passed,
            None => false,
        };
        let current: u32 = match output.temperature {
            Some(current) => current,
            None => 0,
        };
        (passed, current)
    }
}

} // verus!
