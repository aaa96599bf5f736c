//! `ifconfig`: the link status of one interface.

use vstd::prelude::*;
use vstd::string::StringExecFns;

use crate::text::{find_first_labeled_value, first_labeled_value, str_eq};

verus! {

/// The command that shows one interface.
#[derive(Debug)]
pub struct Exec {
    command: String,
}

/// The command line that shows the interface `name`.
pub open spec fn command_line(name: Seq<char>) -> Seq<char> {
    "/sbin/ifconfig '"@ + name + "'"@
}

/// What is wrong with the link, from the lines that `ifconfig` printed:
/// the status that the first `status:` line gives unless it is `active`.
/// An interface without such a line has nothing wrong.
pub open spec fn link_error(lines: Seq<String>) -> Option<Seq<char>> {
    match first_labeled_value(lines, "status:"@) {
        Some(status) if status != "active"@ => Some(status),
        _ => None,
    }
}

impl View for Exec {
    type V = Seq<char>;

    closed spec fn view(&self) -> Seq<char> {
        self.command@
    }
}

impl Exec {
    /// The command for the interface `name`.
    pub fn new(name: &str) -> (exec: Self)
        ensures
            exec@ == command_line(name@),
    {
        let mut command: String = String::from_str("/sbin/ifconfig '");
        command.append(name);
        command.append("'");
        Exec { command }
    }

    /// The command line to run.
    pub fn command(&self) -> (c: &str)
        ensures
            c@ == self@,
    {
        self.command.as_str()
    }

    /// What is wrong with the link, from the lines that the command
    /// printed.
    pub fn status(lines: &Vec<String>) -> (r: Option<String>)
        ensures
            match r {
                Some(status) => link_error(lines@) == Some(status@),
                None => link_error(lines@) is None,
            },
    {
        match find_first_labeled_value(lines, "status:") {
            Some(status) => {
                if str_eq(status.as_str(), "active") {
                    None
                } else {
                    Some(status)
                }
            },
            None => None,
        }
    }
}

} // verus!
