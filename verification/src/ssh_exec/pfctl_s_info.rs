//! `pfctl -s info`: the packet filter's state table.

use vstd::prelude::*;

use crate::text::{
    chars_of,
    find_first_labeled_value,
    first_labeled_value,
    parse_decimal,
    parse_unsigned,
};

verus! {

/// Why the size of the state table could not be read.
#[derive(Clone, Copy, Debug, PartialEq, Eq, Structural)]
pub enum PfctlError {
    /// No line holds the label.
    NotFound,
    /// What follows the label is not a number.
    InvalidNumber,
}

/// The command line that reports the state table.
pub fn command() -> (c: &'static str)
    ensures
        c@ == "/sbin/pfctl -s info"@,
{
    "/sbin/pfctl -s info"
}

/// The number of states in use that the lines report: the number that
/// follows `current entries` in the first line that holds this label.
pub open spec fn states_used(lines: Seq<String>) -> Result<u64, PfctlError> {
    match first_labeled_value(lines, "current entries"@) {
        None => Err(PfctlError::NotFound),
        Some(value) => match parse_unsigned(value, u64::MAX as nat) {
            Some(n) => Ok(n as u64),
            None => Err(PfctlError::InvalidNumber),
        },
    }
}

/// The number of states in use, from the lines that the command printed.
pub fn get_states_used(lines: &Vec<String>) -> (r: Result<u64, PfctlError>)
    ensures
        r == states_used(lines@),
{
    match find_first_labeled_value(lines, "current entries") {
        None => Err(PfctlError::NotFound),
        Some(value) => {
            let chars: Vec<char> = chars_of(value.as_str());
            let n: usize = chars.len();
            assert(chars@.subrange(0, n as int) =~= value@);
            match parse_decimal(chars.as_slice(), 0, n, u64::MAX) {
                Some(used) => Ok(used),
                None => Err(PfctlError::InvalidNumber),
            }
        },
    }
}

} // verus!
