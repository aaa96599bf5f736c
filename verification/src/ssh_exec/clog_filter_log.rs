//! `configctl filter read log`: the packet filter's log, newest record
//! first, as structured records.

use vstd::prelude::*;
use vstd::string::StringExecFns;

use crate::text::{chars_of, parse_decimal, parse_unsigned};

verus! {

/// What the filter did with the packet.
#[derive(Clone, Copy, Debug, PartialEq, Eq, Structural)]
pub enum LogAction {
    Block,
    Pass,
    Other,
}

/// Direction of the packet at the interface.
#[derive(Clone, Copy, Debug, PartialEq, Eq, Structural)]
pub enum LogDirection {
    In,
    Other,
}

/// Why the record was written.
#[derive(Clone, Copy, Debug, PartialEq, Eq, Structural)]
pub enum LogReason {
    /// A rule matched.
    Match,
    Other,
}

/// Transport of an IPv4 packet, by protocol number.
#[derive(Clone, Copy, Debug, PartialEq, Eq, Structural)]
pub enum LogV4ProtoFields {
    Icmp,
    Tcp { src_port: u16, dest_port: u16 },
    Udp { src_port: u16, dest_port: u16 },
    Other,
}

/// Transport of an IPv6 packet, by protocol number.
#[derive(Clone, Copy, Debug, PartialEq, Eq, Structural)]
pub enum LogV6ProtoFields {
    Icmpv6,
    Tcp { src_port: u16, dest_port: u16 },
    Udp { src_port: u16, dest_port: u16 },
    Other,
}

/// The addresses of a record, by IP version. An IPv4 address is its four
/// bytes read as one big-endian number, an IPv6 address its sixteen.
#[derive(Clone, Copy, Debug, PartialEq, Eq, Structural)]
#[allow(inconsistent_fields)]
pub enum LogIpFields {
    V4 { proto: LogV4ProtoFields, src: u32, dest: u32 },
    V6 { proto: LogV6ProtoFields, src: u128, dest: u128 },
    Other,
}

/// One record of the filter log.
#[derive(Clone, Debug)]
pub struct Log {
    pub action: LogAction,
    /// The server's identifier of the record.
    pub digest: String,
    pub direction: LogDirection,
    pub interface: String,
    pub ip_fields: LogIpFields,
    pub reason: LogReason,
    pub timestamp: String,
}

/// The command that reads the 100 newest records.
pub open spec fn base_command() -> Seq<char> {
    "/usr/local/sbin/configctl filter read log 100"@
}

/// The command line that fetches the log: without a cursor the newest 100
/// records, with one the records since the record of that digest.
pub open spec fn command_line(previous_digest: Option<Seq<char>>) -> Seq<char> {
    match previous_digest {
        Some(digest) => base_command() + " "@ + digest,
        None => base_command(),
    }
}

/// The command line that fetches the log.
pub fn command(previous_digest: Option<&str>) -> (c: String)
    ensures
        c@ == command_line(
            match previous_digest {
                Some(d) => Some(d@),
                None => None,
            },
        ),
{
    let mut c: String = String::from_str("/usr/local/sbin/configctl filter read log 100");
    match previous_digest {
        Some(digest) => {
            c.append(" ");
            c.append(digest);
        },
        None => {},
    }
    c
}

/// Reads a port number from the decimal string that the log gives it as.
pub fn parse_port(s: &str) -> (r: Option<u16>)
    ensures
        r matches Some(p) ==> parse_unsigned(s@, 0xFFFF) == Some(p as nat),
        r is None ==> parse_unsigned(s@, 0xFFFF) is None,
{
    let chars: Vec<char> = chars_of(s);
    let n: usize = chars.len();
    assert(chars@.subrange(0, n as int) =~= s@);
    match parse_decimal(chars.as_slice(), 0, n, 0xFFFF) {
        Some(v) => Some(v as u16),
        None => None,
    }
}

} // verus!
