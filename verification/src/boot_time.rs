//! When the router booted.

use vstd::prelude::*;

use crate::codec::{value_of, CodecError, Endianness, Reader};

verus! {

/// The router's boot time: seconds and microseconds since the epoch, as
/// `kern.boottime` holds them.
#[derive(Clone, Copy, Debug, PartialEq, Eq, Structural)]
pub struct BootTime {
    pub secs: u64,
    pub micros: u64,
}

/// An uptime, broken down for display.
#[derive(Clone, Copy, Debug, PartialEq, Eq, Structural)]
pub struct Uptime {
    pub days: u64,
    pub hours: u64,
    pub minutes: u64,
    pub seconds: u64,
}

impl BootTime {
    /// The boot time that the first sixteen bytes of a stream denote.
    pub open spec fn decoded(e: Endianness, bytes: Seq<u8>) -> Option<BootTime> {
        if bytes.len() < 16 {
            None
        } else {
            Some(
                BootTime {
                    secs: value_of(e, bytes.subrange(0, 8)) as u64,
                    micros: value_of(e, bytes.subrange(8, 16)) as u64,
                },
            )
        }
    }

    /// Reads the value from a batch. A stream that is too short is left
    /// where it was.
    pub fn parse(reader: &mut Reader, e: Endianness) -> (r: Result<BootTime, CodecError>)
        ensures
            match r {
                Ok(t) => Self::decoded(e, old(reader)@) == Some(t) && final(reader)@ == old(
                    reader,
                )@.subrange(16, old(reader)@.len() as int),
                Err(err) => err == CodecError::UnexpectedEof && Self::decoded(e, old(reader)@)
                    is None && final(reader)@ == old(reader)@,
            },
    {
        if reader.remaining() < 16 {
            return Err(CodecError::UnexpectedEof);
        }
        let ghost all = reader@;
        let secs: u64 = match reader.read_u64(e) {
            Ok(v) => v,
            Err(err) => {
                return Err(err);
            },
        };
        let micros: u64 = match reader.read_u64(e) {
            Ok(v) => v,
            Err(err) => {
                return Err(err);
            },
        };
        assert(all.subrange(8, all.len() as int).subrange(0, 8) =~= all.subrange(8, 16));
        assert(all.subrange(8, all.len() as int).subrange(8, all.len() - 8) =~= all.subrange(
            16,
            all.len() as int,
        ));
        Ok(BootTime { secs, micros })
    }

    /// The uptime in whole seconds at the time `now_secs`; `None` where
    /// that time lies before the boot.
    pub fn uptime_secs(&self, now_secs: u64) -> (r: Option<u64>)
        ensures
            r == if now_secs >= self.secs {
                Some((now_secs - self.secs) as u64)
            } else {
                None
            },
    {
        if now_secs >= self.secs {
            Some(now_secs - self.secs)
        } else {
            None
        }
    }
}

impl Uptime {
    /// Breaks a number of seconds down into days, hours, minutes and
    /// seconds.
    pub fn from_secs(secs: u64) -> (u: Uptime)
        ensures
            u.days == secs / 86400,
            u.hours == secs % 86400 / 3600,
            u.minutes == secs % 3600 / 60,
            u.seconds == secs % 60,
            u.hours < 24 && u.minutes < 60 && u.seconds < 60,
    {
        Uptime {
            days: secs / 86400,
            hours: secs % 86400 / 3600,
            minutes: secs % 3600 / 60,
            seconds: secs % 60,
        }
    }
}

} // verus!
