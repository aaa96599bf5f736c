//! CPU usage from the kernel's tick counters.
//!
//! `kern.cp_time` counts the ticks that the CPUs spent in each of five
//! states since boot. The share of the time between two samples that was
//! not idle is the usage.

use vstd::prelude::*;

use crate::codec::{u64_at, CodecError, Endianness, Reader};

verus! {

/// One sample of the five tick counters.
#[derive(Clone, Copy, Debug, PartialEq, Eq, Structural)]
pub struct Ticks {
    pub user: u64,
    pub nice: u64,
    pub system: u64,
    pub interrupt: u64,
    pub idle: u64,
}

/// Usage as an exact fraction: `busy` of `total` ticks were not idle.
#[derive(Clone, Copy, Debug, PartialEq, Eq, Structural)]
pub struct CpuUsage {
    pub busy: i128,
    pub total: i128,
}

/// The last two samples of the tick counters.
#[derive(Clone, Copy, Debug)]
pub struct Cpu {
    previous: Option<Ticks>,
    latest: Option<Ticks>,
}

/// What a `Cpu` remembers.
pub struct CpuView {
    pub previous: Option<Ticks>,
    pub latest: Option<Ticks>,
}

/// The ticks between two samples, over all five states.
pub open spec fn total_delta(a: Ticks, b: Ticks) -> int {
    (b.user - a.user) + (b.nice - a.nice) + (b.system - a.system) + (b.interrupt - a.interrupt) + (
    b.idle - a.idle)
}

/// The usage between sample `a` and the later sample `b`: one minus the
/// idle share of the ticks, unknown where no tick passed.
pub open spec fn usage_between(a: Ticks, b: Ticks) -> Option<CpuUsage> {
    let total = total_delta(a, b);
    if total == 0 {
        None
    } else {
        Some(CpuUsage { busy: (total - (b.idle - a.idle)) as i128, total: total as i128 })
    }
}

/// The sample that the first forty bytes of a stream denote.
pub open spec fn decoded_ticks(e: Endianness, bytes: Seq<u8>) -> Option<Ticks> {
    if bytes.len() < 40 {
        None
    } else {
        Some(
            Ticks {
                user: u64_at(e, bytes, 0),
                nice: u64_at(e, bytes, 8),
                system: u64_at(e, bytes, 16),
                interrupt: u64_at(e, bytes, 24),
                idle: u64_at(e, bytes, 32),
            },
        )
    }
}

impl CpuView {
    /// The state after one more sample.
    pub open spec fn record(self, ticks: Ticks) -> CpuView {
        CpuView { previous: self.latest, latest: Some(ticks) }
    }

    /// The usage that this state reports.
    pub open spec fn usage(self) -> Option<CpuUsage> {
        match (self.previous, self.latest) {
            (Some(a), Some(b)) => usage_between(a, b),
            _ => None,
        }
    }
}

impl View for Cpu {
    type V = CpuView;

    closed spec fn view(&self) -> CpuView {
        CpuView { previous: self.previous, latest: self.latest }
    }
}

impl Ticks {
    /// Reads a sample from a batch. A stream that is too short is left
    /// where it was.
    pub fn parse(reader: &mut Reader, e: Endianness) -> (r: Result<Ticks, CodecError>)
        ensures
            match r {
                Ok(t) => decoded_ticks(e, old(reader)@) == Some(t) && final(reader)@ == old(
                    reader,
                )@.subrange(40, old(reader)@.len() as int),
                Err(err) => err == CodecError::UnexpectedEof && decoded_ticks(e, old(reader)@)
                    is None && final(reader)@ == old(reader)@,
            },
    {
        if reader.remaining() < 40 {
            return Err(CodecError::UnexpectedEof);
        }
        let ghost all = reader@;
        let ghost n = all.len() as int;
        let user: u64 = match reader.read_u64(e) {
            Ok(v) => v,
            Err(err) => {
                return Err(err);
            },
        };
        let nice: u64 = match reader.read_u64(e) {
            Ok(v) => v,
            Err(err) => {
                return Err(err);
            },
        };
        proof {
            assert(all.subrange(8, n).subrange(0, 8) =~= all.subrange(8, 16));
            assert(all.subrange(8, n).subrange(8, n - 8) =~= all.subrange(16, n));
        }
        let system: u64 = match reader.read_u64(e) {
            Ok(v) => v,
            Err(err) => {
                return Err(err);
            },
        };
        proof {
            assert(all.subrange(16, n).subrange(0, 8) =~= all.subrange(16, 24));
            assert(all.subrange(16, n).subrange(8, n - 16) =~= all.subrange(24, n));
        }
        let interrupt: u64 = match reader.read_u64(e) {
            Ok(v) => v,
            Err(err) => {
                return Err(err);
            },
        };
        proof {
            assert(all.subrange(24, n).subrange(0, 8) =~= all.subrange(24, 32));
            assert(all.subrange(24, n).subrange(8, n - 24) =~= all.subrange(32, n));
        }
        let idle: u64 = match reader.read_u64(e) {
            Ok(v) => v,
            Err(err) => {
                return Err(err);
            },
        };
        proof {
            assert(all.subrange(32, n).subrange(0, 8) =~= all.subrange(32, 40));
            assert(all.subrange(32, n).subrange(8, n - 32) =~= all.subrange(40, n));
        }
        Ok(Ticks { user, nice, system, interrupt, idle })
    }
}

impl Cpu {
    /// A state that has seen no sample.
    pub fn new() -> (cpu: Self)
        ensures
            cpu@.previous is None,
            cpu@.latest is None,
    {
        Cpu { previous: None, latest: None }
    }

    /// Takes in one more sample; the one before the last is forgotten.
    pub fn record(&mut self, ticks: Ticks)
        ensures
            final(self)@ == old(self)@.record(ticks),
    {
        self.previous = self.latest;
        self.latest = Some(ticks);
    }

    /// Reads a sample from a batch and takes it in. Where the stream is
    /// too short, nothing changes.
    pub fn update(&mut self, reader: &mut Reader, e: Endianness) -> (r: Result<(), CodecError>)
        ensures
            match r {
                Ok(()) => {
                    &&& decoded_ticks(e, old(reader)@) matches Some(ticks)
                    &&& final(self)@ == old(self)@.record(ticks)
                    &&& final(reader)@ == old(reader)@.subrange(40, old(reader)@.len() as int)
                },
                Err(err) => {
                    &&& err == CodecError::UnexpectedEof
                    &&& decoded_ticks(e, old(reader)@) is None
                    &&& final(self)@ == old(self)@
                    &&& final(reader)@ == old(reader)@
                },
            },
    {
        match Ticks::parse(reader, e) {
            Ok(ticks) => {
                self.record(ticks);
                Ok(())
            },
            Err(err) => Err(err),
        }
    }

    /// The usage between the last two samples: `None` while fewer than two
    /// samples were taken in, and when no tick passed between them.
    pub fn usage(&self) -> (r: Option<CpuUsage>)
        ensures
            r == self@.usage(),
    {
        match (self.previous, self.latest) {
            (Some(a), Some(b)) => {
                let total: i128 = (b.user as i128 - a.user as i128) + (b.nice as i128
                    - a.nice as i128) + (b.system as i128 - a.system as i128) + (b.interrupt as i128
                    - a.interrupt as i128) + (b.idle as i128 - a.idle as i128);
                if total == 0 {
                    None
                } else {
                    let idle: i128 = b.idle as i128 - a.idle as i128;
                    Some(CpuUsage { busy: total - idle, total })
                }
            },
            _ => None,
        }
    }
}

} // verus!
