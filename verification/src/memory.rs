//! Physical memory and how much of it is in use.

use vstd::prelude::*;

use crate::codec::{u32_at, u64_at, CodecError, Endianness, Reader};
use crate::usage::Usage;

verus! {

/// Bytes of physical memory per 1000 entries of the state table.
pub const BYTES_PER_THOUSAND_STATES: u64 = 10_485_760;

/// The router's memory, in bytes and in pages.
#[derive(Clone, Copy, Debug, PartialEq, Eq, Structural)]
pub struct Memory {
    /// `hw.physmem`, in bytes.
    pub physical: u64,
    /// `vm.stats.vm.v_page_count`.
    pub num_pages: u32,
    /// Pages that are neither inactive nor cached nor free.
    pub used_pages: u32,
}

impl Memory {
    /// The sizes that the first twelve bytes of a stream denote, with no
    /// page counted as used yet.
    pub open spec fn decoded(e: Endianness, bytes: Seq<u8>) -> Option<Memory> {
        if bytes.len() < 12 {
            None
        } else {
            Some(
                Memory { physical: u64_at(e, bytes, 0), num_pages: u32_at(e, bytes, 8), used_pages: 0 },
            )
        }
    }

    /// The memory with its used pages counted anew: all pages but the
    /// inactive, the cached and the free ones, and none where these are
    /// more than all.
    pub open spec fn with_counts(self, inactive: u32, cache: u32, free: u32) -> Memory {
        let rest = self.num_pages - inactive - cache - free;
        Memory {
            physical: self.physical,
            num_pages: self.num_pages,
            used_pages: if rest < 0 {
                0
            } else {
                rest as u32
            },
        }
    }

    /// Reads the sizes from a batch. A stream that is too short is left
    /// where it was.
    pub fn parse(reader: &mut Reader, e: Endianness) -> (r: Result<Memory, CodecError>)
        ensures
            match r {
                Ok(m) => Self::decoded(e, old(reader)@) == Some(m) && final(reader)@ == old(
                    reader,
                )@.subrange(12, old(reader)@.len() as int),
                Err(err) => err == CodecError::UnexpectedEof && Self::decoded(e, old(reader)@)
                    is None && final(reader)@ == old(reader)@,
            },
    {
        if reader.remaining() < 12 {
            return Err(CodecError::UnexpectedEof);
        }
        let ghost all = reader@;
        let physical: u64 = match reader.read_u64(e) {
            Ok(v) => v,
            Err(err) => {
                return Err(err);
            },
        };
        let num_pages: u32 = match reader.read_u32(e) {
            Ok(v) => v,
            Err(err) => {
                return Err(err);
            },
        };
        assert(all.subrange(8, all.len() as int).subrange(0, 4) =~= all.subrange(8, 12));
        assert(all.subrange(8, all.len() as int).subrange(4, all.len() - 8) =~= all.subrange(
            12,
            all.len() as int,
        ));
        Ok(Memory { physical, num_pages, used_pages: 0 })
    }

    /// Counts the used pages anew.
    pub fn set_counts(&mut self, inactive: u32, cache: u32, free: u32)
        ensures
            *final(self) == old(self).with_counts(inactive, cache, free),
    {
        let rest: i64 = self.num_pages as i64 - inactive as i64 - cache as i64 - free as i64;
        self.used_pages = if rest < 0 {
            0
        } else {
            rest as u32
        };
    }

    /// Reads the counts of inactive, cached and free pages from a batch
    /// and counts the used pages anew. Where the stream is too short,
    /// nothing changes.
    pub fn update(&mut self, reader: &mut Reader, e: Endianness) -> (r: Result<(), CodecError>)
        ensures
            match r {
                Ok(()) => {
                    &&& old(reader)@.len() >= 12
                    &&& *final(self) == old(self).with_counts(
                        u32_at(e, old(reader)@, 0),
                        u32_at(e, old(reader)@, 4),
                        u32_at(e, old(reader)@, 8),
                    )
                    &&& final(reader)@ == old(reader)@.subrange(12, old(reader)@.len() as int)
                },
                Err(err) => {
                    &&& err == CodecError::UnexpectedEof
                    &&& old(reader)@.len() < 12
                    &&& *final(self) == *old(self)
                    &&& final(reader)@ == old(reader)@
                },
            },
    {
        if reader.remaining() < 12 {
            return Err(CodecError::UnexpectedEof);
        }
        let ghost all = reader@;
        let inactive: u32 = match reader.read_u32(e) {
            Ok(v) => v,
            Err(err) => {
                return Err(err);
            },
        };
        let cache: u32 = match reader.read_u32(e) {
            Ok(v) => v,
            Err(err) => {
                return Err(err);
            },
        };
        let free: u32 = match reader.read_u32(e) {
            Ok(v) => v,
            Err(err) => {
                return Err(err);
            },
        };
        proof {
            let n = all.len() as int;
            assert(all.subrange(4, n).subrange(0, 4) =~= all.subrange(4, 8));
            assert(all.subrange(4, n).subrange(4, n - 4) =~= all.subrange(8, n));
            assert(all.subrange(8, n).subrange(0, 4) =~= all.subrange(8, 12));
            assert(all.subrange(8, n).subrange(4, n - 8) =~= all.subrange(12, n));
        }
        self.set_counts(inactive, cache, free);
        Ok(())
    }

    /// Used pages against all pages.
    pub fn usage(&self) -> (u: Usage)
        ensures
            u == (Usage { used: self.used_pages as u64, max: self.num_pages as u64 }),
    {
        Usage { used: self.used_pages as u64, max: self.num_pages as u64 }
    }

    /// Physical memory in MiB, rounded down.
    pub fn physical_mib(&self) -> (n: u64)
        ensures
            n == self.physical / 1_048_576,
    {
        self.physical / 1_048_576
    }

    /// The size that the state table gets by default: 1000 entries for
    /// every full ten MiB of physical memory.
    pub fn states_max(&self) -> (n: u64)
        ensures
            n == self.physical / BYTES_PER_THOUSAND_STATES * 1000,
    {
        self.physical / BYTES_PER_THOUSAND_STATES * 1000
    }
}

} // verus!
