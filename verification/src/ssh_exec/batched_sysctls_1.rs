//! The batch that is read once at startup: boot time and memory sizes.

use vstd::prelude::*;

use crate::boot_time::BootTime;
use crate::codec::{CodecError, Endianness, Reader};
use crate::memory::Memory;

verus! {

/// The command line of the batch.
pub fn command() -> (c: &'static str)
    ensures
        c@ == "/sbin/sysctl -b kern.boottime hw.physmem vm.stats.vm.v_page_count"@,
{
    "/sbin/sysctl -b kern.boottime hw.physmem vm.stats.vm.v_page_count"
}

/// What a batch denotes: the boot time in its first sixteen bytes, the
/// memory sizes in the twelve behind them.
pub open spec fn decoded(e: Endianness, output: Seq<u8>) -> Option<(BootTime, Memory)> {
    if output.len() < 28 {
        None
    } else {
        Some(
            (
                BootTime::decoded(e, output)->0,
                Memory::decoded(e, output.subrange(16, output.len() as int))->0,
            ),
        )
    }
}

/// Decodes what the command printed.
pub fn run(e: Endianness, output: Vec<u8>) -> (r: Result<(BootTime, Memory), CodecError>)
    ensures
        match r {
            Ok(values) => decoded(e, output@) == Some(values),
            Err(err) => err == CodecError::UnexpectedEof && decoded(e, output@) is None,
        },
{
    if output.len() < 28 {
        return Err(CodecError::UnexpectedEof);
    }
    let mut reader = Reader::new(output);
    let boot_time = match BootTime::parse(&mut reader, e) {
        Ok(v) => v,
        Err(err) => {
            return Err(err);
        },
    };
    let memory = match Memory::parse(&mut reader, e) {
        Ok(v) => v,
        Err(err) => {
            return Err(err);
        },
    };
    Ok((boot_time, memory))
}

} // verus!
