//! The batch that is read every cycle: page counts, the temperature
//! sensors and the tick counters.

use vstd::prelude::*;
use vstd::string::StringExecFns;

use crate::codec::{u32_at, CodecError, Endianness, Reader};
use crate::cpu::{decoded_ticks, Cpu};
use crate::memory::Memory;
use crate::temperature_sysctl::TemperatureSysctl;

verus! {

/// The command that reads the batch.
#[derive(Debug)]
pub struct Exec {
    command: String,
}

/// The three page counts, which come first.
pub open spec fn base_command() -> Seq<char> {
    "/sbin/sysctl -b vm.stats.vm.v_inactive_count vm.stats.vm.v_cache_count vm.stats.vm.v_free_count"@
}

/// The names of the sensors, each in quotes behind a space.
pub open spec fn quoted(names: Seq<Seq<char>>) -> Seq<char>
    decreases names.len(),
{
    if names.len() == 0 {
        Seq::empty()
    } else {
        quoted(names.drop_last()) + " '"@ + names.last() + "'"@
    }
}

/// The command line of the batch. The tick counters stand last: their
/// value is an array whose length the reader does not know, so anything
/// requested behind them could not be found.
pub open spec fn command_line(names: Seq<Seq<char>>) -> Seq<char> {
    base_command() + quoted(names) + " kern.cp_time"@
}

/// The names of a list of sensors.
pub open spec fn names_of(sensors: Seq<TemperatureSysctl>) -> Seq<Seq<char>> {
    Seq::new(sensors.len(), |i: int| sensors[i].name@)
}

/// Number of bytes that a batch for `sensors` sensors must hold: three
/// page counts, one reading per sensor and five tick counters.
pub open spec fn needed(sensors: nat) -> nat {
    12 + 4 * sensors + 40
}

impl View for Exec {
    type V = Seq<char>;

    closed spec fn view(&self) -> Seq<char> {
        self.command@
    }
}

impl Exec {
    /// The command for the given sensors.
    pub fn new(temperature_sysctls: &[TemperatureSysctl]) -> (exec: Self)
        ensures
            exec@ == command_line(names_of(temperature_sysctls@)),
    {
        let mut command: String = String::from_str(
            "/sbin/sysctl -b vm.stats.vm.v_inactive_count vm.stats.vm.v_cache_count vm.stats.vm.v_free_count",
        );
        let ghost names = names_of(temperature_sysctls@);
        let mut i: usize = 0;
        while i < temperature_sysctls.len()
            invariant
                i <= temperature_sysctls@.len(),
                names == names_of(temperature_sysctls@),
                command@ == base_command() + quoted(names.take(i as int)),
            decreases temperature_sysctls@.len() - i,
        {
            assert(names.take(i + 1).drop_last() =~= names.take(i as int));
            assert(names.take(i + 1).last() == temperature_sysctls@[i as int].name@);
            command.append(" '");
            command.append(temperature_sysctls[i].name.as_str());
            command.append("'");
            assert(command@ =~= base_command() + quoted(names.take(i + 1)));
            i = i + 1;
        }
        assert(names.take(i as int) =~= names);
        command.append(" kern.cp_time");
        Exec { command }
    }

    /// The command line to run.
    pub fn command(&self) -> (c: &str)
        ensures
            c@ == self@,
    {
        self.command.as_str()
    }

    /// Decodes what the command printed, in the order of the request: the
    /// page counts into `memory`, one reading into each sensor, the tick
    /// counters into `cpu`.
    ///
    /// Output that is too short for all of this is refused before anything
    /// is changed.
    pub fn run(
        &self,
        cpu: &mut Cpu,
        memory: &mut Memory,
        temperature_sysctls: &mut Vec<TemperatureSysctl>,
        e: Endianness,
        output: Vec<u8>,
    ) -> (r: Result<(), CodecError>)
        ensures
            final(temperature_sysctls)@.len() == old(temperature_sysctls)@.len(),
            forall|i: int|
                0 <= i < old(temperature_sysctls)@.len() ==> (#[trigger] final(temperature_sysctls)@[i]).name == old(temperature_sysctls)@[i].name,
            match r {
                Ok(()) => {
                    &&& output@.len() >= needed(old(temperature_sysctls)@.len())
                    &&& *final(memory) == old(memory).with_counts(
                        u32_at(e, output@, 0),
                        u32_at(e, output@, 4),
                        u32_at(e, output@, 8),
                    )
                    &&& forall|i: int|
                        0 <= i < old(temperature_sysctls)@.len() ==> (#[trigger] final(temperature_sysctls)@[i]).value == u32_at(e, output@, 12 + 4 * i)
                    &&& decoded_ticks(
                        e,
                        output@.subrange(
                            (12 + 4 * old(temperature_sysctls)@.len()) as int,
                            output@.len() as int,
                        ),
                    ) matches Some(ticks)
                    &&& final(cpu)@ == old(cpu)@.record(ticks)
                },
                Err(err) => {
                    &&& err == CodecError::UnexpectedEof
                    &&& output@.len() < needed(old(temperature_sysctls)@.len())
                    &&& *final(memory) == *old(memory)
                    &&& final(cpu)@ == old(cpu)@
                    &&& forall|i: int|
                        0 <= i < old(temperature_sysctls)@.len() ==> (#[trigger] final(temperature_sysctls)@[i]).value == old(temperature_sysctls)@[i].value
                },
            },
    {
        let ghost all = output@;
        let ghost len = all.len() as int;
        let ghost sensors_before = temperature_sysctls@;
        let count: usize = temperature_sysctls.len();
        let total: usize = output.len();
        if total < 52 || (total - 52) / 4 < count {
            return Err(CodecError::UnexpectedEof);
        }
        let mut reader = Reader::new(output);
        match memory.update(&mut reader, e) {
            Ok(()) => {},
            Err(err) => {
                return Err(err);
            },
        }
        let mut i: usize = 0;
        while i < count
            invariant
                i <= count,
                count == sensors_before.len(),
                temperature_sysctls@.len() == count,
                len == all.len(),
                len >= 12 + 4 * count + 40,
                reader@ == all.subrange(12 + 4 * i, len),
                forall|k: int|
                    0 <= k < count ==> (#[trigger] temperature_sysctls@[k]).name
                        == sensors_before[k].name,
                forall|k: int|
                    0 <= k < i ==> (#[trigger] temperature_sysctls@[k]).value == u32_at(
                        e,
                        all,
                        12 + 4 * k,
                    ),
            decreases count - i,
        {
            let ghost at = 12 + 4 * i;
            let ghost list = temperature_sysctls@;
            let mut sensor = temperature_sysctls.remove(i);
            match sensor.update(&mut reader, e) {
                Ok(()) => {},
                Err(err) => {
                    return Err(err);
                },
            }
            proof {
                assert(all.subrange(at, len).subrange(0, 4) =~= all.subrange(at, at + 4));
                assert(all.subrange(at, len).subrange(4, len - at) =~= all.subrange(at + 4, len));
            }
            temperature_sysctls.insert(i, sensor);
            assert(forall|k: int|
                0 <= k < count && k != i ==> (#[trigger] temperature_sysctls@[k]) == list[k]);
            i = i + 1;
        }
        cpu.update(&mut reader, e)
    }
}

/// Whatever the sensors, the tick counters are requested last: the command
/// line ends with their name.
pub proof fn lemma_ticks_come_last(names: Seq<Seq<char>>)
    ensures
        crate::temperature_sysctl::ends_with(command_line(names), " kern.cp_time"@),
{
    let tail = " kern.cp_time"@;
    let line = command_line(names);
    assert(line.subrange(line.len() - tail.len(), line.len() as int) =~= tail);
}

} // verus!
