//! The temperature sensors that the kernel exposes as sysctls.

use vstd::prelude::*;

use crate::codec::{u32_at, CodecError, Endianness, Reader};
use crate::text::{chars_of, matches_at};

verus! {

/// One sensor: the sysctl's name and its last reading in tenths of a
/// kelvin.
#[derive(Debug)]
pub struct TemperatureSysctl {
    pub name: String,
    pub value: u32,
}

/// What the name of a temperature sysctl ends with.
pub open spec fn suffix() -> Seq<char> {
    ".temperature"@
}

/// Whether `name` ends with `tail`.
pub open spec fn ends_with(name: Seq<char>, tail: Seq<char>) -> bool {
    name.len() >= tail.len() && name.subrange(name.len() - tail.len(), name.len() as int) == tail
}

/// The names among `lines` that are temperature sysctls, in order.
pub open spec fn sensor_names(lines: Seq<String>) -> Seq<Seq<char>>
    decreases lines.len(),
{
    if lines.len() == 0 {
        Seq::empty()
    } else {
        let front = sensor_names(lines.drop_last());
        if ends_with(lines.last()@, suffix()) {
            front.push(lines.last()@)
        } else {
            front
        }
    }
}

/// Whether `name` is the name of a temperature sysctl.
pub fn is_sensor_name(name: &str) -> (r: bool)
    ensures
        r == ends_with(name@, suffix()),
{
    let chars: Vec<char> = chars_of(name);
    let tail: Vec<char> = chars_of(".temperature");
    if chars.len() < tail.len() {
        return false;
    }
    matches_at(chars.as_slice(), tail.as_slice(), chars.len() - tail.len())
}

impl TemperatureSysctl {
    /// The sensors among the names that `sysctl -aN` lists, in the order
    /// of the listing, none of them read yet.
    pub fn get_all(lines: &Vec<String>) -> (sensors: Vec<TemperatureSysctl>)
        ensures
            sensors@.len() == sensor_names(lines@).len(),
            forall|i: int|
                0 <= i < sensors@.len() ==> (#[trigger] sensors@[i]).name@ == sensor_names(
                    lines@,
                )[i] && sensors@[i].value == 0,
    {
        let mut sensors: Vec<TemperatureSysctl> = Vec::new();
        let mut i: usize = 0;
        while i < lines.len()
            invariant
                i <= lines@.len(),
                sensors@.len() == sensor_names(lines@.take(i as int)).len(),
                forall|k: int|
                    0 <= k < sensors@.len() ==> (#[trigger] sensors@[k]).name@ == sensor_names(
                        lines@.take(i as int),
                    )[k] && sensors@[k].value == 0,
            decreases lines@.len() - i,
        {
            assert(lines@.take(i + 1).drop_last() =~= lines@.take(i as int));
            if is_sensor_name(lines[i].as_str()) {
                sensors.push(TemperatureSysctl { name: lines[i].clone(), value: 0 });
            }
            i = i + 1;
        }
        assert(lines@.take(i as int) =~= lines@);
        sensors
    }

    /// Reads the sensor from a batch. Where the stream is too short,
    /// nothing changes.
    pub fn update(&mut self, reader: &mut Reader, e: Endianness) -> (r: Result<(), CodecError>)
        ensures
            final(self).name == old(self).name,
            match r {
                Ok(()) => {
                    &&& old(reader)@.len() >= 4
                    &&& final(self).value == u32_at(e, old(reader)@, 0)
                    &&& final(reader)@ == old(reader)@.subrange(4, old(reader)@.len() as int)
                },
                Err(err) => {
                    &&& err == CodecError::UnexpectedEof
                    &&& old(reader)@.len() < 4
                    &&& final(self).value == old(self).value
                    &&& final(reader)@ == old(reader)@
                },
            },
    {
        match reader.read_u32(e) {
            Ok(v) => {
                self.value = v;
                Ok(())
            },
            Err(err) => Err(err),
        }
    }

    /// The reading in hundredths of a degree Celsius.
    pub fn centi_celsius(&self) -> (t: i64)
        ensures
            t == self.value * 10 - 27315,
    {
        self.value as i64 * 10 - 27315
    }
}

} // verus!
