//! The physical disks and their SMART state.

use vstd::prelude::*;

use crate::ssh_exec::smartctl_a;

verus! {

/// One disk.
#[derive(Debug)]
pub struct Disk {
    pub name: String,
    pub serial_number: String,
    smart_exec: smartctl_a::Exec,
    pub smart_passed: bool,
    /// Degrees Celsius.
    pub temperature: u32,
}

/// A `Disk` as plain values.
pub struct DiskView {
    pub name: Seq<char>,
    pub serial_number: Seq<char>,
    /// The command line that reads the disk's state.
    pub command: Seq<char>,
    pub smart_passed: bool,
    pub temperature: u32,
}

impl View for Disk {
    type V = DiskView;

    closed spec fn view(&self) -> DiskView {
        DiskView {
            name: self.name@,
            serial_number: self.serial_number@,
            command: self.smart_exec@,
            smart_passed: self.smart_passed,
            temperature: self.temperature,
        }
    }
}

impl Disk {
    /// A disk that was not read yet: it has not passed, and its
    /// temperature is zero.
    pub fn new(name: String, serial_number: String) -> (disk: Self)
        ensures
            disk@ == (DiskView {
                name: name@,
                serial_number: serial_number@,
                command: smartctl_a::command_line(name@),
                smart_passed: false,
                temperature: 0,
            }),
    {
        let smart_exec = smartctl_a::Exec::new(name.as_str());
        Disk { name, serial_number, smart_exec, smart_passed: false, temperature: 0 }
    }

    /// The disk's name.
    pub fn name(&self) -> (name: &str)
        ensures
            name@ == self@.name,
    {
        self.name.as_str()
    }

    /// The disk's serial number.
    pub fn serial_number(&self) -> (serial_number: &str)
        ensures
            serial_number@ == self@.serial_number,
    {
        self.serial_number.as_str()
    }

    /// Whether the disk passed its self-assessment.
    pub fn smart_passed(&self) -> (passed: bool)
        ensures
            passed == self@.smart_passed,
    {
        self.smart_passed
    }

    /// The disk's temperature in degrees Celsius.
    pub fn temperature(&self) -> (temperature: u32)
        ensures
            temperature == self@.temperature,
    {
        self.temperature
    }

    /// The command line that reads the disk's state.
    pub fn command(&self) -> (c: &str)
        ensures
            c@ == self@.command,
    {
        self.smart_exec.command()
    }

    /// Takes in what the command reported.
    pub fn update(&mut self, output: smartctl_a::Output)
        ensures
            final(self)@ == (DiskView {
                name: old(self)@.name,
                serial_number: old(self)@.serial_number,
                command: old(self)@.command,
                smart_passed: match output.passed {
                    Some(passed) => passed,
                    None => false,
                },
                temperature: match output.temperature {
                    Some(current) => current,
                    None => 0,
                },
            }),
    {
        let (passed, current) = smartctl_a::Exec::status(output);
        self.smart_passed = passed;
        self.temperature = current;
    }
}

} // verus!
