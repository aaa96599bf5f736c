//! The network interfaces: link status, addresses and traffic.

use vstd::prelude::*;

use crate::rate::{CounterState, CounterView, Rate, Sample};
use crate::ssh_exec::ifconfig;
use crate::ssh_exec::netstat_bin;
use crate::text::{chars_of, matches_at, str_eq};

verus! {

/// One interface.
#[derive(Debug)]
pub struct Interface {
    ifconfig_exec: ifconfig::Exec,
    /// What is wrong with the link, if anything.
    pub error: Option<String>,
    received: CounterState,
    sent: CounterState,
    addresses: Vec<String>,
}

/// An `Interface` as plain values.
pub struct InterfaceView {
    /// The command line that shows the link status.
    pub command: Seq<char>,
    pub error: Option<Seq<char>>,
    /// The counter of received bytes.
    pub received: CounterView,
    /// The counter of sent bytes.
    pub sent: CounterView,
    pub addresses: Seq<Seq<char>>,
}

/// The interfaces, those of the gateways first.
#[derive(Debug)]
pub struct Interfaces {
    names: Vec<String>,
    interfaces: Vec<Interface>,
}

/// What an `Interfaces` holds: names and interfaces, one for each name.
pub struct InterfacesView {
    pub names: Seq<Seq<char>>,
    pub interfaces: Seq<InterfaceView>,
}

/// Whether `s` starts with `head`.
pub open spec fn starts_with(s: Seq<char>, head: Seq<char>) -> bool {
    s.len() >= head.len() && s.subrange(0, head.len() as int) == head
}

/// Whether a row of the listing is the link-level row of its interface,
/// which carries the interface's byte counters.
pub open spec fn is_link_row(row: netstat_bin::Interface) -> bool {
    starts_with(row.network@, "<Link#"@)
}

/// The byte counters of the interface `name`, received and sent: those of
/// its first link-level row.
pub open spec fn link_counters(rows: Seq<netstat_bin::Interface>, name: Seq<char>) -> Option<
    (u64, u64),
>
    decreases rows.len(),
{
    if rows.len() == 0 {
        None
    } else if rows[0].name@ == name && is_link_row(rows[0]) {
        Some((rows[0].received_bytes, rows[0].sent_bytes))
    } else {
        link_counters(rows.drop_first(), name)
    }
}

/// The addresses of the interface `name`: those of its rows that are not
/// link-level, in the order of the listing.
pub open spec fn addresses_of(rows: Seq<netstat_bin::Interface>, name: Seq<char>) -> Seq<Seq<char>>
    decreases rows.len(),
{
    if rows.len() == 0 {
        Seq::empty()
    } else {
        let front = addresses_of(rows.drop_last(), name);
        if rows.last().name@ == name && !is_link_row(rows.last()) {
            front.push(rows.last().address@)
        } else {
            front
        }
    }
}

/// The views of a list of strings.
pub open spec fn string_views(list: Seq<String>) -> Seq<Seq<char>> {
    Seq::new(list.len(), |i: int| list[i]@)
}

/// The views of a list of interfaces.
pub open spec fn interface_views(list: Seq<Interface>) -> Seq<InterfaceView> {
    Seq::new(list.len(), |i: int| list[i]@)
}

impl InterfaceView {
    /// The interface after a cycle at the time `at`: the link status from
    /// what `ifconfig` printed, addresses and counters from the listing. An
    /// interface that the listing does not count keeps its samples.
    pub open spec fn update(
        self,
        name: Seq<char>,
        rows: Seq<netstat_bin::Interface>,
        status_lines: Seq<String>,
        at: u64,
    ) -> InterfaceView {
        InterfaceView {
            command: self.command,
            error: ifconfig::link_error(status_lines),
            received: match link_counters(rows, name) {
                Some((received, _)) => self.received.record(Sample { value: received, at }),
                None => self.received,
            },
            sent: match link_counters(rows, name) {
                Some((_, sent)) => self.sent.record(Sample { value: sent, at }),
                None => self.sent,
            },
            addresses: addresses_of(rows, name),
        }
    }

    /// The rates at which the interface receives and sends, known once
    /// both counters have a rate.
    pub open spec fn speed(self) -> Option<(Rate, Rate)> {
        match (self.received.rate(), self.sent.rate()) {
            (Some(down), Some(up)) => Some((down, up)),
            _ => None,
        }
    }
}

impl View for Interface {
    type V = InterfaceView;

    closed spec fn view(&self) -> InterfaceView {
        InterfaceView {
            command: self.ifconfig_exec@,
            error: match self.error {
                Some(error) => Some(error@),
                None => None,
            },
            received: self.received@,
            sent: self.sent@,
            addresses: string_views(self.addresses@),
        }
    }
}

impl View for Interfaces {
    type V = InterfacesView;

    closed spec fn view(&self) -> InterfacesView {
        InterfacesView {
            names: string_views(self.names@),
            interfaces: interface_views(self.interfaces@),
        }
    }
}

/// Whether a row is the link-level row of its interface.
fn row_is_link(row: &netstat_bin::Interface) -> (r: bool)
    ensures
        r == is_link_row(*row),
{
    let network: Vec<char> = chars_of(row.network.as_str());
    let head: Vec<char> = chars_of("<Link#");
    if network.len() < head.len() {
        return false;
    }
    matches_at(network.as_slice(), head.as_slice(), 0)
}

/// A fresh interface as plain values.
pub open spec fn fresh(name: Seq<char>) -> InterfaceView {
    InterfaceView {
        command: ifconfig::command_line(name),
        error: None,
        received: crate::rate::after(Seq::empty()),
        sent: crate::rate::after(Seq::empty()),
        addresses: Seq::empty(),
    }
}

impl Interface {
    /// An interface that was not read yet.
    pub fn new(name: &str) -> (interface: Self)
        ensures
            interface@ == fresh(name@),
    {
        let interface = Interface {
            ifconfig_exec: ifconfig::Exec::new(name),
            error: None,
            received: CounterState::new(),
            sent: CounterState::new(),
            addresses: Vec::new(),
        };
        assert(interface@.addresses =~= Seq::<Seq<char>>::empty());
        interface
    }

    /// The command line that shows the link status.
    pub fn command(&self) -> (c: &str)
        ensures
            c@ == self@.command,
    {
        self.ifconfig_exec.command()
    }

    /// What is wrong with the link, if anything.
    pub fn error(&self) -> (r: Option<&str>)
        ensures
            match r {
                Some(error) => self@.error == Some(error@),
                None => self@.error is None,
            },
    {
        match &self.error {
            Some(error) => Some(error.as_str()),
            None => None,
        }
    }

    /// Takes in one cycle's readings, taken at the time `at` in
    /// microseconds: the rows of the interface listing and the lines that
    /// the interface's `ifconfig` printed.
    pub fn update(
        &mut self,
        name: &str,
        rows: &Vec<netstat_bin::Interface>,
        status_lines: &Vec<String>,
        at: u64,
    )
        ensures
            final(self)@ == old(self)@.update(name@, rows@, status_lines@, at),
    {
        let ghost before = self@;
        self.error = ifconfig::Exec::status(status_lines);
        let mut addresses: Vec<String> = Vec::new();
        let mut counters: Option<(u64, u64)> = None;
        let mut i: usize = 0;
        assert(rows@.skip(0) =~= rows@);
        assert(string_views(addresses@) =~= addresses_of(rows@.take(0), name@));
        while i < rows.len()
            invariant
                i <= rows@.len(),
                string_views(addresses@) == addresses_of(rows@.take(i as int), name@),
                link_counters(rows@, name@) == match counters {
                    Some(found) => Some(found),
                    None => link_counters(rows@.skip(i as int), name@),
                },
            decreases rows@.len() - i,
        {
            assert(rows@.take(i + 1).drop_last() =~= rows@.take(i as int));
            assert(rows@.skip(i as int)[0] == rows@[i as int]);
            assert(rows@.skip(i as int).drop_first() =~= rows@.skip(i + 1));
            let row = &rows[i];
            if str_eq(row.name.as_str(), name) {
                if row_is_link(row) {
                    if counters.is_none() {
                        counters = Some((row.received_bytes, row.sent_bytes));
                    }
                } else {
                    let ghost listed = string_views(addresses@);
                    addresses.push(row.address.clone());
                    assert(string_views(addresses@) =~= listed.push(row.address@));
                }
            }
            i = i + 1;
        }
        assert(rows@.take(i as int) =~= rows@);
        self.addresses = addresses;
        match counters {
            Some((received, sent)) => {
                self.received.record(Sample { value: received, at });
                self.sent.record(Sample { value: sent, at });
            },
            None => {},
        }
        assert(self@.addresses == before.update(name@, rows@, status_lines@, at).addresses);
    }

    /// The rates at which the interface receives and sends: `None` until
    /// two cycles counted it, and when both fell on the same instant.
    pub fn speed(&self) -> (r: Option<(Rate, Rate)>)
        ensures
            r == self@.speed(),
    {
        match (self.received.rate(), self.sent.rate()) {
            (Some(down), Some(up)) => Some((down, up)),
            _ => None,
        }
    }

    /// Number of addresses.
    pub fn address_count(&self) -> (n: usize)
        ensures
            n == self@.addresses.len(),
    {
        self.addresses.len()
    }

    /// Address `i`.
    pub fn address(&self, i: usize) -> (r: Option<&str>)
        ensures
            match r {
                Some(address) => i < self@.addresses.len() && address@ == self@.addresses[i as int],
                None => i >= self@.addresses.len(),
            },
    {
        if i < self.addresses.len() {
            Some(self.addresses[i].as_str())
        } else {
            None
        }
    }
}

impl Interfaces {
    /// Whether there is one interface for each name.
    pub closed spec fn wf(&self) -> bool {
        self.names@.len() == self.interfaces@.len()
    }

    /// The interfaces of the gateways, then the others, none read yet.
    pub fn new(gateway_interfaces: Vec<String>, other_interfaces: Vec<String>) -> (all: Self)
        ensures
            all.wf(),
            all@.names == string_views(gateway_interfaces@) + string_views(other_interfaces@),
            all@.interfaces.len() == all@.names.len(),
            forall|i: int|
                0 <= i < all@.names.len() ==> all@.interfaces[i] == fresh(all@.names[i]),
    {
        let mut names: Vec<String> = gateway_interfaces;
        let mut others: Vec<String> = other_interfaces;
        let ghost first = string_views(names@);
        let ghost second = string_views(others@);
        names.append(&mut others);
        assert(string_views(names@) =~= first + second);
        let mut interfaces: Vec<Interface> = Vec::new();
        while interfaces.len() < names.len()
            invariant
                interfaces@.len() <= names@.len(),
                forall|k: int|
                    0 <= k < interfaces@.len() ==> (#[trigger] interfaces@[k])@ == fresh(
                        names@[k]@,
                    ),
            decreases names@.len() - interfaces@.len(),
        {
            let interface = Interface::new(names[interfaces.len()].as_str());
            interfaces.push(interface);
        }
        Interfaces { names, interfaces }
    }

    /// Number of interfaces.
    pub fn len(&self) -> (n: usize)
        requires
            self.wf(),
        ensures
            n == self@.names.len(),
            n == self@.interfaces.len(),
    {
        self.names.len()
    }

    /// Name and state of interface `i`.
    pub fn get(&self, i: usize) -> (r: Option<(&str, &Interface)>)
        requires
            self.wf(),
        ensures
            match r {
                Some((name, interface)) => {
                    &&& i < self@.names.len()
                    &&& name@ == self@.names[i as int]
                    &&& interface@ == self@.interfaces[i as int]
                },
                None => i >= self@.names.len(),
            },
    {
        if i < self.names.len() {
            Some((self.names[i].as_str(), &self.interfaces[i]))
        } else {
            None
        }
    }

    /// Takes in one cycle's readings for interface `i`; see
    /// `Interface::update`. An index that is out of range changes nothing.
    pub fn update(
        &mut self,
        i: usize,
        rows: &Vec<netstat_bin::Interface>,
        status_lines: &Vec<String>,
        at: u64,
    )
        requires
            old(self).wf(),
        ensures
            final(self).wf(),
            final(self)@.names == old(self)@.names,
            final(self)@.interfaces == if i < old(self)@.interfaces.len() {
                old(self)@.interfaces.update(
                    i as int,
                    old(self)@.interfaces[i as int].update(
                        old(self)@.names[i as int],
                        rows@,
                        status_lines@,
                        at,
                    ),
                )
            } else {
                old(self)@.interfaces
            },
    {
        if i >= self.names.len() {
            return ;
        }
        let ghost before = interface_views(self.interfaces@);
        let mut interface = self.interfaces.remove(i);
        interface.update(self.names[i].as_str(), rows, status_lines, at);
        let ghost after = interface@;
        self.interfaces.insert(i, interface);
        assert(interface_views(self.interfaces@) =~= before.update(i as int, after));
    }
}

} // verus!
