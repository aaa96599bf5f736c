//! The most recent firewall events, in a ring of fixed size.
//!
//! Every poll fetches the newest records of the filter log, newest first.
//! The digest of the newest record seen so far is the cursor: a batch is
//! new only up to the first record that carries this digest. The new
//! records are replayed oldest first, those that pass the filters are
//! decoded and written over the oldest entries of the ring, and the cursor
//! moves to the newest record of the batch whether or not it was kept.

use vstd::prelude::*;

use crate::ssh_exec::clog_filter_log;
use crate::ssh_exec::clog_filter_log::{
    LogAction,
    LogDirection,
    LogIpFields,
    LogReason,
    LogV4ProtoFields,
    LogV6ProtoFields,
};
use crate::text::str_eq;

verus! {

/// Number of events that the ring holds.
pub const CAPACITY: usize = 10;

/// An IP address as one big-endian number.
#[derive(Clone, Copy, Debug, PartialEq, Eq, Structural)]
pub enum IpAddress {
    V4(u32),
    V6(u128),
}

/// An address and a port.
#[derive(Clone, Copy, Debug, PartialEq, Eq, Structural)]
pub struct SocketAddress {
    pub ip: IpAddress,
    pub port: u16,
}

/// What is known of the packet's transport: ICMP has addresses only, TCP
/// and UDP have ports too.
#[derive(Clone, Copy, Debug, PartialEq, Eq, Structural)]
#[allow(inconsistent_fields)]
pub enum Protocol {
    Icmp { source: IpAddress, destination: IpAddress },
    Tcp { source: SocketAddress, destination: SocketAddress },
    Udp { source: SocketAddress, destination: SocketAddress },
}

/// What the filter did with the packet.
#[derive(Clone, Copy, Debug, PartialEq, Eq, Structural)]
pub enum Action {
    Block,
    Pass,
}

/// One firewall event.
#[derive(Clone, Debug)]
pub struct Log {
    pub timestamp: String,
    pub interface: String,
    pub action: Action,
    pub protocol: Protocol,
}

/// A firewall event as plain values.
pub struct LogView {
    pub timestamp: Seq<char>,
    pub interface: Seq<char>,
    pub action: Action,
    pub protocol: Protocol,
}

impl View for Log {
    type V = LogView;

    open spec fn view(&self) -> LogView {
        LogView {
            timestamp: self.timestamp@,
            interface: self.interface@,
            action: self.action,
            protocol: self.protocol,
        }
    }
}

/// The ring of events with its cursor.
pub struct Logs {
    interfaces: Vec<String>,
    inner: Vec<Option<Log>>,
    // Slot of the newest event. Moves backwards as events are written.
    head: usize,
    // Number of slots in use, counted from `head`.
    len: usize,
    previous_digest: Option<String>,
}

/// What a `Logs` holds.
pub struct LogsView {
    /// Names of the monitored interfaces.
    pub interfaces: Set<Seq<char>>,
    /// The events, newest first.
    pub entries: Seq<LogView>,
    /// Digest of the newest record seen.
    pub cursor: Option<Seq<char>>,
}

/// The names in a list of strings.
pub open spec fn names(list: Seq<String>) -> Set<Seq<char>> {
    Set::new(|name: Seq<char>| exists|i: int| 0 <= i < list.len() && #[trigger] list[i]@ == name)
}

/// The event's action, if the record has one of the two that are shown.
pub open spec fn decode_action(action: LogAction) -> Option<Action> {
    match action {
        LogAction::Block => Some(Action::Block),
        LogAction::Pass => Some(Action::Pass),
        LogAction::Other => None,
    }
}

/// The event's protocol detail, if IP version and transport are known.
pub open spec fn decode_protocol(fields: LogIpFields) -> Option<Protocol> {
    match fields {
        LogIpFields::V4 { proto, src, dest } => match proto {
            LogV4ProtoFields::Icmp => Some(
                Protocol::Icmp { source: IpAddress::V4(src), destination: IpAddress::V4(dest) },
            ),
            LogV4ProtoFields::Tcp { src_port, dest_port } => Some(
                Protocol::Tcp {
                    source: SocketAddress { ip: IpAddress::V4(src), port: src_port },
                    destination: SocketAddress { ip: IpAddress::V4(dest), port: dest_port },
                },
            ),
            LogV4ProtoFields::Udp { src_port, dest_port } => Some(
                Protocol::Udp {
                    source: SocketAddress { ip: IpAddress::V4(src), port: src_port },
                    destination: SocketAddress { ip: IpAddress::V4(dest), port: dest_port },
                },
            ),
            LogV4ProtoFields::Other => None,
        },
        LogIpFields::V6 { proto, src, dest } => match proto {
            LogV6ProtoFields::Icmpv6 => Some(
                Protocol::Icmp { source: IpAddress::V6(src), destination: IpAddress::V6(dest) },
            ),
            LogV6ProtoFields::Tcp { src_port, dest_port } => Some(
                Protocol::Tcp {
                    source: SocketAddress { ip: IpAddress::V6(src), port: src_port },
                    destination: SocketAddress { ip: IpAddress::V6(dest), port: dest_port },
                },
            ),
            LogV6ProtoFields::Udp { src_port, dest_port } => Some(
                Protocol::Udp {
                    source: SocketAddress { ip: IpAddress::V6(src), port: src_port },
                    destination: SocketAddress { ip: IpAddress::V6(dest), port: dest_port },
                },
            ),
            LogV6ProtoFields::Other => None,
        },
        LogIpFields::Other => None,
    }
}

/// Whether a record passes the filters: written because a rule matched,
/// for an inbound packet, on a monitored interface.
pub open spec fn passes(record: clog_filter_log::Log, interfaces: Set<Seq<char>>) -> bool {
    &&& record.reason == LogReason::Match
    &&& record.direction == LogDirection::In
    &&& interfaces.contains(record.interface@)
}

/// The event that a record is kept as, or `None` for a record that is
/// dropped: one that fails the filters or cannot be decoded.
pub open spec fn accepted(record: clog_filter_log::Log, interfaces: Set<Seq<char>>) -> Option<
    LogView,
> {
    if passes(record, interfaces) {
        match (decode_action(record.action), decode_protocol(record.ip_fields)) {
            (Some(action), Some(protocol)) => Some(
                LogView {
                    timestamp: record.timestamp@,
                    interface: record.interface@,
                    action,
                    protocol,
                },
            ),
            _ => None,
        }
    } else {
        None
    }
}

/// Number of records at the front of a batch that were not seen before:
/// those before the first record whose digest is the cursor.
pub open spec fn fresh_len(batch: Seq<clog_filter_log::Log>, cursor: Option<Seq<char>>) -> nat
    decreases batch.len(),
{
    if batch.len() == 0 || cursor == Some(batch[0].digest@) {
        0
    } else {
        1 + fresh_len(batch.drop_first(), cursor)
    }
}

/// The ring after one more event: the event in front, and no more than
/// `CAPACITY` events in all.
pub open spec fn push(entries: Seq<LogView>, log: LogView) -> Seq<LogView> {
    let all = seq![log] + entries;
    if all.len() > CAPACITY {
        all.take(CAPACITY as int)
    } else {
        all
    }
}

/// The ring after the records of `fresh`, which holds the newest first,
/// were replayed oldest first.
pub open spec fn replay(
    entries: Seq<LogView>,
    fresh: Seq<clog_filter_log::Log>,
    interfaces: Set<Seq<char>>,
) -> Seq<LogView>
    decreases fresh.len(),
{
    if fresh.len() == 0 {
        entries
    } else {
        let older = replay(entries, fresh.drop_first(), interfaces);
        match accepted(fresh[0], interfaces) {
            Some(log) => push(older, log),
            None => older,
        }
    }
}

impl LogsView {
    /// The state after a batch, which holds the newest record first.
    pub open spec fn update(self, batch: Seq<clog_filter_log::Log>) -> LogsView {
        LogsView {
            interfaces: self.interfaces,
            entries: replay(
                self.entries,
                batch.take(fresh_len(batch, self.cursor) as int),
                self.interfaces,
            ),
            cursor: if batch.len() > 0 {
                Some(batch[0].digest@)
            } else {
                self.cursor
            },
        }
    }
}

/// A ring within its capacity stays within it.
pub proof fn lemma_replay_bounded(
    entries: Seq<LogView>,
    fresh: Seq<clog_filter_log::Log>,
    interfaces: Set<Seq<char>>,
)
    requires
        entries.len() <= CAPACITY,
    ensures
        replay(entries, fresh, interfaces).len() <= CAPACITY,
    decreases fresh.len(),
{
    if fresh.len() > 0 {
        lemma_replay_bounded(entries, fresh.drop_first(), interfaces);
    }
}

/// The slot that holds the event `j` places behind the newest.
pub open spec fn slot(head: int, j: int) -> int {
    (head + j) % (CAPACITY as int)
}

impl View for Logs {
    type V = LogsView;

    closed spec fn view(&self) -> LogsView {
        LogsView {
            interfaces: names(self.interfaces@),
            entries: Seq::new(
                self.len as nat,
                |j: int| self.inner@[slot(self.head as int, j)]->0@,
            ),
            cursor: match self.previous_digest {
                Some(digest) => Some(digest@),
                None => None,
            },
        }
    }
}

/// Whether `name` is one of the strings of `list`.
fn contains_name(list: &Vec<String>, name: &str) -> (r: bool)
    ensures
        r == names(list@).contains(name@),
{
    let mut i: usize = 0;
    while i < list.len()
        invariant
            i <= list@.len(),
            forall|k: int| 0 <= k < i ==> (#[trigger] list@[k])@ != name@,
        decreases list@.len() - i,
    {
        if str_eq(list[i].as_str(), name) {
            return true;
        }
        i = i + 1;
    }
    false
}

/// Decodes a record that passed the filters.
fn decode(record: clog_filter_log::Log) -> (r: Option<Log>)
    ensures
        match (decode_action(record.action), decode_protocol(record.ip_fields)) {
            (Some(action), Some(protocol)) => r matches Some(log) && log@ == (LogView {
                timestamp: record.timestamp@,
                interface: record.interface@,
                action,
                protocol,
            }),
            _ => r is None,
        },
{
    let action = match record.action {
        LogAction::Block => Action::Block,
        LogAction::Pass => Action::Pass,
        LogAction::Other => {
            return None;
        },
    };
    let protocol = match record.ip_fields {
        LogIpFields::V4 { proto, src, dest } => match proto {
            LogV4ProtoFields::Icmp => Protocol::Icmp {
                source: IpAddress::V4(src),
                destination: IpAddress::V4(dest),
            },
            LogV4ProtoFields::Tcp { src_port, dest_port } => Protocol::Tcp {
                source: SocketAddress { ip: IpAddress::V4(src), port: src_port },
                destination: SocketAddress { ip: IpAddress::V4(dest), port: dest_port },
            },
            LogV4ProtoFields::Udp { src_port, dest_port } => Protocol::Udp {
                source: SocketAddress { ip: IpAddress::V4(src), port: src_port },
                destination: SocketAddress { ip: IpAddress::V4(dest), port: dest_port },
            },
            LogV4ProtoFields::Other => {
                return None;
            },
        },
        LogIpFields::V6 { proto, src, dest } => match proto {
            LogV6ProtoFields::Icmpv6 => Protocol::Icmp {
                source: IpAddress::V6(src),
                destination: IpAddress::V6(dest),
            },
            LogV6ProtoFields::Tcp { src_port, dest_port } => Protocol::Tcp {
                source: SocketAddress { ip: IpAddress::V6(src), port: src_port },
                destination: SocketAddress { ip: IpAddress::V6(dest), port: dest_port },
            },
            LogV6ProtoFields::Udp { src_port, dest_port } => Protocol::Udp {
                source: SocketAddress { ip: IpAddress::V6(src), port: src_port },
                destination: SocketAddress { ip: IpAddress::V6(dest), port: dest_port },
            },
            LogV6ProtoFields::Other => {
                return None;
            },
        },
        LogIpFields::Other => {
            return None;
        },
    };
    Some(Log { timestamp: record.timestamp, interface: record.interface, action, protocol })
}

impl Logs {
    /// Whether the ring is well formed: it has its `CAPACITY` slots, and
    /// the slots in use, counted from the newest, are filled.
    pub closed spec fn wf(&self) -> bool {
        &&& self.inner@.len() == CAPACITY
        &&& self.head < CAPACITY
        &&& self.len <= CAPACITY
        &&& forall|j: int|
            0 <= j < self.len ==> self.inner@[#[trigger] slot(self.head as int, j)] is Some
    }

    /// An empty ring for the given monitored interfaces, with no cursor.
    pub fn new(interfaces: Vec<String>) -> (logs: Self)
        ensures
            logs.wf(),
            logs@.interfaces == names(interfaces@),
            logs@.entries.len() == 0,
            logs@.cursor is None,
    {
        let mut inner: Vec<Option<Log>> = Vec::new();
        while inner.len() < CAPACITY
            invariant
                inner@.len() <= CAPACITY,
            decreases CAPACITY - inner@.len(),
        {
            inner.push(None);
        }
        let logs = Logs { interfaces, inner, head: 0, len: 0, previous_digest: None };
        assert(logs@.interfaces == names(interfaces@));
        logs
    }

    /// Number of events in the ring.
    pub fn len(&self) -> (n: usize)
        requires
            self.wf(),
        ensures
            n == self@.entries.len(),
            n <= CAPACITY,
    {
        self.len
    }

    /// The event `i` places behind the newest.
    pub fn get(&self, i: usize) -> (r: Option<&Log>)
        requires
            self.wf(),
        ensures
            i < self@.entries.len() ==> (r matches Some(log) && log@ == self@.entries[i as int]),
            i >= self@.entries.len() ==> r is None,
    {
        if i >= self.len {
            return None;
        }
        let at: usize = (self.head + i) % CAPACITY;
        assert(at == slot(self.head as int, i as int));
        self.inner[at].as_ref()
    }

    /// The digest of the newest record seen, which the next fetch passes on.
    pub fn previous_digest(&self) -> (r: Option<&str>)
        ensures
            match r {
                Some(digest) => self@.cursor == Some(digest@),
                None => self@.cursor is None,
            },
    {
        match &self.previous_digest {
            Some(digest) => Some(digest.as_str()),
            None => None,
        }
    }

    /// Writes one event over the oldest slot.
    fn push(&mut self, log: Log)
        requires
            old(self).wf(),
        ensures
            final(self).wf(),
            final(self)@.entries == push(old(self)@.entries, log@),
            final(self)@.interfaces == old(self)@.interfaces,
            final(self)@.cursor == old(self)@.cursor,
    {
        let ghost before = self@.entries;
        let ghost old_head = self.head as int;
        let ghost old_len = self.len as int;
        let head: usize = (self.head + CAPACITY - 1) % CAPACITY;
        let ghost entry = log@;
        assert forall|j: int| 1 <= j <= old_len implies slot(head as int, j) == slot(
            old_head,
            j - 1,
        ) by {}
        assert forall|j: int| 1 <= j < CAPACITY implies slot(head as int, j) != head by {}
        self.inner.set(head, Some(log));
        self.head = head;
        if self.len < CAPACITY {
            self.len = self.len + 1;
        }
        assert(slot(head as int, 0) == head);
        assert(self@.entries =~= push(before, entry)) by {
            assert forall|j: int| 1 <= j < self.len implies self@.entries[j] == before[j - 1] by {
                assert(slot(head as int, j) == slot(old_head, j - 1));
            }
        }
    }
}

impl Logs {
    /// Whether `digest` is the cursor.
    fn is_cursor(&self, digest: &str) -> (r: bool)
        ensures
            r == (self@.cursor == Some(digest@)),
    {
        match &self.previous_digest {
            Some(previous) => str_eq(previous.as_str(), digest),
            None => false,
        }
    }

    /// Takes in one batch of the filter log, which holds the newest record
    /// first.
    ///
    /// Records from the first one that carries the cursor's digest on were
    /// seen before and are ignored. The others are replayed oldest first:
    /// a record that passes the filters and can be decoded becomes the
    /// newest event of the ring, any other is dropped. The cursor becomes
    /// the digest of the batch's newest record, kept or not; an empty batch
    /// changes nothing.
    pub fn update(&mut self, batch: Vec<clog_filter_log::Log>)
        requires
            old(self).wf(),
        ensures
            final(self).wf(),
            final(self)@ == old(self)@.update(batch@),
            final(self)@.entries.len() <= CAPACITY,
    {
        let ghost all = batch@;
        let ghost before = self@;
        let mut batch = batch;
        let n: usize = batch.len();
        if n == 0 {
            assert(all.take(0) =~= all);
            return ;
        }
        let newest: String = batch[0].digest.clone();
        let mut k: usize = 0;
        assert(all.skip(0) =~= all);
        while k < n && !self.is_cursor(batch[k].digest.as_str())
            invariant
                k <= n,
                n == all.len(),
                batch@ == all,
                self@ == before,
                fresh_len(all, before.cursor) == k + fresh_len(all.skip(k as int), before.cursor),
            decreases n - k,
        {
            assert(all.skip(k as int).drop_first() =~= all.skip(k + 1));
            k = k + 1;
        }
        assert(fresh_len(all, before.cursor) == k) by {
            if k < n {
                assert(all.skip(k as int)[0] == all[k as int]);
            }
        }
        let ghost fresh = all.take(k as int);
        batch.truncate(k);
        assert(batch@ =~= fresh);
        assert(fresh.subrange(k as int, k as int) =~= Seq::<clog_filter_log::Log>::empty());
        while batch.len() > 0
            invariant
                self.wf(),
                batch@.len() <= k,
                k == fresh.len(),
                batch@ == fresh.take(batch@.len() as int),
                self@.interfaces == before.interfaces,
                self@.cursor == before.cursor,
                self@.entries == replay(
                    before.entries,
                    fresh.subrange(batch@.len() as int, k as int),
                    before.interfaces,
                ),
            decreases batch@.len(),
        {
            let ghost m = batch@.len() as int;
            let ghost older = fresh.subrange(m, k as int);
            let ghost now = fresh.subrange(m - 1, k as int);
            let record = batch.pop().unwrap();
            assert(record == fresh[m - 1]);
            assert(now.drop_first() =~= older);
            assert(now[0] == record);
            assert(batch@ =~= fresh.take(m - 1));
            let keep: bool = record.reason == LogReason::Match && record.direction
                == LogDirection::In && contains_name(&self.interfaces, record.interface.as_str());
            if keep {
                match decode(record) {
                    Some(log) => {
                        self.push(log);
                    },
                    None => {},
                }
            }
        }
        assert(fresh.subrange(0, k as int) =~= fresh);
        self.previous_digest = Some(newest);
        assert(self@.entries == before.update(all).entries);
        assert(self@.cursor == before.update(all).cursor);
        proof {
            lemma_replay_bounded(before.entries, fresh, before.interfaces);
        }
    }

    /// The events, newest first.
    pub fn iter(&self) -> (events: Vec<&Log>)
        requires
            self.wf(),
        ensures
            events@.len() == self@.entries.len(),
            forall|i: int| 0 <= i < events@.len() ==> (#[trigger] events@[i])@ == self@.entries[i],
    {
        let mut events: Vec<&Log> = Vec::new();
        let mut i: usize = 0;
        while i < self.len
            invariant
                self.wf(),
                i <= self.len,
                events@.len() == i,
                forall|j: int| 0 <= j < i ==> (#[trigger] events@[j])@ == self@.entries[j],
            decreases self.len - i,
        {
            match self.get(i) {
                Some(log) => {
                    events.push(log);
                },
                None => {},
            }
            i = i + 1;
        }
        events
    }
}

/// The first `CAPACITY` events of a list.
pub open spec fn truncated(entries: Seq<LogView>) -> Seq<LogView> {
    if entries.len() > CAPACITY {
        entries.take(CAPACITY as int)
    } else {
        entries
    }
}

/// The events that the records of `fresh` are kept as, in the order of the
/// records.
pub open spec fn kept(fresh: Seq<clog_filter_log::Log>, interfaces: Set<Seq<char>>) -> Seq<LogView>
    decreases fresh.len(),
{
    if fresh.len() == 0 {
        Seq::empty()
    } else {
        let rest = kept(fresh.drop_first(), interfaces);
        match accepted(fresh[0], interfaces) {
            Some(log) => seq![log] + rest,
            None => rest,
        }
    }
}

/// The ring never holds more than `CAPACITY` events, and it holds the
/// newest: after a replay it shows the events kept from the new records,
/// newest first, followed by what it held before, cut off at `CAPACITY`.
/// So once `CAPACITY` or more events were kept, the ring shows exactly the
/// newest `CAPACITY` of them.
pub proof fn lemma_ring_keeps_newest(
    entries: Seq<LogView>,
    fresh: Seq<clog_filter_log::Log>,
    interfaces: Set<Seq<char>>,
)
    requires
        entries.len() <= CAPACITY,
    ensures
        replay(entries, fresh, interfaces) == truncated(kept(fresh, interfaces) + entries),
        replay(entries, fresh, interfaces).len() <= CAPACITY,
        kept(fresh, interfaces).len() >= CAPACITY ==> replay(entries, fresh, interfaces) == kept(
            fresh,
            interfaces,
        ).take(CAPACITY as int),
    decreases fresh.len(),
{
    let all = kept(fresh, interfaces) + entries;
    if fresh.len() == 0 {
        assert(all =~= entries);
    } else {
        let rest = fresh.drop_first();
        lemma_ring_keeps_newest(entries, rest, interfaces);
        let older = kept(rest, interfaces) + entries;
        match accepted(fresh[0], interfaces) {
            Some(log) => {
                assert(all =~= seq![log] + older);
                assert(push(truncated(older), log) =~= truncated(seq![log] + older));
            },
            None => {
                assert(all =~= older);
            },
        }
    }
    if kept(fresh, interfaces).len() >= CAPACITY {
        assert(truncated(all) =~= kept(fresh, interfaces).take(CAPACITY as int));
    }
}

/// Feeding the same batch twice changes nothing the second time: the
/// cursor then is the digest of the batch's newest record, so no record of
/// it is new.
pub proof fn lemma_update_idempotent(state: LogsView, batch: Seq<clog_filter_log::Log>)
    ensures
        state.update(batch).update(batch) == state.update(batch),
{
    let once = state.update(batch);
    if batch.len() == 0 {
        assert(batch.take(0) =~= batch);
    } else {
        assert(fresh_len(batch, once.cursor) == 0);
    }
    assert(batch.take(0).len() == 0);
}

/// A record that fails a filter (it was not written for a rule match, or
/// the packet was not inbound, or the interface is not monitored) is never
/// kept: the ring is what it would be had the record not been in the batch.
pub proof fn lemma_filtered_record_is_dropped(
    entries: Seq<LogView>,
    fresh: Seq<clog_filter_log::Log>,
    interfaces: Set<Seq<char>>,
    i: int,
)
    requires
        0 <= i < fresh.len(),
        !passes(fresh[i], interfaces),
    ensures
        accepted(fresh[i], interfaces) is None,
        replay(entries, fresh, interfaces) == replay(entries, fresh.remove(i), interfaces),
    decreases fresh.len(),
{
    if i == 0 {
        assert(fresh.remove(0) =~= fresh.drop_first());
    } else {
        lemma_filtered_record_is_dropped(entries, fresh.drop_first(), interfaces, i - 1);
        assert(fresh.remove(i).drop_first() =~= fresh.drop_first().remove(i - 1));
        assert(fresh.remove(i)[0] == fresh[0]);
    }
}

/// The cursor goes to the newest record of a batch whether or not that
/// record was kept, and an empty batch leaves it alone.
pub proof fn lemma_cursor_follows_newest(state: LogsView, batch: Seq<clog_filter_log::Log>)
    ensures
        batch.len() > 0 ==> state.update(batch).cursor == Some(batch[0].digest@),
        batch.len() == 0 ==> state.update(batch) == state,
        state.update(batch).interfaces == state.interfaces,
{
    if batch.len() == 0 {
        assert(batch.take(0) =~= batch);
    }
}

impl Action {
    /// How an action is shown: in five characters.
    pub open spec fn shown(self) -> Seq<char> {
        match self {
            Action::Block => "block"@,
            Action::Pass => "pass "@,
        }
    }

    /// The action that a word names.
    pub open spec fn named(word: Seq<char>) -> Option<Action> {
        if word == "block"@ {
            Some(Action::Block)
        } else if word == "pass"@ {
            Some(Action::Pass)
        } else {
            None
        }
    }

    /// How the action is shown.
    pub fn as_str(&self) -> (s: &'static str)
        ensures
            s@ == self.shown(),
    {
        match self {
            Action::Block => "block",
            Action::Pass => "pass ",
        }
    }

    /// The action that `word` names: `block` or `pass`.
    pub fn from_str(word: &str) -> (r: Option<Action>)
        ensures
            r == Self::named(word@),
    {
        if str_eq(word, "block") {
            Some(Action::Block)
        } else if str_eq(word, "pass") {
            Some(Action::Pass)
        } else {
            None
        }
    }

    /// Whether events of this action are shown in the colour of things
    /// that are up: blocked packets are.
    pub fn is_good(&self) -> (r: bool)
        ensures
            r == (*self == Action::Block),
    {
        match self {
            Action::Block => true,
            Action::Pass => false,
        }
    }
}

impl IpAddress {
    /// What a source address is shown as: an IPv4 address as it is, an
    /// IPv6 address as the start of its /64 network, the lower half
    /// cleared.
    pub open spec fn spec_source_network(self) -> IpAddress {
        match self {
            IpAddress::V4(address) => IpAddress::V4(address),
            IpAddress::V6(address) => IpAddress::V6(
                (address - address % 0x1_0000_0000_0000_0000) as u128,
            ),
        }
    }

    /// What a source address is shown as.
    pub fn source_network(self) -> (r: IpAddress)
        ensures
            r == self.spec_source_network(),
    {
        match self {
            IpAddress::V4(address) => IpAddress::V4(address),
            IpAddress::V6(address) => IpAddress::V6(address - address % 0x1_0000_0000_0000_0000),
        }
    }
}

} // verus!
