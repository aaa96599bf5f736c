use opnsense_dashboard::firewall_logs::{
    Action, IpAddress, Log, Logs, Protocol, SocketAddress, CAPACITY,
};
use opnsense_dashboard::ssh_exec::clog_filter_log::{
    command, parse_port, Log as Record, LogAction, LogDirection, LogIpFields, LogReason,
    LogV4ProtoFields, LogV6ProtoFields,
};

fn record(digest: &str) -> Record {
    Record {
        action: LogAction::Block,
        digest: digest.to_owned(),
        direction: LogDirection::In,
        interface: "igb0".to_owned(),
        ip_fields: LogIpFields::V4 {
            proto: LogV4ProtoFields::Tcp { src_port: 4000, dest_port: 22 },
            src: 0x0A00_0001,
            dest: 0x0A00_0002,
        },
        reason: LogReason::Match,
        timestamp: format!("t-{digest}"),
    }
}

fn logs() -> Logs {
    Logs::new(vec!["igb0".to_owned(), "igb1".to_owned()])
}

fn timestamps(logs: &Logs) -> Vec<String> {
    logs.iter().into_iter().map(|log: &Log| log.timestamp.clone()).collect()
}

#[test]
fn new_ring_is_empty() {
    let logs = logs();
    assert_eq!(logs.len(), 0);
    assert!(logs.get(0).is_none());
    assert_eq!(logs.previous_digest(), None);
    assert!(logs.iter().is_empty());
}

#[test]
fn batch_is_replayed_oldest_first_and_shown_newest_first() {
    let mut logs = logs();
    logs.update(vec![record("c"), record("b"), record("a")]);
    assert_eq!(timestamps(&logs), vec!["t-c", "t-b", "t-a"]);
    assert_eq!(logs.previous_digest(), Some("c"));
    assert_eq!(logs.get(0).unwrap().timestamp, "t-c");
    assert_eq!(logs.get(2).unwrap().timestamp, "t-a");
    assert!(logs.get(3).is_none());
}

#[test]
fn record_is_decoded() {
    let mut logs = logs();
    logs.update(vec![record("a")]);
    let log = logs.get(0).unwrap();
    assert_eq!(log.interface, "igb0");
    assert_eq!(log.action, Action::Block);
    assert_eq!(
        log.protocol,
        Protocol::Tcp {
            source: SocketAddress { ip: IpAddress::V4(0x0A00_0001), port: 4000 },
            destination: SocketAddress { ip: IpAddress::V4(0x0A00_0002), port: 22 },
        }
    );
}

#[test]
fn icmp_carries_addresses_only() {
    let mut logs = logs();
    let mut v4 = record("a");
    v4.ip_fields = LogIpFields::V4 { proto: LogV4ProtoFields::Icmp, src: 1, dest: 2 };
    let mut v6 = record("b");
    v6.action = LogAction::Pass;
    v6.ip_fields = LogIpFields::V6 { proto: LogV6ProtoFields::Icmpv6, src: 3, dest: 4 };
    let mut udp = record("c");
    udp.ip_fields = LogIpFields::V6 {
        proto: LogV6ProtoFields::Udp { src_port: 53, dest_port: 5353 },
        src: 5,
        dest: 6,
    };
    logs.update(vec![udp, v6, v4]);
    assert_eq!(
        logs.get(2).unwrap().protocol,
        Protocol::Icmp { source: IpAddress::V4(1), destination: IpAddress::V4(2) }
    );
    assert_eq!(
        logs.get(1).unwrap().protocol,
        Protocol::Icmp { source: IpAddress::V6(3), destination: IpAddress::V6(4) }
    );
    assert_eq!(logs.get(1).unwrap().action, Action::Pass);
    assert_eq!(
        logs.get(0).unwrap().protocol,
        Protocol::Udp {
            source: SocketAddress { ip: IpAddress::V6(5), port: 53 },
            destination: SocketAddress { ip: IpAddress::V6(6), port: 5353 },
        }
    );
}

#[test]
fn ring_keeps_the_newest_ten() {
    let mut logs = logs();
    let digests: Vec<String> = (0..25).map(|i| format!("d{i:02}")).collect();
    // Newest first: d24, d23, ..., d00.
    let batch: Vec<Record> = digests.iter().rev().map(|d| record(d)).collect();
    logs.update(batch);
    assert_eq!(logs.len(), CAPACITY);
    let expected: Vec<String> = (15..25).rev().map(|i| format!("t-d{i:02}")).collect();
    assert_eq!(timestamps(&logs), expected);
}

#[test]
fn ring_never_grows_beyond_capacity() {
    let mut logs = logs();
    for i in 0..40 {
        logs.update(vec![record(&format!("d{i}"))]);
        assert!(logs.len() <= CAPACITY);
        assert_eq!(logs.len(), std::cmp::min(i + 1, CAPACITY));
        assert_eq!(logs.get(0).unwrap().timestamp, format!("t-d{i}"));
    }
    let expected: Vec<String> = (30..40).rev().map(|i| format!("t-d{i}")).collect();
    assert_eq!(timestamps(&logs), expected);
}

#[test]
fn same_batch_twice_inserts_nothing_new() {
    let mut logs = logs();
    let batch = || vec![record("c"), record("b"), record("a")];
    logs.update(batch());
    let once = timestamps(&logs);
    logs.update(batch());
    assert_eq!(timestamps(&logs), once);
    assert_eq!(logs.len(), 3);
    assert_eq!(logs.previous_digest(), Some("c"));
}

#[test]
fn records_from_the_cursor_on_were_seen() {
    let mut logs = logs();
    logs.update(vec![record("b"), record("a")]);
    logs.update(vec![record("d"), record("c"), record("b"), record("a")]);
    assert_eq!(timestamps(&logs), vec!["t-d", "t-c", "t-b", "t-a"]);
    assert_eq!(logs.previous_digest(), Some("d"));
}

#[test]
fn empty_batch_changes_nothing() {
    let mut logs = logs();
    logs.update(vec![record("a")]);
    logs.update(vec![]);
    assert_eq!(timestamps(&logs), vec!["t-a"]);
    assert_eq!(logs.previous_digest(), Some("a"));
}

#[test]
fn filtered_records_are_dropped_but_move_the_cursor() {
    let mut logs = logs();
    let mut other_reason = record("r");
    other_reason.reason = LogReason::Other;
    let mut outbound = record("o");
    outbound.direction = LogDirection::Other;
    let mut elsewhere = record("e");
    elsewhere.interface = "em9".to_owned();
    logs.update(vec![other_reason, record("k"), outbound, elsewhere]);
    assert_eq!(timestamps(&logs), vec!["t-k"]);
    // The newest record was filtered out; the cursor is its digest all the same.
    assert_eq!(logs.previous_digest(), Some("r"));
}

#[test]
fn undecodable_records_are_dropped() {
    let mut logs = logs();
    let mut action = record("a");
    action.action = LogAction::Other;
    let mut version = record("b");
    version.ip_fields = LogIpFields::Other;
    let mut v4 = record("c");
    v4.ip_fields = LogIpFields::V4 { proto: LogV4ProtoFields::Other, src: 0, dest: 0 };
    let mut v6 = record("d");
    v6.ip_fields = LogIpFields::V6 { proto: LogV6ProtoFields::Other, src: 0, dest: 0 };
    logs.update(vec![v6, v4, version, action]);
    assert_eq!(logs.len(), 0);
    assert_eq!(logs.previous_digest(), Some("d"));
}

#[test]
fn fetch_command_carries_the_cursor() {
    assert_eq!(command(None), "/usr/local/sbin/configctl filter read log 100");
    assert_eq!(command(Some("abc")), "/usr/local/sbin/configctl filter read log 100 abc");
}

#[test]
fn ports_are_decimal_strings() {
    assert_eq!(parse_port("22"), Some(22));
    assert_eq!(parse_port("65535"), Some(65535));
    assert_eq!(parse_port("+80"), Some(80));
    assert_eq!(parse_port("65536"), None);
    assert_eq!(parse_port(""), None);
    assert_eq!(parse_port("+"), None);
    assert_eq!(parse_port("-1"), None);
    assert_eq!(parse_port("8o"), None);
    assert_eq!(parse_port(" 80"), None);
}

#[test]
fn actions_are_named_and_shown() {
    assert_eq!(Action::from_str("block"), Some(Action::Block));
    assert_eq!(Action::from_str("pass"), Some(Action::Pass));
    assert_eq!(Action::from_str("pass "), None);
    assert_eq!(Action::Block.as_str(), "block");
    assert_eq!(Action::Pass.as_str(), "pass ");
    assert!(Action::Block.is_good());
    assert!(!Action::Pass.is_good());
}

#[test]
fn source_is_shown_as_its_network() {
    assert_eq!(IpAddress::V4(0xC0A8_0101).source_network(), IpAddress::V4(0xC0A8_0101));
    let address: u128 = 0x2001_0db8_0000_0001_aaaa_bbbb_cccc_dddd;
    assert_eq!(
        IpAddress::V6(address).source_network(),
        IpAddress::V6(0x2001_0db8_0000_0001_0000_0000_0000_0000)
    );
}
