use opnsense_dashboard::firewall_logs::Logs;
use opnsense_dashboard::interface::Interface;
use opnsense_dashboard::ssh_exec::clog_filter_log::{
    Log as Record, LogAction, LogDirection, LogIpFields, LogReason, LogV4ProtoFields,
};
use opnsense_dashboard::ssh_exec::df::Filesystem;
use opnsense_dashboard::ssh_exec::netstat_bin;

fn record(digest: &str) -> Record {
    Record {
        action: LogAction::Pass,
        digest: digest.to_owned(),
        direction: LogDirection::In,
        interface: "igb0".to_owned(),
        ip_fields: LogIpFields::V4 { proto: LogV4ProtoFields::Icmp, src: 1, dest: 2 },
        reason: LogReason::Match,
        timestamp: digest.to_owned(),
    }
}

#[test]
fn two_cycles_yield_the_receive_rate() {
    let link = |received| {
        vec![netstat_bin::Interface {
            name: "igb0".to_owned(),
            network: "<Link#1>".to_owned(),
            address: "00:00:00:00:00:01".to_owned(),
            received_bytes: received,
            sent_bytes: 0,
        }]
    };
    let mut interface = Interface::new("igb0");
    interface.update("igb0", &link(1000), &Vec::new(), 0);
    assert_eq!(interface.speed(), None);
    interface.update("igb0", &link(3000), &Vec::new(), 1_000_000);
    let (received, _) = interface.speed().unwrap();
    assert_eq!(received.per_second(), Some(2000));
}

#[test]
fn batch_that_ends_at_the_cursor_inserts_nothing() {
    let mut logs = Logs::new(vec!["igb0".to_owned()]);
    logs.update(vec![record("b")]);
    assert_eq!(logs.previous_digest(), Some("b"));
    assert_eq!(logs.len(), 1);
    // The records "a" and "b" in the order in which they were logged; the
    // tool hands them over newest first.
    logs.update(vec![record("b"), record("a")]);
    assert_eq!(logs.len(), 1);
    assert_eq!(logs.previous_digest(), Some("b"));
}

#[test]
fn record_before_the_cursor_in_the_batch_is_new() {
    let mut logs = Logs::new(vec!["igb0".to_owned()]);
    logs.update(vec![record("b")]);
    logs.update(vec![record("a"), record("b")]);
    assert_eq!(logs.len(), 2);
    assert_eq!(logs.get(0).unwrap().timestamp, "a");
    assert_eq!(logs.previous_digest(), Some("a"));
}

#[test]
fn half_full_filesystem_is_at_fifty_percent() {
    let filesystem = Filesystem { mounted_on: "/".to_owned(), total_blocks: 100, used_blocks: 50 };
    assert_eq!(filesystem.usage().percent(), Some(50));
    assert_eq!(filesystem.usage().per_mille(), Some(500));
}
