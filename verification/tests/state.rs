use opnsense_dashboard::config::{CustomService, ServiceMonitor, Services};
use opnsense_dashboard::disk::Disk;
use opnsense_dashboard::gateway::{Gateway, Gateways};
use opnsense_dashboard::interface::{Interface, Interfaces};
use opnsense_dashboard::rate::Rate;
use opnsense_dashboard::service::{Service, ServiceError};
use opnsense_dashboard::sorted::{contains_key, get, insert_key, insert_pair};
use opnsense_dashboard::ssh_exec::dpinger::Statistics;
use opnsense_dashboard::ssh_exec::netstat_bin;
use opnsense_dashboard::ssh_exec::smartctl_a::Output;

fn strings(list: &[&str]) -> Vec<String> {
    list.iter().map(|s| (*s).to_owned()).collect()
}

fn row(name: &str, network: &str, address: &str, received: u64, sent: u64) -> netstat_bin::Interface {
    netstat_bin::Interface {
        name: name.to_owned(),
        network: network.to_owned(),
        address: address.to_owned(),
        received_bytes: received,
        sent_bytes: sent,
    }
}

#[test]
fn services_are_sorted_by_name() {
    let services = Services {
        builtin: strings(&["unbound", "configd", "openssh"]),
        custom: vec![
            CustomService { name: "dpinger".to_owned(), monitor: ServiceMonitor::CmdLine("/usr/local/bin/dpinger ".to_owned()) },
            CustomService { name: "Zeta".to_owned(), monitor: ServiceMonitor::PidFile("/var/run/zeta.pid".to_owned()) },
        ],
    };
    let all = Service::get_all(Some(services)).unwrap();
    let listed: Vec<(&str, &str, bool)> =
        all.iter().map(|s| (s.name.as_str(), s.command(), s.is_running)).collect();
    assert_eq!(
        listed,
        vec![
            ("Zeta", "/bin/pgrep -F '/var/run/zeta.pid'", false),
            ("configd", "/bin/pgrep -F '/var/run/configd.pid'", false),
            ("dpinger", "/bin/pgrep -f '^/usr/local/bin/dpinger '", false),
            ("openssh", "/bin/pgrep -F '/var/run/sshd.pid'", false),
            ("unbound", "/bin/pgrep -F '/var/run/unbound.pid'", false),
        ]
    );
}

#[test]
fn every_builtin_service_is_known() {
    let expected = [
        ("configd", "/bin/pgrep -F '/var/run/configd.pid'"),
        ("dhcpd", "/bin/pgrep -f '^/usr/local/sbin/dhcpd -user dhcpd '"),
        ("dhcpd6", "/bin/pgrep -f '^/usr/local/sbin/dhcpd -6 -user dhcpd '"),
        ("ntpd", "/bin/pgrep -f '^/usr/local/sbin/ntpd '"),
        ("openssh", "/bin/pgrep -F '/var/run/sshd.pid'"),
        ("radvd", "/bin/pgrep -F '/var/run/radvd.pid'"),
        ("syslog-ng", "/bin/pgrep -F '/var/run/syslog-ng.pid'"),
        ("syslogd", "/bin/pgrep -F '/var/run/syslog.pid'"),
        ("unbound", "/bin/pgrep -F '/var/run/unbound.pid'"),
    ];
    for (name, command) in expected {
        let services = Services { builtin: strings(&[name]), custom: Vec::new() };
        let all = Service::get_all(Some(services)).unwrap();
        assert_eq!(all.len(), 1);
        assert_eq!(all[0].name, name);
        assert_eq!(all[0].command(), command);
    }
}

#[test]
fn services_of_the_same_name_keep_their_order() {
    let custom = |pid: &str| CustomService {
        name: "same".to_owned(),
        monitor: ServiceMonitor::PidFile(pid.to_owned()),
    };
    let services = Services { builtin: Vec::new(), custom: vec![custom("1"), custom("2"), custom("3")] };
    let all = Service::get_all(Some(services)).unwrap();
    let commands: Vec<&str> = all.iter().map(|s| s.command()).collect();
    assert_eq!(commands, vec!["/bin/pgrep -F '1'", "/bin/pgrep -F '2'", "/bin/pgrep -F '3'"]);
}

#[test]
fn unknown_builtin_service_is_refused() {
    let services = Services { builtin: strings(&["ntpd", "nginx", "apache"]), custom: Vec::new() };
    match Service::get_all(Some(services)) {
        Err(ServiceError::UnknownBuiltin(name)) => assert_eq!(name, "nginx"),
        Ok(_) => panic!("accepted"),
    }
    assert!(Service::get_all(None).unwrap().is_empty());
    let none = Services { builtin: Vec::new(), custom: Vec::new() };
    assert!(Service::get_all(Some(none)).unwrap().is_empty());
}

#[test]
fn service_runs_if_pgrep_printed_anything() {
    let services = Services { builtin: strings(&["ntpd"]), custom: Vec::new() };
    let mut all = Service::get_all(Some(services)).unwrap();
    all[0].update("812");
    assert!(all[0].is_running);
    all[0].update("");
    assert!(!all[0].is_running);
    assert_eq!(all[0].name, "ntpd");
    assert_eq!((all[0].name(), all[0].is_running()), ("ntpd", false));
}

#[test]
fn disk_takes_in_smart_state() {
    let mut disk = Disk::new("ada0".to_owned(), "S3Z".to_owned());
    assert_eq!(disk.command(), "/usr/local/sbin/smartctl -a --json=c '/dev/ada0'");
    assert!(!disk.smart_passed);
    assert_eq!(disk.temperature, 0);
    disk.update(Output { passed: Some(true), temperature: Some(38) });
    assert!(disk.smart_passed);
    assert_eq!(disk.temperature, 38);
    disk.update(Output { passed: None, temperature: None });
    assert!(!disk.smart_passed);
    assert_eq!(disk.temperature, 0);
    assert_eq!(disk.serial_number, "S3Z");
    assert_eq!((disk.name(), disk.serial_number()), ("ada0", "S3Z"));
    assert_eq!((disk.smart_passed(), disk.temperature()), (false, 0));
}

#[test]
fn gateways_get_the_report_of_their_name() {
    let mut gateways = Gateways::new(strings(&["WAN_DHCP", "WAN_V6", "VPN"]));
    assert_eq!(gateways.len(), 3);
    assert_eq!(gateways.get(0), Some(("WAN_DHCP", None)));
    assert_eq!(gateways.get(3), None);
    let stats = |name: &str, avg: u64| Statistics {
        name: name.to_owned(),
        latency_average: avg,
        latency_stddev: 7,
        ping_packet_loss: 1,
    };
    gateways.update(&vec![stats("WAN_V6", 900), stats("WAN_DHCP", 1200), stats("WAN_V6", 5)]);
    let report = |avg| Some(Gateway { latency_average: avg, latency_stddev: 7, ping_packet_loss: 1 });
    assert_eq!(gateways.get(0), Some(("WAN_DHCP", report(1200))));
    assert_eq!(gateways.get(1), Some(("WAN_V6", report(900))));
    assert_eq!(gateways.get(2), Some(("VPN", None)));
    gateways.update(&Vec::new());
    assert_eq!(gateways.get(0), Some(("WAN_DHCP", None)));
}

#[test]
fn interface_takes_in_counters_addresses_and_status() {
    let mut interface = Interface::new("igb0");
    assert_eq!(interface.command(), "/sbin/ifconfig 'igb0'");
    assert_eq!(interface.speed(), None);
    let rows = |received, sent| {
        vec![
            row("igb1", "<Link#2>", "00:00:00:00:00:02", 1, 1),
            row("igb0", "<Link#1>", "00:00:00:00:00:01", received, sent),
            row("igb0", "192.168.1.0/24", "192.168.1.1", 5, 5),
            row("igb0", "fe80::%igb0/64", "fe80::1%igb0", 6, 6),
            row("igb0", "<Link#9>", "ignored", 7, 7),
        ]
    };
    let active = vec!["\tstatus: active".to_owned()];
    interface.update("igb0", &rows(1000, 500), &active, 0);
    assert_eq!(interface.error, None);
    assert_eq!(interface.speed(), None);
    assert_eq!(interface.address_count(), 2);
    assert_eq!(interface.address(0), Some("192.168.1.1"));
    assert_eq!(interface.address(1), Some("fe80::1%igb0"));
    assert_eq!(interface.address(2), None);
    interface.update("igb0", &rows(3000, 1500), &vec!["\tstatus: no carrier".to_owned()], 1_000_000);
    assert_eq!(interface.error.as_deref(), Some("no carrier"));
    assert_eq!(interface.error(), Some("no carrier"));
    let (down, up) = interface.speed().unwrap();
    assert_eq!(down, Rate { change: 2000, elapsed: 1_000_000 });
    assert_eq!(up, Rate { change: 1000, elapsed: 1_000_000 });
    // A listing without the interface keeps the samples and has no addresses.
    interface.update("igb0", &Vec::new(), &active, 2_000_000);
    assert_eq!(interface.address_count(), 0);
    assert_eq!(interface.speed().unwrap().0.change, 2000);
}

#[test]
fn interfaces_list_gateway_interfaces_first() {
    let mut all = Interfaces::new(strings(&["igb0"]), strings(&["igb2", "igb1"]));
    assert_eq!(all.len(), 3);
    let names: Vec<&str> = (0..3).map(|i| all.get(i).unwrap().0).collect();
    assert_eq!(names, vec!["igb0", "igb2", "igb1"]);
    assert!(all.get(3).is_none());
    let rows = vec![row("igb2", "<Link#3>", "", 10, 20)];
    all.update(1, &rows, &Vec::new(), 5);
    all.update(1, &vec![row("igb2", "<Link#3>", "", 40, 20)], &Vec::new(), 15);
    all.update(7, &rows, &Vec::new(), 25);
    let (down, up) = all.get(1).unwrap().1.speed().unwrap();
    assert_eq!((down.change, down.elapsed, up.change), (30, 10, 0));
    assert_eq!(all.get(0).unwrap().1.speed(), None);
}

#[test]
fn sorted_lists_keep_dictionary_order() {
    let mut map: Vec<(String, String)> = Vec::new();
    for (k, v) in [("m", "1"), ("a", "2"), ("z", "3"), ("m", "4"), ("b", "5")] {
        insert_pair(&mut map, k.to_owned(), v.to_owned());
    }
    let listed: Vec<(&str, &str)> = map.iter().map(|(k, v)| (k.as_str(), v.as_str())).collect();
    assert_eq!(listed, vec![("a", "2"), ("b", "5"), ("m", "4"), ("z", "3")]);
    assert_eq!(get(&map, "m"), Some("4"));
    assert_eq!(get(&map, "x"), None);
    let mut set: Vec<String> = Vec::new();
    for k in ["b", "a", "b", "c", "a"] {
        insert_key(&mut set, k.to_owned());
    }
    assert_eq!(set, vec!["a", "b", "c"]);
    assert!(contains_key(&set, "c"));
    assert!(!contains_key(&set, "d"));
}
