use opnsense_dashboard::boot_time::{BootTime, Uptime};
use opnsense_dashboard::codec::{encode_u32, encode_u64, CodecError, Endianness, Reader};
use opnsense_dashboard::config::ServiceMonitor;
use opnsense_dashboard::cpu::{Cpu, CpuUsage, Ticks};
use opnsense_dashboard::lines::{first_line, Event, LinesError, LinesIter, Step};
use opnsense_dashboard::memory::Memory;
use opnsense_dashboard::orchestrator::{Next, Phase, SLEEP_MILLIS};
use opnsense_dashboard::ssh_exec::dpinger::{self, DpingerError};
use opnsense_dashboard::ssh_exec::pfctl_s_info::{self, PfctlError};
use opnsense_dashboard::ssh_exec::{
    batched_sysctls_1, batched_sysctls_2, df, ifconfig, netstat_bin, netstat_m, opnconfig, pgrep,
    smartctl_a, smartctl_i, sysctl_an, sysctl_kern_disks, uname_sr, version,
};
use opnsense_dashboard::temperature_sysctl::{is_sensor_name, TemperatureSysctl};
use opnsense_dashboard::usage::Usage;

fn lines(text: &[&str]) -> Vec<String> {
    text.iter().map(|s| (*s).to_owned()).collect()
}

#[test]
fn commands_are_the_fixed_ones() {
    assert_eq!(
        batched_sysctls_1::command(),
        "/sbin/sysctl -b kern.boottime hw.physmem vm.stats.vm.v_page_count"
    );
    assert_eq!(df::command(), "/bin/df -kt tmpfs,ufs --libxo json");
    assert_eq!(
        dpinger::command(),
        r#"sh -c 'for f in /var/run/dpinger_*.sock; do /usr/bin/nc -U "$f" 2>/dev/null || :; done'"#
    );
    assert_eq!(netstat_bin::command(), "/usr/bin/netstat -bin --libxo json");
    assert_eq!(netstat_m::command(), "/usr/bin/netstat -m --libxo json");
    assert_eq!(pfctl_s_info::command(), "/sbin/pfctl -s info");
    assert_eq!(sysctl_an::command(), "/sbin/sysctl -aN");
    assert_eq!(sysctl_kern_disks::command(), "/sbin/sysctl -n kern.disks");
    assert_eq!(uname_sr::command(), "/usr/bin/uname -sr");
    assert_eq!(version::path(), "/usr/local/opnsense/version/core");
    assert_eq!(opnconfig::path(), "/conf/config.xml");
    assert_eq!(smartctl_i::command("ada0"), "/usr/local/sbin/smartctl -i --json=c '/dev/ada0'");
}

#[test]
fn exec_new_builds_the_command() {
    assert_eq!(ifconfig::Exec::new("igb0").command(), "/sbin/ifconfig 'igb0'");
    assert_eq!(
        smartctl_a::Exec::new("ada0").command(),
        "/usr/local/sbin/smartctl -a --json=c '/dev/ada0'"
    );
    assert_eq!(
        pgrep::Exec::new(ServiceMonitor::CmdLine("/usr/local/sbin/ntpd ".to_owned())).command(),
        "/bin/pgrep -f '^/usr/local/sbin/ntpd '"
    );
    assert_eq!(
        pgrep::Exec::new(ServiceMonitor::PidFile("/var/run/sshd.pid".to_owned())).command(),
        "/bin/pgrep -F '/var/run/sshd.pid'"
    );
    let sensors = vec![
        TemperatureSysctl { name: "dev.cpu.0.temperature".to_owned(), value: 0 },
        TemperatureSysctl { name: "hw.acpi.thermal.tz0.temperature".to_owned(), value: 0 },
    ];
    assert_eq!(
        batched_sysctls_2::Exec::new(&sensors).command(),
        "/sbin/sysctl -b vm.stats.vm.v_inactive_count vm.stats.vm.v_cache_count \
         vm.stats.vm.v_free_count 'dev.cpu.0.temperature' 'hw.acpi.thermal.tz0.temperature' \
         kern.cp_time"
    );
    assert_eq!(
        batched_sysctls_2::Exec::new(&[]).command(),
        "/sbin/sysctl -b vm.stats.vm.v_inactive_count vm.stats.vm.v_cache_count \
         vm.stats.vm.v_free_count kern.cp_time"
    );
}

#[test]
fn first_batch_holds_boot_time_and_memory() {
    for e in [Endianness::Little, Endianness::Big] {
        let mut bytes = Vec::new();
        encode_u64(e, 1_700_000_000, &mut bytes);
        encode_u64(e, 123_456, &mut bytes);
        encode_u64(e, 8 * 1024 * 1024 * 1024, &mut bytes);
        encode_u32(e, 2_000_000, &mut bytes);
        let (boot_time, memory) = batched_sysctls_1::run(e, bytes.clone()).unwrap();
        assert_eq!(boot_time, BootTime { secs: 1_700_000_000, micros: 123_456 });
        assert_eq!(
            memory,
            Memory { physical: 8 * 1024 * 1024 * 1024, num_pages: 2_000_000, used_pages: 0 }
        );
        bytes.pop();
        assert_eq!(batched_sysctls_1::run(e, bytes), Err(CodecError::UnexpectedEof));
    }
}

#[test]
fn second_batch_updates_memory_sensors_and_cpu() {
    let e = Endianness::Little;
    let mut sensors = vec![
        TemperatureSysctl { name: "dev.cpu.0.temperature".to_owned(), value: 0 },
        TemperatureSysctl { name: "dev.cpu.1.temperature".to_owned(), value: 0 },
    ];
    let exec = batched_sysctls_2::Exec::new(&sensors);
    let mut memory = Memory { physical: 1 << 30, num_pages: 1000, used_pages: 0 };
    let mut cpu = Cpu::new();
    let batch = |ticks: [u64; 5]| {
        let mut bytes = Vec::new();
        for count in [100u32, 200, 300] {
            encode_u32(e, count, &mut bytes);
        }
        for reading in [3031u32, 3102] {
            encode_u32(e, reading, &mut bytes);
        }
        for tick in ticks {
            encode_u64(e, tick, &mut bytes);
        }
        bytes
    };
    exec.run(&mut cpu, &mut memory, &mut sensors, e, batch([10, 0, 5, 1, 84])).unwrap();
    assert_eq!(memory.used_pages, 400);
    assert_eq!(sensors[0].value, 3031);
    assert_eq!(sensors[1].value, 3102);
    assert_eq!(sensors[0].name, "dev.cpu.0.temperature");
    assert_eq!(cpu.usage(), None);
    exec.run(&mut cpu, &mut memory, &mut sensors, e, batch([20, 0, 10, 2, 168])).unwrap();
    assert_eq!(cpu.usage(), Some(CpuUsage { busy: 16, total: 100 }));

    let mut short = batch([0; 5]);
    short.pop();
    assert_eq!(
        exec.run(&mut cpu, &mut memory, &mut sensors, e, short),
        Err(CodecError::UnexpectedEof)
    );
    assert_eq!(memory.used_pages, 400);
    assert_eq!(sensors[1].value, 3102);
    assert_eq!(cpu.usage(), Some(CpuUsage { busy: 16, total: 100 }));
}

#[test]
fn reader_reads_fields_in_order() {
    let mut bytes = Vec::new();
    encode_u32(Endianness::Big, 7, &mut bytes);
    encode_u64(Endianness::Big, 9, &mut bytes);
    let mut reader = Reader::new(bytes);
    assert_eq!(reader.remaining(), 12);
    assert_eq!(reader.read_u32(Endianness::Big), Ok(7));
    assert_eq!(reader.read_u64(Endianness::Big), Ok(9));
    assert_eq!(reader.read_u32(Endianness::Big), Err(CodecError::UnexpectedEof));
    assert_eq!(reader.remaining(), 0);
    let mut reader = Reader::new(vec![1, 2, 3]);
    assert_eq!(reader.read_u64(Endianness::Little), Err(CodecError::UnexpectedEof));
    assert_eq!(reader.remaining(), 3);
    let mut ticks = Reader::new(vec![0; 39]);
    assert_eq!(Ticks::parse(&mut ticks, Endianness::Little), Err(CodecError::UnexpectedEof));
}

#[test]
fn memory_counts_used_pages() {
    let mut memory = Memory { physical: 4 * 1_048_576 * 1024, num_pages: 1000, used_pages: 0 };
    memory.set_counts(100, 200, 300);
    assert_eq!(memory.used_pages, 400);
    assert_eq!(memory.usage(), Usage { used: 400, max: 1000 });
    memory.set_counts(600, 300, 200);
    assert_eq!(memory.used_pages, 0);
    assert_eq!(memory.physical_mib(), 4096);
    assert_eq!(memory.states_max(), 409_000);
}

#[test]
fn uptime_is_broken_down() {
    let boot = BootTime { secs: 1000, micros: 0 };
    assert_eq!(boot.uptime_secs(999), None);
    assert_eq!(boot.uptime_secs(1000 + 93_784), Some(93_784));
    assert_eq!(Uptime::from_secs(93_784), Uptime { days: 1, hours: 2, minutes: 3, seconds: 4 });
    assert_eq!(Uptime::from_secs(0), Uptime { days: 0, hours: 0, minutes: 0, seconds: 0 });
}

#[test]
fn temperature_sensors_are_found_by_name() {
    assert!(is_sensor_name("dev.cpu.0.temperature"));
    assert!(is_sensor_name(".temperature"));
    assert!(!is_sensor_name("dev.cpu.0.temperature.max"));
    assert!(!is_sensor_name("temperature"));
    let names = lines(&["kern.ostype", "dev.cpu.0.temperature", "dev.cpu.0.freq", "hw.acpi.thermal.tz0.temperature"]);
    let sensors = TemperatureSysctl::get_all(&names);
    let found: Vec<&str> = sensors.iter().map(|s| s.name.as_str()).collect();
    assert_eq!(found, vec!["dev.cpu.0.temperature", "hw.acpi.thermal.tz0.temperature"]);
    assert!(sensors.iter().all(|s| s.value == 0));
    let sensor = TemperatureSysctl { name: "x.temperature".to_owned(), value: 3031 };
    assert_eq!(sensor.centi_celsius(), 2995);
    let cold = TemperatureSysctl { name: "x.temperature".to_owned(), value: 0 };
    assert_eq!(cold.centi_celsius(), -27315);
}

#[test]
fn state_table_size_is_read_from_labeled_line() {
    let output = lines(&[
        "Status: Enabled for 10 days",
        "State Table                          Total             Rate",
        "  current entries                     1234               ",
        "  searches                        99999999          115.7/s",
    ]);
    assert_eq!(pfctl_s_info::get_states_used(&output), Ok(1234));
    assert_eq!(pfctl_s_info::get_states_used(&lines(&["nothing"])), Err(PfctlError::NotFound));
    assert_eq!(
        pfctl_s_info::get_states_used(&lines(&["current entries 12 34"])),
        Err(PfctlError::InvalidNumber)
    );
    assert_eq!(
        pfctl_s_info::get_states_used(&lines(&["current entries"])),
        Err(PfctlError::InvalidNumber)
    );
}

#[test]
fn link_status_other_than_active_is_an_error() {
    let up = lines(&["igb0: flags=8843<UP>", "\tether 00:11:22:33:44:55", "\tstatus: active"]);
    assert_eq!(ifconfig::Exec::status(&up), None);
    let down = lines(&["igb0: flags=8843<UP>", "\tstatus: no carrier"]);
    assert_eq!(ifconfig::Exec::status(&down), Some("no carrier".to_owned()));
    assert_eq!(ifconfig::Exec::status(&lines(&["lo0: flags=8049"])), None);
}

#[test]
fn pgrep_output_means_running() {
    assert!(pgrep::Exec::is_running("1234"));
    assert!(!pgrep::Exec::is_running(""));
    assert_eq!(first_line(&lines(&["1234", "5678"])), "1234");
    assert_eq!(first_line(&Vec::new()), "");
}

#[test]
fn dpinger_lines_are_decoded() {
    let s = dpinger::parse_line("WAN_DHCP 1200 300 0").unwrap();
    assert_eq!(s.name, "WAN_DHCP");
    assert_eq!((s.latency_average, s.latency_stddev, s.ping_packet_loss), (1200, 300, 0));
    let s = dpinger::parse_line("GW 1 2 3 extra").unwrap();
    assert_eq!((s.latency_average, s.latency_stddev, s.ping_packet_loss), (1, 2, 3));
    assert_eq!(dpinger::parse_line("").unwrap_err(), DpingerError::Malformed);
    assert_eq!(dpinger::parse_line("GW").unwrap_err(), DpingerError::Malformed);
    assert_eq!(dpinger::parse_line("GW 1 2").unwrap_err(), DpingerError::Malformed);
    assert_eq!(dpinger::parse_line("GW x 2 3").unwrap_err(), DpingerError::InvalidNumber);
    assert_eq!(dpinger::parse_line("GW 1  3").unwrap_err(), DpingerError::InvalidNumber);
    assert_eq!(dpinger::parse_line("GW 1 2 -3").unwrap_err(), DpingerError::InvalidNumber);
    assert_eq!(dpinger::parse_line("GW x").unwrap_err(), DpingerError::InvalidNumber);
    let all = dpinger::get_statistics(&lines(&["A 1 2 3", "B 4 5 6"])).unwrap();
    assert_eq!(all.len(), 2);
    assert_eq!(all[1].name, "B");
    assert_eq!(
        dpinger::get_statistics(&lines(&["A 1 2 3", "B", "C x 1 1"])).unwrap_err(),
        DpingerError::Malformed
    );
    assert!(dpinger::get_statistics(&Vec::new()).unwrap().is_empty());
}

#[test]
fn disk_names_stand_between_spaces() {
    assert_eq!(sysctl_kern_disks::names("ada0 ada1 nvd0"), vec!["ada0", "ada1", "nvd0"]);
    assert_eq!(sysctl_kern_disks::names(" ada0  ada1 "), vec!["ada0", "ada1"]);
    assert!(sysctl_kern_disks::names("").is_empty());
}

#[test]
fn smart_defaults_apply_to_what_is_left_out() {
    let full = smartctl_a::Output { passed: Some(true), temperature: Some(41) };
    assert_eq!(smartctl_a::Exec::status(full), (true, 41));
    let empty = smartctl_a::Output { passed: None, temperature: None };
    assert_eq!(smartctl_a::Exec::status(empty), (false, 0));
}

#[test]
fn filesystem_and_mbuf_usage() {
    let fs = df::Filesystem { mounted_on: "/".to_owned(), total_blocks: 100, used_blocks: 50 };
    assert_eq!(fs.usage().percent(), Some(50));
    assert_eq!(fs.total_bytes(), 102_400);
    let mbufs = netstat_m::MBufStatistics { cluster_max: 1000, cluster_total: 125 };
    assert_eq!(mbufs.usage().per_mille(), Some(125));
}

#[test]
fn lines_are_read_lazily_and_failures_passed_on() {
    let mut state = LinesIter::new();
    assert!(state.needs_event());
    assert!(matches!(state.advance(Event::Opened), Step::ReadLine));
    assert_eq!(state, LinesIter::Read);
    assert!(matches!(state.advance(Event::Line("a".to_owned())), Step::Item(line) if line == "a"));
    assert!(matches!(state.advance(Event::ReadFailed), Step::Failed(LinesError::Read)));
    assert!(matches!(state.advance(Event::Finished), Step::End));
    assert_eq!(state, LinesIter::Read);

    let mut failed = LinesIter::new();
    assert!(matches!(failed.advance(Event::OpenFailed), Step::Failed(LinesError::Open)));
    assert_eq!(failed, LinesIter::Eof);
    assert!(!failed.needs_event());
    assert!(matches!(failed.advance(Event::Line("x".to_owned())), Step::End));
    assert_eq!(failed, LinesIter::Eof);

    let mut early = LinesIter::new();
    assert!(matches!(early.advance(Event::Finished), Step::ReadLine));
    assert_eq!(early, LinesIter::Begin);
}

#[test]
fn cycle_runs_in_fixed_order_and_stops_on_failure() {
    let mut phase = Phase::first();
    let mut seen = vec![phase];
    for _ in 0..8 {
        phase = match phase.advance(true) {
            Next::Continue(next) => next,
            Next::Abort => unreachable!(),
        };
        seen.push(phase);
    }
    assert_eq!(
        seen,
        vec![
            Phase::Disks,
            Phase::Interfaces,
            Phase::Gateways,
            Phase::Services,
            Phase::FirewallLogs,
            Phase::CoreMetrics,
            Phase::Render,
            Phase::Sleep,
            Phase::Disks,
        ]
    );
    for phase in seen {
        assert_eq!(phase.advance(false), Next::Abort);
    }
    assert_eq!(SLEEP_MILLIS, 1000);
}

#[test]
fn values_are_read_one_after_the_other() {
    let e = Endianness::Big;
    let mut bytes = Vec::new();
    encode_u64(e, 11, &mut bytes);
    encode_u64(e, 22, &mut bytes);
    encode_u64(e, 4096, &mut bytes);
    encode_u32(e, 500, &mut bytes);
    for count in [10u32, 20, 30] {
        encode_u32(e, count, &mut bytes);
    }
    encode_u32(e, 2981, &mut bytes);
    for tick in [1u64, 2, 3, 4, 5] {
        encode_u64(e, tick, &mut bytes);
    }
    bytes.push(0xFF);
    let mut reader = Reader::new(bytes);
    assert_eq!(BootTime::parse(&mut reader, e), Ok(BootTime { secs: 11, micros: 22 }));
    let mut memory = Memory::parse(&mut reader, e).unwrap();
    assert_eq!(memory, Memory { physical: 4096, num_pages: 500, used_pages: 0 });
    assert_eq!(memory.update(&mut reader, e), Ok(()));
    assert_eq!(memory.used_pages, 440);
    let mut sensor = TemperatureSysctl { name: "t".to_owned(), value: 0 };
    assert_eq!(sensor.update(&mut reader, e), Ok(()));
    assert_eq!(sensor.value, 2981);
    let mut cpu = Cpu::new();
    assert_eq!(cpu.update(&mut reader, e), Ok(()));
    assert_eq!(reader.remaining(), 1);
    assert_eq!(sensor.update(&mut reader, e), Err(CodecError::UnexpectedEof));
    assert_eq!(memory.update(&mut reader, e), Err(CodecError::UnexpectedEof));
    assert_eq!(cpu.update(&mut reader, e), Err(CodecError::UnexpectedEof));
    assert_eq!(BootTime::parse(&mut reader, e), Err(CodecError::UnexpectedEof));
    assert_eq!(Memory::parse(&mut reader, e), Err(CodecError::UnexpectedEof));
    assert_eq!((sensor.value, memory.used_pages, reader.remaining()), (2981, 440, 1));
}
