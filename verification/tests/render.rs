use opnsense_dashboard::boot_time::Uptime;
use opnsense_dashboard::config::{CustomService, ServiceMonitor, Services};
use opnsense_dashboard::disk::Disk;
use opnsense_dashboard::render::{
    get_color_for_up_down, startup, write_decimal, write_decimal2, write_left_aligned,
    write_continuation, write_right_aligned, write_section, write_services, write_smart_status,
    write_spaces, write_uptime, FrameStart, Screen, ServiceGrid,
};
use opnsense_dashboard::service::Service;
use opnsense_dashboard::ssh_exec::smartctl_a::Output;
use opnsense_dashboard::ssh_exec::version::Version;
use opnsense_dashboard::version_info::VersionInfo;

const FULL_CLEAR: &str = "\x1B[2J";

fn identity() -> VersionInfo {
    VersionInfo::get(
        Version {
            product_arch: "amd64".to_owned(),
            product_name: "OPNsense".to_owned(),
            product_version: "22.1.2".to_owned(),
        },
        "FreeBSD 13.0-STABLE".to_owned(),
    )
}

#[test]
fn colors_for_up_and_down() {
    assert_eq!(get_color_for_up_down(true), "1;32");
    assert_eq!(get_color_for_up_down(false), "0;31");
}

#[test]
fn startup_homes_clears_scrollback_and_stops_wrapping() {
    assert_eq!(startup(), "\x1B[1;1H\x1B[3J\x1B[?7l");
}

#[test]
fn first_frame_redraws_with_identity_lines() {
    let mut screen = Screen::new();
    let mut out = String::new();
    assert_eq!(screen.begin((80, 24), &identity(), &mut out), FrameStart::Redraw);
    assert_eq!(
        out,
        "\x1B[1;1H\x1B[2JVersion       : OPNsense 22.1.2-amd64\n                FreeBSD 13.0-STABLE\n"
    );
}

#[test]
fn stable_geometry_never_clears_and_a_change_clears_once() {
    let mut screen = Screen::new();
    let sizes = [(80, 24), (80, 24), (80, 24), (100, 24), (100, 24), (100, 30), (80, 24)];
    let mut previous = None;
    for size in sizes {
        let mut out = String::from("kept");
        let start = screen.begin(size, &identity(), &mut out);
        assert!(out.starts_with("kept"));
        let clears = out.matches(FULL_CLEAR).count();
        if previous == Some(size) {
            assert_eq!(start, FrameStart::InPlace);
            assert_eq!(clears, 0);
            assert_eq!(out, "kept\x1B[3;1H");
        } else {
            assert_eq!(start, FrameStart::Redraw);
            assert_eq!(clears, 1);
        }
        previous = Some(size);
    }
}

#[test]
fn identity_lines_are_appended() {
    let mut out = String::from(">");
    identity().write_lines(&mut out);
    assert_eq!(out, ">Version       : OPNsense 22.1.2-amd64\n                FreeBSD 13.0-STABLE\n");
}

#[test]
fn numbers_and_padding() {
    let mut out = String::new();
    for n in [0u64, 7, 10, 99, 100, 12345, u64::MAX] {
        write_decimal(&mut out, n);
        out.push(' ');
    }
    assert_eq!(out, "0 7 10 99 100 12345 18446744073709551615 ");
    let mut out = String::new();
    for n in [0u64, 7, 10, 59, 123] {
        write_decimal2(&mut out, n);
        out.push(' ');
    }
    assert_eq!(out, "00 07 10 59 123 ");
    let mut out = String::from("[");
    write_spaces(&mut out, 3);
    out.push(']');
    write_spaces(&mut out, 0);
    assert_eq!(out, "[   ]");
    let mut out = String::new();
    write_right_aligned(&mut out, "ada0", 6);
    write_right_aligned(&mut out, "é", 2);
    write_right_aligned(&mut out, "toolong", 3);
    assert_eq!(out, format!("{:>6}{:>2}{:>3}", "ada0", "é", "toolong"));
    let mut out = String::new();
    write_left_aligned(&mut out, "ntpd", 8);
    write_left_aligned(&mut out, "é", 2);
    write_left_aligned(&mut out, "toolong", 3);
    assert_eq!(out, format!("{:8}{:2}{:3}", "ntpd", "é", "toolong"));
}

#[test]
fn uptime_line() {
    let mut out = String::new();
    write_uptime(&mut out, Uptime::from_secs(93_784));
    assert_eq!(out, "\x1B[KUptime        : 1 days 02:03:04");
    let mut out = String::new();
    write_uptime(&mut out, Uptime::from_secs(400 * 86400 + 23 * 3600 + 59 * 60 + 59));
    assert_eq!(out, "\x1B[KUptime        : 400 days 23:59:59");
}

#[test]
fn services_are_laid_out_in_columns() {
    // 80 columns, names of up to 8 characters: (80 - 16) / 10 = 6 per row.
    let grid = ServiceGrid::new(80, 8, 14).unwrap();
    assert_eq!(grid, ServiceGrid { per_row: 6, rows: 3 });
    assert_eq!(grid.index(0, 0, 14), Some(0));
    assert_eq!(grid.index(1, 0, 14), Some(1));
    assert_eq!(grid.index(0, 1, 14), Some(3));
    assert_eq!(grid.index(1, 4, 14), Some(13));
    assert_eq!(grid.index(2, 4, 14), None);
    assert_eq!(grid.index(3, 0, 14), None);
    assert_eq!(grid.index(0, 6, 14), None);
    let mut seen: Vec<usize> = Vec::new();
    for row in 0..grid.rows {
        for col in 0..grid.per_row {
            seen.extend(grid.index(row, col, 14));
        }
    }
    seen.sort();
    assert_eq!(seen, (0..14).collect::<Vec<_>>());
    assert_eq!(ServiceGrid::new(80, 8, 0), Some(ServiceGrid { per_row: 6, rows: 0 }));
    assert_eq!(ServiceGrid::new(80, 8, 6), Some(ServiceGrid { per_row: 6, rows: 1 }));
    assert_eq!(ServiceGrid::new(80, 8, 7), Some(ServiceGrid { per_row: 6, rows: 2 }));
    assert_eq!(ServiceGrid::new(15, 8, 3), None);
    assert_eq!(ServiceGrid::new(16, 0, 3), None);
    assert_eq!(ServiceGrid::new(25, 8, 3), None);
    assert_eq!(ServiceGrid::new(26, 8, 3), Some(ServiceGrid { per_row: 1, rows: 3 }));
    assert_eq!(ServiceGrid::new(80, usize::MAX, 3), None);
}

#[test]
fn lines_are_cleared_before_they_are_written() {
    let mut out = String::from("x");
    write_section(&mut out, "CPU usage     : ");
    write_continuation(&mut out);
    assert_eq!(out, "x\n\x1B[KCPU usage     : \n\x1B[K                ");
    assert_eq!(out.matches(FULL_CLEAR).count(), 0);
}

#[test]
fn smart_section_lists_the_disks() {
    let mut first = Disk::new("ada0".to_owned(), "S3Z8NB0K".to_owned());
    first.update(Output { passed: Some(true), temperature: Some(35) });
    let second = Disk::new("nvd10".to_owned(), "X1".to_owned());
    let mut out = String::new();
    write_smart_status(&mut out, &vec![first, second], 5, 8);
    let expected = format!(
        "\n\x1B[KSMART status  : \x1B[1;32m{:>5} {:8} PASSED\x1B[0m\n\x1B[K                \x1B[0;31m{:>5} {:8} FAILED\x1B[0m",
        "ada0", "S3Z8NB0K", "nvd10", "X1",
    );
    assert_eq!(out, expected);
    let mut out = String::new();
    write_smart_status(&mut out, &Vec::new(), 5, 8);
    assert_eq!(out, "\n\x1B[KSMART status  : ");
}

fn services(names: &[&str]) -> Vec<Service> {
    let custom = names
        .iter()
        .map(|name| CustomService {
            name: (*name).to_owned(),
            monitor: ServiceMonitor::PidFile(format!("/var/run/{name}.pid")),
        })
        .collect();
    Service::get_all(Some(Services { builtin: Vec::new(), custom })).unwrap()
}

fn expected_services(services: &[Service], width: u16, name_len: usize) -> String {
    // Columns are filled from top to bottom, rows are written from left to right.
    let per_row = (usize::from(width) - 16) / (name_len + 2);
    let rows = (services.len() + per_row - 1) / per_row;
    let mut out = String::from("\n\x1B[KServices      :");
    for i in 0..rows {
        for j in 0..per_row {
            let Some(service) = services.get(i + rows * j) else { break };
            let color = if service.is_running { "1;32" } else { "0;31" };
            if i > 0 && j == 0 {
                out.push_str("\n\x1B[K               ");
            }
            out.push_str(&format!(" \x1B[{color}m{:name_len$}\x1B[0m ", service.name));
        }
    }
    out
}

#[test]
fn services_section_fills_the_grid() {
    let mut all = services(&["a", "bb", "ccc", "dddd", "e", "ff", "g"]);
    all[1].update("77");
    all[6].update("78");
    for (width, count) in [(80u16, 7usize), (30, 7), (28, 5), (22, 3), (40, 0), (34, 4), (34, 7)] {
        let shown = &all[..count];
        let listed: Vec<Service> = services(&shown.iter().map(|s| s.name.as_str()).collect::<Vec<_>>())
            .into_iter()
            .zip(shown)
            .map(|(mut fresh, old)| {
                fresh.update(if old.is_running { "1" } else { "" });
                fresh
            })
            .collect();
        let grid = ServiceGrid::new(width, 4, count).unwrap();
        let mut out = String::new();
        write_services(&mut out, &listed, grid, 4);
        assert_eq!(out, expected_services(&listed, width, 4), "{width} {count}");
    }
}
