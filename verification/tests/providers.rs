use sysfetch::modules::battery::Battery;
use sysfetch::modules::disks::{Disk, DiskInfo, DiskState, DiskType, DiskUnit};
use sysfetch::modules::memory::{Memory, MemoryUnit};
use sysfetch::modules::cpu::Cpu;

const GIB: u64 = 1024 * 1024 * 1024;

fn strings(names: &[&str]) -> Vec<String> {
    names.iter().map(|s| s.to_string()).collect()
}

fn test_memory() -> Memory {
    Memory { total: 16 * GIB, used: 8 * GIB, swap_total: 4 * GIB, swap_used: GIB }
}

#[test]
fn memory_percent_half_used() {
    let rows = test_memory().handle(&strings(&["percent"]));
    assert_eq!(rows.len(), 1);
    assert_eq!(rows[0].key, "percent");
    assert_eq!(rows[0].value, "50.0%");
}

#[test]
fn memory_values_in_binary_gigabytes() {
    let rows = test_memory().handle(&strings(&[
        "total",
        "used",
        "free",
        "available",
        "swap_total",
        "swap_used",
        "swap_free",
    ]));
    let values: Vec<&str> = rows.iter().map(|r| r.value.as_str()).collect();
    assert_eq!(
        values,
        ["16.0 GB", "8.0 GB", "8.0 GB", "4.0 GB", "4.0 GB", "1.0 GB", "3.0 GB"]
    );
}

#[test]
fn memory_rounds_to_one_decimal() {
    let m = Memory { total: 16 * GIB, used: 15 * GIB / 10, swap_total: 0, swap_used: 0 };
    let rows = m.handle(&strings(&["used"]));
    assert_eq!(rows[0].value, "1.5 GB");
}

#[test]
fn memory_unknown_stat_is_empty() {
    let rows = test_memory().handle(&strings(&["bogus"]));
    assert_eq!(rows.len(), 1);
    assert_eq!(rows[0].key, "bogus");
    assert_eq!(rows[0].value, "");
}

#[test]
fn memory_percent_with_zero_total() {
    let m = Memory { total: 0, used: 0, swap_total: 0, swap_used: 0 };
    let rows = m.handle(&strings(&["percent"]));
    assert_eq!(rows[0].value, "0.0%");
}

#[test]
fn memory_unit_sizes() {
    assert_eq!(MemoryUnit::B.to_u64(), 1);
    assert_eq!(MemoryUnit::KB.to_u64(), 1024);
    assert_eq!(MemoryUnit::MB.to_u64(), 1024 * 1024);
    assert_eq!(MemoryUnit::GB.to_u64(), 1024 * 1024 * 1024);
    assert_eq!(MemoryUnit::GB.to_string(), "GB");
    assert_eq!(MemoryUnit::B.to_string(), "B");
}

#[test]
fn disk_unit_and_labels() {
    assert_eq!(DiskUnit::KB.to_u64(), 1024);
    assert_eq!(DiskUnit::MB.to_string(), "MB");
    assert_eq!(DiskType::NVME.to_string(), "NVME");
    assert_eq!(DiskState::Active.to_string(), "Active");
    assert_eq!(DiskState::Inactive.to_string(), "Inactive");
}

fn two_disks() -> Disk {
    Disk {
        disks: vec![
            DiskInfo {
                name: "sda".to_string(),
                mount_point: "/".to_string(),
                file_system: "ext4".to_string(),
                total: 1000,
                available: 400,
                removable: false,
            },
            DiskInfo {
                name: "sdb".to_string(),
                mount_point: "/mnt".to_string(),
                file_system: "vfat".to_string(),
                total: 500,
                available: 500,
                removable: true,
            },
        ],
    }
}

#[test]
fn disk_row_count_is_volumes_times_stats_plus_separator() {
    let disk = two_disks();
    let rows = disk.handle(&strings(&["name", "total"]));
    assert_eq!(rows.len(), 2 * (2 + 1));
    let rows = disk.handle(&strings(&["name", "total", "used", "removable"]));
    assert_eq!(rows.len(), 2 * (4 + 1));
    let empty = Disk { disks: vec![] };
    assert_eq!(empty.handle(&strings(&["name"])).len(), 0);
}

#[test]
fn disk_groups_end_with_empty_separator() {
    let rows = two_disks().handle(&strings(&["name", "total"]));
    assert_eq!(rows[0].key, "name");
    assert_eq!(rows[0].value, "sda");
    assert_eq!(rows[1].key, "total");
    assert_eq!(rows[1].value, "1000");
    assert_eq!(rows[2].key, "");
    assert_eq!(rows[2].value, "");
    assert_eq!(rows[3].value, "sdb");
    assert_eq!(rows[5].key, "");
    assert_eq!(rows[5].value, "");
}

#[test]
fn disk_stat_values() {
    let rows = two_disks().handle(&strings(&[
        "mount_point",
        "file_system",
        "used",
        "free",
        "available",
        "removable",
        "bogus",
    ]));
    let first: Vec<&str> = rows[..7].iter().map(|r| r.value.as_str()).collect();
    assert_eq!(first, ["/", "ext4", "600", "400", "400", "false", ""]);
    let second: Vec<&str> = rows[8..15].iter().map(|r| r.value.as_str()).collect();
    assert_eq!(second, ["/mnt", "vfat", "0", "500", "500", "true", ""]);
}

fn charged_battery() -> Battery {
    Battery {
        present: true,
        soc: "85.0".to_string(),
        charging: true,
        state_label: "charging".to_string(),
        time_full_secs: Some(3900),
        time_empty_secs: Some(7260),
        energy: "50.1".to_string(),
        energy_full: "57.0".to_string(),
        energy_full_design: "60.0".to_string(),
        energy_rate: "12.3".to_string(),
    }
}

#[test]
fn battery_absent_yields_one_empty_row() {
    let b = Battery {
        present: false,
        soc: String::new(),
        charging: false,
        state_label: String::new(),
        time_full_secs: None,
        time_empty_secs: None,
        energy: String::new(),
        energy_full: String::new(),
        energy_full_design: String::new(),
        energy_rate: String::new(),
    };
    let rows = b.handle(&strings(&["percent", "status", "time"]));
    assert_eq!(rows.len(), 1);
    assert_eq!(rows[0].key, "");
    assert_eq!(rows[0].value, "");
}

#[test]
fn battery_percent_carries_charging_glyph() {
    let b = charged_battery();
    assert_eq!(b.percentage(), "85.0%\u{f0e7} ");
    let mut resting = charged_battery();
    resting.charging = false;
    assert_eq!(resting.percentage(), "85.0%");
}

#[test]
fn battery_times_render_hh_mm() {
    let b = charged_battery();
    assert_eq!(b.time_to_full(), "01:05");
    assert_eq!(b.time_to_empty(), "02:01");
    let mut unknown = charged_battery();
    unknown.time_full_secs = None;
    assert_eq!(unknown.time_to_full(), "");
}

#[test]
fn battery_time_stat_follows_state() {
    let b = charged_battery();
    let rows = b.handle(&strings(&["time"]));
    assert_eq!(rows[0].value, "01:05");
    let mut discharging = charged_battery();
    discharging.state_label = "discharging".to_string();
    let rows = discharging.handle(&strings(&["time"]));
    assert_eq!(rows[0].value, "02:01");
}

#[test]
fn battery_stat_rows() {
    let b = charged_battery();
    let rows = b.handle(&strings(&[
        "percent",
        "status",
        "energy",
        "energy_full",
        "energy_full_design",
        "energy_rate",
        "bogus",
    ]));
    let values: Vec<&str> = rows.iter().map(|r| r.value.as_str()).collect();
    assert_eq!(
        values,
        ["85.0%\u{f0e7} ", "charging", "50.1 Wh", "57.0 Wh", "60.0 Wh", "12.3 W", ""]
    );
}

#[test]
fn cpu_stats_render_from_readings() {
    let cpu = Cpu::from_readings(
        "  Example CPU  ".to_string(),
        Some(8),
        16,
        3200,
        "12.5".to_string(),
        "ExampleVendor".to_string(),
        "x86_64".to_string(),
    );
    let rows = cpu.handle(&strings(&[
        "name",
        "cores",
        "threads",
        "speed",
        "usage",
        "vendor",
        "architecture",
        "bogus",
    ]));
    let values: Vec<&str> = rows.iter().map(|r| r.value.as_str()).collect();
    assert_eq!(
        values,
        ["Example CPU", "8", "16", "3200", "12.5%", "ExampleVendor", "x86_64", ""]
    );
}

#[test]
fn cpu_missing_core_count_reads_zero() {
    let cpu = Cpu::from_readings(
        "c".to_string(),
        None,
        1,
        0,
        "0.0".to_string(),
        "v".to_string(),
        "a".to_string(),
    );
    let rows = cpu.handle(&strings(&["cores"]));
    assert_eq!(rows[0].value, "0");
}
