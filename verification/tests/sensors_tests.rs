use shao::sensors::cpu::average_frequency;
use shao::sensors::disk::{is_excluded, summarize_disks, DiskSample};
use shao::sensors::format_uptime;
use shao::sensors::power::{
    default_max_range_uj, energy_delta, rapl_energy_path, rapl_max_range_path, EnergyCounter,
};
use shao::sensors::thermals::{
    asus_fallback, fans_from_hwmon, is_cpu_zone, is_fan_input, is_thermal_zone_dir, FanSensor,
    HwmonDevice, HwmonFile, ThermalCollector,
};
use shao::sensors::SystemSummary;

#[test]
fn uptime_text() {
    assert_eq!(format_uptime(0), "0m");
    assert_eq!(format_uptime(59), "0m");
    assert_eq!(format_uptime(3599), "59m");
    assert_eq!(format_uptime(3600), "1h 0m");
    assert_eq!(format_uptime(90061), "1d 1h 1m");
    assert_eq!(format_uptime(86400 * 12 + 60 * 5), "12d 0h 5m");
}

#[test]
fn system_summary_defaults() {
    let s = SystemSummary::new(None, None, None, 7200);
    assert_eq!(s.hostname, "linux-server");
    assert_eq!(s.os_name, "Linux");
    assert_eq!(s.os_version, "");
    assert_eq!(s.uptime_human, "2h 0m");
    let t = SystemSummary::new(Some("a456u".into()), Some("Ubuntu".into()), Some("24.04".into()), 1);
    assert_eq!(t.hostname, "a456u");
    assert_eq!(t.os_version, "24.04");
}

#[test]
fn cpu_average_frequency() {
    assert_eq!(average_frequency(&[]), 0);
    assert_eq!(average_frequency(&[800, 900, 1000]), 900);
    assert_eq!(average_frequency(&[1, 2]), 1);
}

fn disk(name: &str, mount: &str, fs: &str, total: u64, avail: u64) -> DiskSample {
    DiskSample {
        name: name.into(),
        mount_point: mount.into(),
        file_system: fs.into(),
        total_bytes: total,
        available_bytes: avail,
    }
}

#[test]
fn disk_filter_and_totals() {
    assert!(is_excluded("tmpfs", "/run"));
    assert!(is_excluded("ext4", "/snap/core/1"));
    assert!(is_excluded("ext4", "/var/lib/docker/overlay"));
    assert!(!is_excluded("ext4", "/"));
    let s = summarize_disks(&vec![
        disk("sda2", "/", "ext4", 4096, 1024),
        disk("tmp", "/tmp", "tmpfs", 999, 1),
        disk("sdb1", "/data", "xfs", 2048, 4096),
    ]);
    assert_eq!(s.disks.len(), 2);
    assert_eq!(s.disks[0].used_bytes, 3072);
    assert_eq!(s.disks[0].used_human, "3.0 KB");
    assert_eq!(s.disks[1].used_bytes, 0);
    assert_eq!(s.total_bytes, 6144);
    assert_eq!(s.available_bytes, 5120);
    assert_eq!(s.used_bytes, 1024);
    assert_eq!(s.total_human, "6.0 KB");
}

#[test]
fn energy_counter_wraps() {
    assert_eq!(default_max_range_uj(), 262143328850);
    assert_eq!(energy_delta(100, 250, 1000), 150);
    assert_eq!(energy_delta(900, 50, 1000), 150);
    let mut c = EnergyCounter::new(1000);
    assert_eq!(c.observe(900, true), None);
    assert_eq!(c.observe(50, true), Some(150));
    assert_eq!(c.observe(60, false), None);
    assert_eq!(c.observe(70, true), Some(10));
    assert_eq!(c.accumulated_uj, 160);
    assert_eq!(c.last_energy_uj, Some(70));
    assert_eq!(rapl_energy_path(0), "/sys/class/powercap/intel-rapl/intel-rapl:0/energy_uj");
    assert_eq!(
        rapl_max_range_path(3),
        "/sys/class/powercap/intel-rapl/intel-rapl:3/max_energy_range_uj"
    );
}

fn file(name: &str, content: Option<&str>) -> HwmonFile {
    HwmonFile { file_name: name.into(), content: content.map(|s| s.to_string()) }
}

#[test]
fn fans_from_devices() {
    let _ = ThermalCollector::new();
    assert!(is_fan_input("fan1_input"));
    assert!(!is_fan_input("fan1_label"));
    assert!(!is_fan_input("temp1_input"));
    let devices = vec![
        HwmonDevice {
            name_file: Some("asus\n".into()),
            files: vec![
                file("fan1_input", Some("0\n")),
                file("temp1_input", Some("42000")),
                file("fan2_input", Some(" 2400\n")),
                file("fan3_input", Some("n/a")),
                file("fan4_input", None),
            ],
        },
        HwmonDevice { name_file: None, files: vec![file("fan9_input", Some("1800"))] },
    ];
    let (fans, primary) = fans_from_hwmon(&devices);
    let names: Vec<&str> = fans.iter().map(|f| f.name.as_str()).collect();
    assert_eq!(names, vec!["asus_fan1", "asus_fan2", "hwmon_fan9"]);
    assert_eq!(fans[1].rpm, 2400);
    assert_eq!(primary, 2400);
}

#[test]
fn asus_fallback_when_no_fan_spins() {
    let mut fans: Vec<FanSensor> = Vec::new();
    let p = asus_fallback(&mut fans, 0, &vec![Some("3100\n".into()), None, Some("x".into())]);
    assert_eq!(p, 3100);
    assert_eq!(fans.len(), 1);
    assert_eq!(fans[0].name, "cpu_fan");
    let mut more: Vec<FanSensor> = Vec::new();
    assert_eq!(asus_fallback(&mut more, 1200, &vec![Some("3100".into())]), 1200);
    assert!(more.is_empty());
}

#[test]
fn cpu_zones_and_zone_dirs() {
    assert!(is_cpu_zone("x86_pkg_temp"));
    assert!(is_cpu_zone("CPU-therm"));
    assert!(is_cpu_zone("TCPU"));
    assert!(!is_cpu_zone("acpitz"));
    assert!(is_thermal_zone_dir("thermal_zone0"));
    assert!(!is_thermal_zone_dir("cooling_device0"));
}
