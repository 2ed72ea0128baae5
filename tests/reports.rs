use sysmon::host::{cpu_summary, or_unknown, system_facts};
use sysmon::ranking::{top_processes, TOP_PROCESS_COUNT};
use sysmon::usage::{disk_report, memory_report, usage_percent};

#[test]
fn memory_half_used() {
    let m = memory_report(16_000_000_000, 8_000_000_000);
    assert_eq!(m.total, 16_000_000_000);
    assert_eq!(m.used, 8_000_000_000);
    assert_eq!(m.free, 8_000_000_000);
    assert_eq!(m.usage_percent, 50);
}

#[test]
fn memory_free_is_total_minus_used() {
    let m = memory_report(1000, 333);
    assert_eq!(m.free, 667);
    assert_eq!(m.usage_percent, 33);
    let full = memory_report(u64::MAX, u64::MAX);
    assert_eq!(full.free, 0);
    assert_eq!(full.usage_percent, 100);
}

#[test]
fn memory_empty_total() {
    let m = memory_report(0, 0);
    assert_eq!(m.free, 0);
    assert_eq!(m.usage_percent, 0);
}

#[test]
fn percent_rounds_down() {
    assert_eq!(usage_percent(2, 3), 66);
    assert_eq!(usage_percent(1, 3), 33);
    assert_eq!(usage_percent(0, 5), 0);
    assert_eq!(usage_percent(7, 0), 0);
    assert_eq!(usage_percent(u64::MAX - 1, u64::MAX), 99);
}

#[test]
fn disk_without_space() {
    let d = disk_report("sr0".to_string(), "/media/cdrom".to_string(), 0, 0);
    assert_eq!(d.usage_percent, 0);
    assert_eq!(d.total_space, 0);
    assert_eq!(d.available_space, 0);
}

#[test]
fn disk_usage_from_available() {
    let d = disk_report("nvme0n1p2".to_string(), "/".to_string(), 300, 100);
    assert_eq!(d.name, "nvme0n1p2");
    assert_eq!(d.mount_point, "/");
    assert_eq!(d.total_space, 300);
    assert_eq!(d.available_space, 100);
    assert_eq!(d.usage_percent, 66);
    let full = disk_report("a".to_string(), "/a".to_string(), 512, 0);
    assert_eq!(full.usage_percent, 100);
    let empty = disk_report("b".to_string(), "/b".to_string(), 512, 512);
    assert_eq!(empty.usage_percent, 0);
}

#[test]
fn kernel_version_missing() {
    let s = system_facts(
        Some("box".to_string()),
        Some("Linux".to_string()),
        Some("22.04".to_string()),
        None,
        3600,
    );
    assert_eq!(s.kernel_version, "Unknown");
    assert_eq!(s.hostname, "box");
    assert_eq!(s.os_name, "Linux");
    assert_eq!(s.os_version, "22.04");
    assert_eq!(s.uptime, 3600);
}

#[test]
fn all_facts_missing() {
    let s = system_facts(None, None, None, None, 0);
    assert_eq!(s.hostname, "Unknown");
    assert_eq!(s.os_name, "Unknown");
    assert_eq!(s.os_version, "Unknown");
    assert_eq!(s.kernel_version, "Unknown");
    assert_eq!(s.uptime, 0);
}

#[test]
fn reported_fact_kept() {
    assert_eq!(or_unknown(Some("6.8.0".to_string())), "6.8.0");
    assert_eq!(or_unknown(Some(String::new())), "");
    assert_eq!(or_unknown(None), "Unknown");
}

#[test]
fn cpu_from_first_core() {
    let c = cpu_summary(Some(("AMD Ryzen 7".to_string(), 3600)), 4);
    assert_eq!(c.name, "AMD Ryzen 7");
    assert_eq!(c.frequency, 3600);
    assert_eq!(c.core_count, 4);
}

#[test]
fn cpu_without_cores() {
    let c = cpu_summary(None, 0);
    assert_eq!(c.name, "Unknown");
    assert_eq!(c.frequency, 0);
    assert_eq!(c.core_count, 0);
}

#[test]
fn top_processes_empty() {
    assert!(top_processes(&vec![]).is_empty());
}

#[test]
fn top_processes_fewer_than_limit() {
    assert_eq!(top_processes(&vec![5, 9, 1]), vec![1, 0, 2]);
}

#[test]
fn top_processes_keeps_enumeration_order_on_ties() {
    assert_eq!(top_processes(&vec![3, 7, 3, 7, 0]), vec![1, 3, 0, 2, 4]);
}

#[test]
fn top_processes_takes_ten_highest() {
    let keys: Vec<u32> = (0..25u32).map(|i| (i * 7) % 25).collect();
    let order = top_processes(&keys);
    assert_eq!(order.len(), TOP_PROCESS_COUNT);
    let picked: Vec<u32> = order.iter().map(|&i| keys[i]).collect();
    assert_eq!(picked, vec![24, 23, 22, 21, 20, 19, 18, 17, 16, 15]);
    for w in picked.windows(2) {
        assert!(w[0] >= w[1]);
    }
}

#[test]
fn top_processes_all_equal() {
    let keys = vec![4u32; 12];
    assert_eq!(top_processes(&keys), (0..10).collect::<Vec<usize>>());
}
