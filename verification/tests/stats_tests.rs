use docker_native_manager::stats::{memory_report, total_bytes, HostSampler, HostTotals, MemoryDetail};

#[test]
fn memory_less_cache_never_below_zero() {
    let r = memory_report(Some(1000), Some(4000), Some(MemoryDetail::CgroupV1 { cache: 300 }));
    assert_eq!((r.usage, r.limit), (700, 4000));
    let r = memory_report(Some(100), None, Some(MemoryDetail::CgroupV2 { inactive_file: 300 }));
    assert_eq!((r.usage, r.limit), (0, 0));
    let r = memory_report(None, Some(5), None);
    assert_eq!((r.usage, r.limit), (0, 5));
    let r = memory_report(Some(42), Some(5), None);
    assert_eq!(r.usage, 42);
}

#[test]
fn totals_add_up_or_report_overflow() {
    assert_eq!(total_bytes(&vec![1, 2, 3]), Some(6));
    assert_eq!(total_bytes(&vec![]), Some(0));
    assert_eq!(total_bytes(&vec![u64::MAX, 0]), Some(u64::MAX));
    assert_eq!(total_bytes(&vec![u64::MAX, 1]), None);
}

fn totals(r: u64, w: u64, rx: u64, tx: u64) -> HostTotals {
    HostTotals { disk_read: r, disk_write: w, net_rx: rx, net_tx: tx }
}

#[test]
fn first_sample_is_silent_then_rates_are_halved_increases() {
    let mut s = HostSampler::new();
    assert!(s.record(totals(1000, 500, 100, 50)).is_none());
    let r = s.record(totals(3000, 400, 101, 50)).unwrap();
    assert_eq!((r.disk_read, r.disk_write, r.net_rx, r.net_tx), (1000, 0, 0, 0));
    assert_eq!(s.last.disk_read, 3000);
}

#[test]
fn no_disk_reads_seen_means_no_report() {
    let mut s = HostSampler::new();
    assert!(s.record(totals(0, 10, 10, 10)).is_none());
    assert!(s.record(totals(0, 20, 20, 20)).is_none());
    assert!(s.record(totals(8, 20, 20, 20)).is_none());
    assert!(s.record(totals(10, 20, 20, 20)).is_some());
}
