use cgroups_rs::ops::{DeviceAccess, DeviceType, MaxValue};
use cgroups_rs::stats::{
    blkio_stats_v1, blkio_stats_v2, devices_cgroup_stats, memory_cgroup_stats, BlkIoRaw,
    DeviceRule, MemoryRaw, MemoryUsage,
    cpu_acct_stats, cpu_throttling_stats, pids_cgroup_stats, BlkIoData, BlkioStat, IoService, IoStat,
};

#[test]
fn service_rows() {
    let rows = BlkioStat::from_io_services(&[IoService {
        major: 8,
        minor: 1,
        read: 1,
        write: 2,
        sync: 3,
        asynchronous: 4,
        total: 5,
    }]);
    let ops: Vec<(&str, u64)> = rows.iter().map(|r| (r.op.as_str(), r.value)).collect();
    assert_eq!(ops, vec![("read", 1), ("write", 2), ("sync", 3), ("async", 4), ("total", 5)]);
    assert!(rows.iter().all(|r| r.major == 8 && r.minor == 1));
}

#[test]
fn io_stat_rows() {
    let rows = BlkioStat::from_io_stats(&[IoStat { major: 259, minor: 0, rbytes: 10, wbytes: 20, rios: 1, wios: 2, dbytes: 0, dios: 3 }]);
    let ops: Vec<&str> = rows.iter().map(|r| r.op.as_str()).collect();
    assert_eq!(ops, vec!["read", "write", "rios", "wios", "dbytes", "dios"]);
    assert_eq!(rows[5].value, 3);
    let data = BlkioStat::from_blk_io_data(&[BlkIoData { major: 1, minor: 2, data: 9 }]);
    assert_eq!((data[0].major, data[0].minor, data[0].op.as_str(), data[0].value), (1, 2, "", 9));
}

#[test]
fn cpu_statistics() {
    let s = cpu_acct_stats("user 200\nsystem 100\n", 300, "10\n20\nbad\n30\n");
    assert_eq!((s.user_usage, s.system_usage, s.total_usage), (200, 100, 300));
    assert_eq!(s.usage_percpu, vec![10, 20, 30]);
    let t = cpu_throttling_stats("nr_periods 5\r\nnr_throttled 2\nthrottled_time x\nthrottled_time 7");
    assert_eq!((t.periods, t.throttled_periods, t.throttled_time), (5, 2, 7));
    let p = pids_cgroup_stats(Some(3), Some(MaxValue::Max));
    assert_eq!((p.current, p.limit), (3, 0));
    let p = pids_cgroup_stats(None, Some(MaxValue::Value(20)));
    assert_eq!((p.current, p.limit), (0, 20));
}

#[test]
fn memory_and_devices_statistics() {
    let mut raw = MemoryRaw::default();
    raw.memory = MemoryUsage { usage_in_bytes: 10, max_usage_in_bytes: 20, limit_in_bytes: -1, fail_cnt: 1 };
    raw.use_hierarchy = 1;
    raw.stat.cache = 5;
    raw.stat.total_unevictable = 9;
    let m = memory_cgroup_stats(&raw);
    let mem = m.memory.unwrap();
    assert_eq!((mem.usage, mem.max_usage, mem.limit, mem.fail_cnt), (10, 20, -1, 1));
    assert!(m.use_hierarchy);
    assert_eq!((m.cache, m.total_unevictable), (5, 9));

    let list = devices_cgroup_stats(&vec![DeviceRule {
        devtype: DeviceType::Char,
        major: 1,
        minor: 3,
        access: DeviceAccess { read: true, write: false, mknod: true },
    }])
    .list;
    assert_eq!((list[0].dev_type.as_str(), list[0].major, list[0].minor, list[0].access.as_str()), ("c", 1, 3, "rm"));

    let mut b = BlkIoRaw::default();
    b.throttle_io_serviced = vec![IoService { major: 8, minor: 0, read: 1, ..Default::default() }];
    let s = blkio_stats_v1(&b);
    assert_eq!(s.io_serviced_recursive.len(), 5);
    assert!(s.io_queued_recursive.is_empty());
    b.io_serviced_recursive = vec![IoService::default(), IoService::default()];
    assert_eq!(blkio_stats_v1(&b).io_serviced_recursive.len(), 10);
    b.io_stat = vec![IoStat::default()];
    assert_eq!(blkio_stats_v2(&b).io_service_bytes_recursive.len(), 6);
}
