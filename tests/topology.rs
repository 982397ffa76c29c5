use cgroups_rs::client::is_no_such_unit;
use cgroups_rs::hugetlb::HugeTlbController;
use cgroups_rs::net_prio::NetPrioController;
use cgroups_rs::paths::join_path;
use cgroups_rs::topology::{is_cgroup2_unified_mode, parse_cgroup_mountinfo, parse_cgroup_subsystems};

fn pairs(v: &[(&str, &str)]) -> Vec<(String, String)> {
    v.iter().map(|(a, b)| (a.to_string(), b.to_string())).collect()
}

#[test]
fn cgroup_file_v1() {
    let data = "12:memory:/user.slice\n11:cpu,cpuacct:/\nbroken line\n1:name=systemd:/init.scope\n";
    let paths = parse_cgroup_subsystems(data);
    assert_eq!(
        paths,
        pairs(&[("memory", "/user.slice"), ("cpu", "/"), ("cpuacct", "/"), ("name=systemd", "/init.scope")])
    );
    // a later line overrides an earlier one
    let paths = parse_cgroup_subsystems("1:memory:/a\n2:memory:/b");
    assert_eq!(paths, pairs(&[("memory", "/b")]));
}

#[test]
fn cgroup_file_v2() {
    assert_eq!(parse_cgroup_subsystems("0::/user.slice/app.scope\n"), pairs(&[("", "/user.slice/app.scope")]));
    assert!(parse_cgroup_subsystems("").is_empty());
}

#[test]
fn mountinfo_file() {
    let paths = pairs(&[("memory", "/"), ("cpu", "/"), ("cpuacct", "/")]);
    let data = "\
25 30 0:22 / /sys/fs/cgroup/memory rw,nosuid shared:10 - cgroup cgroup rw,memory\n\
26 30 0:23 / /sys/fs/cgroup/cpu,cpuacct rw,nosuid shared:11 - cgroup cgroup rw,cpu,cpuacct\n\
27 30 0:24 / /proc rw - proc proc rw\n\
28 30 0:25 / /weird rw - cgroup cgroup\n\
no separator here\n";
    let mounts = parse_cgroup_mountinfo(data, &paths);
    assert_eq!(
        mounts,
        pairs(&[
            ("memory", "/sys/fs/cgroup/memory"),
            ("cpu", "/sys/fs/cgroup/cpu,cpuacct"),
            ("cpuacct", "/sys/fs/cgroup/cpu,cpuacct"),
        ])
    );
}

#[test]
fn joining_paths() {
    assert_eq!(join_path("/sys/fs/cgroup", "a/b"), "/sys/fs/cgroup/a/b");
    assert_eq!(join_path("/sys/fs/cgroup/", "a"), "/sys/fs/cgroup/a");
    assert_eq!(join_path("/sys/fs/cgroup", "/abs"), "/abs");
    assert_eq!(join_path("", "a"), "a");
}

#[test]
fn controllers() {
    let c = HugeTlbController::new("/p".to_string(), "/r".to_string(), vec!["2MB".to_string(), "1GB".to_string()], true);
    assert!(c.size_supported("1GB"));
    assert!(!c.size_supported("4MB"));
    assert_eq!(c.get_sizes(), vec!["2MB".to_string(), "1GB".to_string()]);
    let n = NetPrioController::new("/sys/fs/cgroup/net_prio/x".to_string(), "/sys/fs/cgroup/net_prio".to_string());
    assert_eq!(n.path(), "/sys/fs/cgroup/net_prio/x");
    assert!(is_no_such_unit("org.freedesktop.systemd1.NoSuchUnit"));
    assert!(!is_no_such_unit("org.freedesktop.DBus.Error.Failed"));
}

#[test]
fn hugetlb_files() {
    let v1 = HugeTlbController::new("/p".to_string(), "/r".to_string(), vec![], false);
    let v2 = HugeTlbController::new("/p".to_string(), "/r".to_string(), vec![], true);
    assert_eq!(v1.limit_in_bytes("2MB"), "hugetlb.2MB.limit_in_bytes");
    assert_eq!(v2.limit_in_bytes("2MB"), "hugetlb.2MB.max");
    assert_eq!(v1.usage_in_bytes("1GB"), "hugetlb.1GB.usage_in_bytes");
    assert_eq!(v2.usage_in_bytes("1GB"), "hugetlb.1GB.current");
    assert_eq!(v1.failcnt("2MB"), "hugetlb.2MB.failcnt");
    assert_eq!(v2.failcnt("2MB"), "hugetlb.2MB.events");
    assert_eq!(v1.max_usage_in_bytes("2MB"), "hugetlb.2MB.max_usage_in_bytes");
    assert_eq!(
        v2.set_limit_in_bytes("2MB", 4096),
        cgroups_rs::ops::CgroupOp::SetHugepageLimit("2MB".to_string(), 4096)
    );
    let n = NetPrioController::new("/x".to_string(), "/".to_string());
    assert_eq!(n.set_if_prio("eth0", 5), cgroups_rs::ops::CgroupOp::SetIfPrio("eth0".to_string(), 5));
}

#[test]
fn unified_mode_detection() {
    let v2 = "30 23 0:26 / /sys/fs/cgroup rw,nosuid shared:4 - cgroup2 cgroup2 rw,nsdelegate\n";
    assert!(is_cgroup2_unified_mode(v2));
    let v1 = "25 30 0:22 / /sys/fs/cgroup/memory rw shared:10 - cgroup cgroup rw,memory\n\
31 23 0:27 / /sys/fs/cgroup/unified rw - cgroup2 cgroup2 rw\n";
    assert!(!is_cgroup2_unified_mode(v1));
    assert!(!is_cgroup2_unified_mode(""));
}
