use cgroups_rs::error::{Error, FsErrorKind};
use cgroups_rs::fs_manager::{FsManager, MemoryState};
use cgroups_rs::ops::{CgroupOp, DeviceAccess, DeviceType, MaxValue, Subsystem};
use cgroups_rs::resources::{
    LinuxCpu, LinuxDeviceCgroup, LinuxHugepageLimit, LinuxMemory, LinuxPids, LinuxResources,
};
use cgroups_rs::stats::parse_value_from_tuples;
use cgroups_rs::FreezerState;

const TEST_BASE: &str = "cgroupsrs/pod";
const MEMORY_512M: i64 = 512 * 1024 * 1024;
const MEMORY_1G: i64 = 1024 * 1024 * 1024;
const MEMORY_2G: i64 = 2 * 1024 * 1024 * 1024;

fn all_controllers() -> Vec<Subsystem> {
    vec![
        Subsystem::Cpu,
        Subsystem::CpuAcct,
        Subsystem::CpuSet,
        Subsystem::Memory,
        Subsystem::Pids,
        Subsystem::BlkIo,
        Subsystem::HugeTlb,
        Subsystem::Devices,
        Subsystem::Freezer,
        Subsystem::NetCls,
        Subsystem::NetPrio,
    ]
}

fn manager(base: &str, v2: bool) -> FsManager {
    let (paths, mounts) = if v2 {
        (
            vec![(String::new(), "/".to_string())],
            vec![(String::new(), "/sys/fs/cgroup".to_string())],
        )
    } else {
        (
            vec![
                ("memory".to_string(), "/user.slice".to_string()),
                ("cpu".to_string(), "/".to_string()),
            ],
            vec![
                ("memory".to_string(), "/sys/fs/cgroup/memory".to_string()),
                ("cpu".to_string(), "/sys/fs/cgroup/cpu".to_string()),
            ],
        )
    };
    FsManager::new(base, paths, mounts, v2, all_controllers(), vec!["2MB".to_string()])
}

fn cpu_resources(shares: u64, quota: i64, period: u64) -> LinuxResources {
    LinuxResources {
        cpu: Some(LinuxCpu {
            shares: Some(shares),
            quota: Some(quota),
            period: Some(period),
            ..Default::default()
        }),
        ..Default::default()
    }
}

fn memory_resources(memory: LinuxMemory) -> LinuxResources {
    LinuxResources { memory: Some(memory), ..Default::default() }
}

#[test]
fn test_parse_value_from_tuples() {
    let tuple_str = "system 100000\nuser 200000";
    assert_eq!(parse_value_from_tuples(tuple_str, "user"), Some(200000));
    assert_eq!(parse_value_from_tuples(tuple_str, "system"), Some(100000));
    assert_eq!(parse_value_from_tuples(tuple_str, "user1"), None);
}

#[test]
fn test_paths_and_mounts() {
    let manager = manager(TEST_BASE, false);
    for (subsystem, _mountpoint) in manager.mounts() {
        let path = manager.cgroup_path(Some(subsystem.as_str())).unwrap();
        let expected = &manager.paths().iter().find(|(k, _)| k == subsystem).unwrap().1;
        assert_eq!(&path, expected, "Cgroup {} does not exist", path);
    }
    let v2 = manager_v2();
    for (subsystem, _mountpoint) in v2.mounts() {
        assert!(subsystem.is_empty());
        assert!(v2.v2());
        assert_eq!(v2.cgroup_path(None).unwrap(), "/sys/fs/cgroup/cgroupsrs/pod");
    }
}

fn manager_v2() -> FsManager {
    manager(TEST_BASE, true)
}

#[test]
fn cgroup_path_errors() {
    let m = manager(TEST_BASE, false);
    assert_eq!(m.cgroup_path(None).unwrap_err(), Error::Cgroupfs(cgroups_rs::error::FsError::new(FsErrorKind::InvalidPath)));
    assert!(matches!(m.cgroup_path(Some("pids")), Err(Error::Cgroupfs(e)) if e.kind == FsErrorKind::SubsystemsEmpty));
}

#[test]
fn test_systemd() {
    let manager = manager(TEST_BASE, true);
    assert!(!manager.systemd(), "FsManager should not be systemd");
}

#[test]
fn fs_test_set_cpu() {
    // 1024 shares, every 100ms allows to use 1 CPU
    let plan = manager(TEST_BASE, true).set(cpu_resources(1024, 100000, 100000), &MemoryState::default());
    assert_eq!(plan.result, Ok(()));
    assert_eq!(
        plan.ops,
        vec![CgroupOp::SetShares(39), CgroupOp::SetCfsQuota(100000), CgroupOp::SetCfsPeriod(100000)]
    );
    let plan = manager(TEST_BASE, false).set(cpu_resources(1024, 100000, 100000), &MemoryState::default());
    assert_eq!(plan.ops[0], CgroupOp::SetShares(1024));
}

#[test]
fn fs_test_set_memory_v2() {
    let state = MemoryState { limit_in_bytes: i64::MAX, usage_in_bytes: 4096 };
    // expected failure: swap < limit
    let plan = manager(TEST_BASE, true).set(
        memory_resources(LinuxMemory { limit: Some(MEMORY_1G), swap: Some(MEMORY_512M), ..Default::default() }),
        &state,
    );
    assert_eq!(plan.result, Err(Error::InvalidLinuxResource));
    assert!(plan.ops.is_empty());

    let plan = manager(TEST_BASE, true).set(
        memory_resources(LinuxMemory {
            limit: Some(MEMORY_512M),
            swap: Some(MEMORY_1G),
            reservation: Some(MEMORY_2G),
            ..Default::default()
        }),
        &state,
    );
    assert_eq!(plan.result, Ok(()));
    assert_eq!(
        plan.ops,
        vec![
            CgroupOp::SetMemswapLimit(MEMORY_512M),
            CgroupOp::SetMemLimit(MEMORY_512M),
            CgroupOp::SetSoftLimit(MEMORY_2G),
        ]
    );
}

#[test]
fn memory_v2_rejects_limit_below_usage() {
    let state = MemoryState { limit_in_bytes: 0, usage_in_bytes: MEMORY_1G as u64 };
    let plan = manager(TEST_BASE, true).set(
        memory_resources(LinuxMemory { limit: Some(MEMORY_512M), ..Default::default() }),
        &state,
    );
    assert_eq!(plan.result, Err(Error::InvalidLinuxResource));
}

#[test]
fn fs_test_set_memory_v1() {
    let state = MemoryState { limit_in_bytes: MEMORY_1G, usage_in_bytes: 0 };
    let plan = manager(TEST_BASE, false).set(
        memory_resources(LinuxMemory {
            limit: Some(MEMORY_512M),
            swap: Some(MEMORY_512M),
            reservation: Some(MEMORY_512M),
            disable_oom_killer: Some(true),
            swappiness: Some(50),
        }),
        &state,
    );
    assert_eq!(plan.result, Ok(()));
    assert_eq!(
        plan.ops,
        vec![
            CgroupOp::SetMemLimit(MEMORY_512M),
            CgroupOp::SetMemswapLimit(MEMORY_512M),
            CgroupOp::SetSoftLimit(MEMORY_512M),
            CgroupOp::DisableOomKiller,
            CgroupOp::SetSwappiness(50),
        ]
    );

    // expected failure: swapiness too high
    let plan = manager(TEST_BASE, false).set(
        memory_resources(LinuxMemory { swappiness: Some(101), ..Default::default() }),
        &state,
    );
    assert_eq!(plan.result, Err(Error::InvalidLinuxResource));
}

#[test]
fn memory_v1_write_order() {
    let m = manager(TEST_BASE, false);
    // shrinking below the current limit: limit first
    assert_eq!(
        m.set_mem_and_memswap_v1(MEMORY_512M, MEMORY_512M, MEMORY_1G).unwrap(),
        vec![CgroupOp::SetMemLimit(MEMORY_512M), CgroupOp::SetMemswapLimit(MEMORY_512M)]
    );
    // growing past the current limit: memory+swap first
    assert_eq!(
        m.set_mem_and_memswap_v1(MEMORY_2G, MEMORY_2G, MEMORY_1G).unwrap(),
        vec![CgroupOp::SetMemswapLimit(MEMORY_2G), CgroupOp::SetMemLimit(MEMORY_2G)]
    );
    // unlimited memory without swap makes both unlimited
    assert_eq!(
        m.set_mem_and_memswap_v1(-1, 0, MEMORY_1G).unwrap(),
        vec![CgroupOp::SetMemswapLimit(-1), CgroupOp::SetMemLimit(-1)]
    );
    let no_memory = FsManager::new(TEST_BASE, vec![], vec![], false, vec![Subsystem::Cpu], vec![]);
    assert!(no_memory.set_mem_and_memswap_v1(1, 1, 1).is_err());
}

#[test]
fn test_enable_cpus_topdown() {
    let m = manager("x/y/z", true);
    assert_eq!(m.enable_cpus_topdown("0-1").unwrap(), vec!["x".to_string(), "x/y".to_string()]);
    assert!(m.enable_cpus_topdown("").unwrap().is_empty());
    assert!(manager("z", true).enable_cpus_topdown("0").unwrap().is_empty());
    let no_cpuset = FsManager::new("x/y", vec![], vec![], true, vec![], vec![]);
    assert!(no_cpuset.enable_cpus_topdown("0").is_err());
}

#[test]
fn set_order_and_missing_controllers() {
    let res = LinuxResources {
        cpu: Some(LinuxCpu { cpus: Some("0-1".to_string()), shares: Some(2), ..Default::default() }),
        pids: Some(LinuxPids { limit: 0 }),
        hugepage_limits: Some(vec![
            LinuxHugepageLimit { page_size: "2MB".to_string(), limit: 4096 },
            LinuxHugepageLimit { page_size: "1GB".to_string(), limit: 4096 },
        ]),
        devices: Some(vec![LinuxDeviceCgroup {
            allow: false,
            typ: Some('c'),
            major: Some(1),
            minor: None,
            access: Some("rwx".to_string()),
        }]),
        ..Default::default()
    };
    let plan = manager(TEST_BASE, false).set(res, &MemoryState::default());
    assert_eq!(plan.result, Ok(()));
    assert_eq!(
        plan.ops,
        vec![
            CgroupOp::SetCpus("0-1".to_string()),
            CgroupOp::SetShares(2),
            CgroupOp::SetPidMax(MaxValue::Max),
            CgroupOp::SetHugepageLimit("2MB".to_string(), 4096),
            CgroupOp::DenyDevice(DeviceType::Char, 1, 0, DeviceAccess { read: true, write: true, mknod: false }),
        ]
    );
    let only_cpu = FsManager::new(TEST_BASE, vec![], vec![], true, vec![Subsystem::Cpu], vec![]);
    let plan = only_cpu.set(cpu_resources(1024, 1, 2), &MemoryState::default());
    assert_eq!(plan.ops.len(), 3);
}

#[test]
fn unknown_device_type_is_rejected() {
    let res = LinuxResources {
        devices: Some(vec![
            LinuxDeviceCgroup { allow: true, typ: None, ..Default::default() },
            LinuxDeviceCgroup { allow: true, typ: Some('z'), ..Default::default() },
        ]),
        ..Default::default()
    };
    let plan = manager(TEST_BASE, true).set(res, &MemoryState::default());
    assert_eq!(plan.result, Err(Error::InvalidLinuxResource));
    assert_eq!(plan.ops.len(), 1);
}

#[test]
fn freeze_states() {
    let m = manager(TEST_BASE, true);
    assert_eq!(m.freeze(FreezerState::Frozen), Ok(CgroupOp::Freeze));
    assert_eq!(m.freeze(FreezerState::Thawed), Ok(CgroupOp::Thaw));
    assert_eq!(m.freeze(FreezerState::Freezing), Err(Error::InvalidArgument));
    assert_eq!(m.subcgroup(true), "/init/");
    assert_eq!(manager(TEST_BASE, false).subcgroup(true), "/");
}
