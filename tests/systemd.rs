use cgroups_rs::client::SystemdClient;
use cgroups_rs::error::{DbusError, Error, SystemdError};
use cgroups_rs::ops::Subsystem;
use cgroups_rs::props::{PropertiesBuilder, Value};
use cgroups_rs::resources::{LinuxCpu, LinuxMemory, LinuxPids, LinuxResources};
use cgroups_rs::systemd_manager::{AddProcAction, SystemdManager};
use cgroups_rs::unit_resources::quota_per_sec;
use cgroups_rs::CgroupPid;

const MEMORY_512M: i64 = 512 * 1024 * 1024;
const MEMORY_1G: i64 = 1024 * 1024 * 1024;

fn new_manager(path: &str, v2: bool) -> SystemdManager {
    SystemdManager::new(path, vec![], vec![], v2, vec![Subsystem::Cpu, Subsystem::Memory], vec![]).unwrap()
}

fn names(props: &[(String, Value)]) -> Vec<&str> {
    props.iter().map(|(k, _)| k.as_str()).collect()
}

#[test]
fn test_slice_and_unit() {
    let (slice, scope_prefix, name) = ("cgroupsrs-test.slice", "cri", "podab12c");
    let manager = new_manager(&format!("{}:{}:{}", slice, scope_prefix, name), true);
    assert_eq!(manager.slice(), "cgroupsrs-test.slice");
    assert_eq!(manager.unit(), format!("{scope_prefix}-{name}.scope"));
    assert_eq!(manager.fs_manager().base(), "cgroupsrs.slice/cgroupsrs-test.slice/cri-podab12c.scope");
    assert!(SystemdManager::new("a:b", vec![], vec![], true, vec![], vec![]).is_err());
}

#[test]
fn systemd_test_set_cpu() {
    let mut manager = new_manager("cgroupsrs-test.slice:cri:pod1", true);
    let res = LinuxResources {
        cpu: Some(LinuxCpu { shares: Some(1024), quota: Some(100000), period: Some(100000), ..Default::default() }),
        ..Default::default()
    };
    let props = manager.set(&res, "249.11-0ubuntu3.16").unwrap();
    assert_eq!(
        props,
        vec![
            ("CPUWeight".to_string(), Value::U64(39)),
            ("CPUQuotaPeriodUSec".to_string(), Value::U64(100000)),
            ("CPUQuotaPerSecUSec".to_string(), Value::U64(1_000_000)),
        ]
    );
    assert!(manager.set(&res, "241").is_err());
}

#[test]
fn quota_rounding() {
    assert_eq!(quota_per_sec(50000, 100000), 500_000);
    assert_eq!(quota_per_sec(12345, 100000), 130_000);
    assert_eq!(quota_per_sec(50000, 0), 500_000);
    assert_eq!(quota_per_sec(0, 100000), u64::MAX);
    assert_eq!(quota_per_sec(-1, 100000), u64::MAX);
    assert_eq!(quota_per_sec(i64::MAX, 1), u64::MAX);
}

#[test]
fn systemd_test_set_memory_v2() {
    let mut manager = new_manager("cgroupsrs-test.slice:cri:pod2", true);
    let res = LinuxResources {
        memory: Some(LinuxMemory { limit: Some(MEMORY_1G), swap: Some(MEMORY_512M), ..Default::default() }),
        ..Default::default()
    };
    assert_eq!(manager.set(&res, "252"), Err(Error::InvalidLinuxResource));
    let res = LinuxResources {
        memory: Some(LinuxMemory {
            limit: Some(MEMORY_512M),
            swap: Some(MEMORY_1G),
            reservation: Some(MEMORY_512M),
            ..Default::default()
        }),
        pids: Some(LinuxPids { limit: -1 }),
        ..Default::default()
    };
    let props = manager.set(&res, "252").unwrap();
    assert_eq!(names(&props), vec!["MemoryMax", "MemoryLow", "MemorySwapMax", "TasksMax"]);
    assert_eq!(props[2].1, Value::U64(MEMORY_512M as u64));
    assert_eq!(props[3].1, Value::U64(u64::MAX));
}

#[test]
fn systemd_test_set_memory_v1() {
    let mut manager = new_manager("cgroupsrs-test.slice:cri:pod3", false);
    let res = LinuxResources {
        memory: Some(LinuxMemory {
            limit: Some(MEMORY_512M),
            swap: Some(MEMORY_512M),
            reservation: Some(MEMORY_512M),
            ..Default::default()
        }),
        ..Default::default()
    };
    let props = manager.set(&res, "252").unwrap();
    assert_eq!(props, vec![("MemoryLimit".to_string(), Value::U64(MEMORY_512M as u64))]);
}

#[test]
fn test_systemd_version() {
    assert_eq!(SystemdClient::systemd_version("249.11-0ubuntu3.16").unwrap(), 249);
    assert_eq!(SystemdClient::systemd_version("255").unwrap(), 255);
    assert_eq!(
        SystemdClient::systemd_version("v255"),
        Err(DbusError::CorruptedSystemdVersion("v255".to_string()))
    );
}

#[test]
fn default_unit_properties() {
    let props = PropertiesBuilder::default_cgroup("system.slice", "cri-x.scope").build(true);
    assert_eq!(
        names(&props),
        vec!["CPUAccounting", "MemoryAccounting", "TasksAccounting", "IOAccounting", "DefaultDependencies", "Description", "Slice", "Delegate"]
    );
    assert_eq!(props[5].1, Value::String("cgroups-rs transient unit system.slice:cri-x.scope".to_string()));
    let props = PropertiesBuilder::default_cgroup("a.slice", "a-b.slice").build(false);
    assert_eq!(names(&props)[3], "BlockIOAccounting");
    assert_eq!(names(&props)[6], "Wants");
    assert_eq!(props.len(), 7);
}

#[test]
fn pid_property_and_merge() {
    let mut client = SystemdClient::new("u.scope", vec![]).unwrap();
    assert_eq!(client.start(), Err(DbusError::InvalidProperties));
    client.set_pid_prop(CgroupPid { pid: 10 }).unwrap();
    client.set_pid_prop(CgroupPid::from(11)).unwrap();
    assert_eq!(client.props(), &vec![("PIDs".to_string(), Value::ArrayU32(vec![10, 11]))]);
    assert_eq!(client.start(), Ok(()));
    client
        .set_properties(&[("PIDs".to_string(), Value::U64(1)), ("Description".to_string(), Value::Bool(true))])
        .unwrap();
    assert_eq!(client.props().len(), 2);
    assert_eq!(client.set_pid_prop(CgroupPid { pid: 3 }), Err(DbusError::InvalidProperties));
}

#[test]
fn add_proc_and_freeze() {
    let mut manager = new_manager("cgroupsrs-test.slice:cri:pod4", true);
    assert_eq!(manager.add_proc(CgroupPid { pid: 7 }, false, false), Ok(AddProcAction::Start));
    assert_eq!(manager.add_proc(CgroupPid { pid: 8 }, true, true), Ok(AddProcAction::Attach("/init/")));
    assert_eq!(
        manager.freeze(cgroups_rs::FreezerState::Freezing),
        Err(Error::InvalidArgument)
    );
    let props = manager.set_term_timeout(3).unwrap();
    assert_eq!(props, vec![("TimeoutStopUSec".to_string(), Value::U64(3_000_000))]);
    assert_eq!(manager.set(&LinuxResources::default(), "x").unwrap_err(), Error::SystemdDbus(DbusError::CorruptedSystemdVersion("x".to_string())));
    let _ = SystemdError::ObsoleteSystemd;
}
