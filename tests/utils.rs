use cgroups_rs::error::SystemdError;
use cgroups_rs::utils::{
    expand_slice, is_scope_unit, is_slice_unit, is_systemd_cgroup, new_unit_name,
    parse_slice_and_unit,
};

#[test]
fn test_is_slice_unit() {
    assert!(is_slice_unit("test.slice"));
    assert!(!is_slice_unit("test.scope"));
}

#[test]
fn test_is_scope_unit() {
    assert!(is_scope_unit("test.scope"));
    assert!(!is_scope_unit("test.slice"));
}

#[test]
fn test_expand_slice() {
    assert_eq!(expand_slice("test.slice").unwrap(), "test.slice");
    assert_eq!(
        expand_slice("test-1.slice").unwrap(),
        "test.slice/test-1.slice"
    );
    assert_eq!(
        expand_slice("test-1-test-2.slice").unwrap(),
        "test.slice/test-1.slice/test-1-test.slice/test-1-test-2.slice"
    );
    assert_eq!(
        expand_slice("slice-slice.slice").unwrap(),
        "slice.slice/slice-slice.slice"
    );
    assert_eq!(expand_slice("-.slice").unwrap(), "");
    assert!(expand_slice("invalid/slice").is_err());
    assert!(expand_slice("invalid-slice").is_err());
}

#[test]
fn expand_slice_scenarios() {
    assert_eq!(expand_slice("a-b-c.slice").unwrap(), "a.slice/a-b.slice/a-b-c.slice");
    assert_eq!(expand_slice("a--b.slice"), Err(SystemdError::InvalidArgument));
    assert_eq!(expand_slice(".slice"), Err(SystemdError::InvalidArgument));
}

#[test]
fn expand_slice_leaf_is_stable() {
    for x in ["a-b-c.slice", "test.slice", "slice-slice.slice", "x-y.slice"] {
        let full = expand_slice(x).unwrap();
        let leaf = full.rsplit('/').next().unwrap().to_string();
        assert_eq!(expand_slice(&leaf).unwrap(), full);
    }
}

#[test]
fn test_new_unit_name() {
    assert_eq!(new_unit_name("test", "unit"), "test-unit.scope");
    assert_eq!(new_unit_name("test", "unit.slice"), "unit.slice");
    assert_eq!(new_unit_name("", "unit"), "unit.scope");
    assert_eq!(new_unit_name("", "unit.slice"), "unit.slice");
    assert_eq!(new_unit_name("prefix", "unit"), "prefix-unit.scope");
}

#[test]
fn systemd_cgroup_paths() {
    assert!(is_systemd_cgroup("a.slice:prefix:name"));
    assert!(!is_systemd_cgroup("a.slice:prefix"));
    assert!(!is_systemd_cgroup("a.slice:prefix:name:extra"));
    assert!(!is_systemd_cgroup("a.scope:prefix:name"));
    assert!(!is_systemd_cgroup("cgroupsrs/pod"));
}

#[test]
fn slice_and_unit_of_paths() {
    let (slice, unit) = parse_slice_and_unit(":cri:pod1").unwrap();
    assert_eq!(slice, "system.slice");
    assert_eq!(unit, "cri-pod1.scope");
    let (slice, unit) = parse_slice_and_unit("cgroupsrs-test.slice:cri:podx").unwrap();
    assert_eq!(slice, "cgroupsrs-test.slice");
    assert_eq!(unit, "cri-podx.scope");
    assert_eq!(parse_slice_and_unit("a:b"), Err(SystemdError::InvalidArgument));
}
