//! The systemd unit properties that stand for single resource values.
use vstd::prelude::*;

use crate::consts::{
    ALLOWED_CPUS, ALLOWED_MEMORY_NODES, CPUSET_SYSTEMD_VERSION, CPU_QUOTA_PERIOD_US,
    CPU_QUOTA_PER_SEC_US, CPU_SHARES, CPU_SYSTEMD_VERSION, CPU_WEIGHT, MEMORY_LIMIT, MEMORY_LOW,
    MEMORY_MAX, MEMORY_SWAP_MAX, TASKS_MAX,
};
use crate::cpuset::{convert_list_to_mask, list_valid, mask_bit, mask_bytes, in_list};
use crate::error::SystemdError;
use crate::props::{property, Property, Value, ValueView};
use crate::text::split_on;

verus! {

/// Whether `r` is the property `name` with value `v`.
pub open spec fn is_prop(r: Result<Property, SystemdError>, name: Seq<char>, v: ValueView) -> bool {
    r matches Ok(p) && p.0@ == name && p.1@ == v
}

/// The property for CPU shares: `CPUWeight` on cgroup v2 (the caller
/// converts the shares to a weight), `CPUShares` on cgroup v1.
pub fn shares(value: u64, v2: bool) -> (r: Result<Property, SystemdError>)
    ensures
        is_prop(r, if v2 { CPU_WEIGHT@ } else { CPU_SHARES@ }, ValueView::U64(value)),
{
    let id = if v2 { CPU_WEIGHT } else { CPU_SHARES };
    Ok(property(id, Value::U64(value)))
}

/// The property for the CPU quota period; systemd has it from version 242.
pub fn period(value: u64, systemd_version: usize) -> (r: Result<Property, SystemdError>)
    ensures
        systemd_version < CPU_SYSTEMD_VERSION ==> r == Err::<Property, SystemdError>(SystemdError::ObsoleteSystemd),
        systemd_version >= CPU_SYSTEMD_VERSION ==> is_prop(r, CPU_QUOTA_PERIOD_US@, ValueView::U64(value)),
{
    if systemd_version < CPU_SYSTEMD_VERSION {
        return Err(SystemdError::ObsoleteSystemd);
    }
    Ok(property(CPU_QUOTA_PERIOD_US, Value::U64(value)))
}

/// The property for the CPU quota, in microseconds per CPU second.
pub fn quota(value: u64) -> (r: Result<Property, SystemdError>)
    ensures
        is_prop(r, CPU_QUOTA_PER_SEC_US@, ValueView::U64(value)),
{
    Ok(property(CPU_QUOTA_PER_SEC_US, Value::U64(value)))
}

/// The property for the memory limit: `MemoryMax` on cgroup v2,
/// `MemoryLimit` on cgroup v1; -1 (no limit) becomes the largest value.
pub fn limit(value: i64, v2: bool) -> (r: Result<Property, SystemdError>)
    ensures
        is_prop(r, if v2 { MEMORY_MAX@ } else { MEMORY_LIMIT@ }, ValueView::U64(value as u64)),
{
    let id = if v2 { MEMORY_MAX } else { MEMORY_LIMIT };
    Ok(property(id, Value::U64(value as u64)))
}

/// The property for the memory low boundary, which cgroup v1 lacks.
pub fn low(value: i64, v2: bool) -> (r: Result<Property, SystemdError>)
    ensures
        !v2 ==> r == Err::<Property, SystemdError>(SystemdError::CgroupsV1NotSupported),
        v2 ==> is_prop(r, MEMORY_LOW@, ValueView::U64(value as u64)),
{
    if !v2 {
        return Err(SystemdError::CgroupsV1NotSupported);
    }
    Ok(property(MEMORY_LOW, Value::U64(value as u64)))
}

/// The property for the swap limit, which cgroup v1 lacks.
pub fn swap(value: i64, v2: bool) -> (r: Result<Property, SystemdError>)
    ensures
        !v2 ==> r == Err::<Property, SystemdError>(SystemdError::CgroupsV1NotSupported),
        v2 ==> is_prop(r, MEMORY_SWAP_MAX@, ValueView::U64(value as u64)),
{
    if !v2 {
        return Err(SystemdError::CgroupsV1NotSupported);
    }
    Ok(property(MEMORY_SWAP_MAX, Value::U64(value as u64)))
}

/// The property for the process number limit.
pub fn max(value: i64) -> (r: Result<Property, SystemdError>)
    ensures
        is_prop(r, TASKS_MAX@, ValueView::U64(value as u64)),
{
    Ok(property(TASKS_MAX, Value::U64(value as u64)))
}

/// Whether `r` is the cpuset property `name` for the list `list`, taken by
/// systemd from version 244 on.
pub open spec fn is_mask_prop(
    r: Result<Property, SystemdError>,
    name: Seq<char>,
    list: Seq<char>,
    systemd_version: usize,
) -> bool {
    if systemd_version < CPUSET_SYSTEMD_VERSION {
        r == Err::<Property, SystemdError>(SystemdError::ObsoleteSystemd)
    } else if !list_valid(list) {
        r == Err::<Property, SystemdError>(SystemdError::InvalidArgument)
    } else {
        r matches Ok(p) && p.0@ == name && (p.1 matches Value::ArrayU8(m) && m@.len()
            == mask_bytes(split_on(list, ',')) && forall|i: int|
            0 <= i < 8 * m@.len() ==> mask_bit(m@, i) == in_list(list, i))
    }
}

fn mask_prop(name: &str, list: &str, systemd_version: usize) -> (r: Result<Property, SystemdError>)
    ensures
        is_mask_prop(r, name@, list@, systemd_version),
{
    if systemd_version < CPUSET_SYSTEMD_VERSION {
        return Err(SystemdError::ObsoleteSystemd);
    }
    let mask = convert_list_to_mask(list)?;
    Ok(property(name, Value::ArrayU8(mask)))
}

/// The property for the CPUs of a cpuset.
pub fn cpus(list: &str, systemd_version: usize) -> (r: Result<Property, SystemdError>)
    ensures
        is_mask_prop(r, ALLOWED_CPUS@, list@, systemd_version),
{
    mask_prop(ALLOWED_CPUS, list, systemd_version)
}

/// The property for the memory nodes of a cpuset.
pub fn mems(list: &str, systemd_version: usize) -> (r: Result<Property, SystemdError>)
    ensures
        is_mask_prop(r, ALLOWED_MEMORY_NODES@, list@, systemd_version),
{
    mask_prop(ALLOWED_MEMORY_NODES, list, systemd_version)
}

} // verus!
