//! The typed writes that the cgroupfs manager asks its caller to perform
//! on the controller files of a cgroup.
use vstd::prelude::*;

verus! {

/// The cgroup controllers (subsystems) that the manager drives.
#[derive(Debug, Clone, Copy, PartialEq, Eq, Structural)]
pub enum Subsystem {
    Cpu,
    CpuAcct,
    CpuSet,
    Memory,
    Pids,
    BlkIo,
    HugeTlb,
    Devices,
    Freezer,
    NetCls,
    NetPrio,
}

/// A limit that is either a number or no limit at all (`max`).
#[derive(Debug, Clone, Copy, PartialEq, Eq, Structural)]
pub enum MaxValue {
    Max,
    Value(i64),
}

/// A kind of device in a device rule.
#[derive(Debug, Clone, Copy, PartialEq, Eq, Structural)]
pub enum DeviceType {
    /// Every device (`a`).
    All,
    /// Block devices (`b`).
    Block,
    /// Character devices (`c`).
    Char,
    /// FIFOs (`p`).
    Fifo,
}

/// The accesses a device rule names.
#[derive(Debug, Clone, Copy, PartialEq, Eq, Structural)]
pub struct DeviceAccess {
    pub read: bool,
    pub write: bool,
    pub mknod: bool,
}

/// One write into a controller file of the managed cgroup.
#[derive(Debug, PartialEq, Eq)]
pub enum CgroupOp {
    /// `cpuset.cpus`
    SetCpus(String),
    /// `cpuset.mems`
    SetMems(String),
    /// `cpu.shares` (v1) or `cpu.weight` (v2)
    SetShares(u64),
    /// The quota of `cpu.cfs_quota_us` (v1) or `cpu.max` (v2)
    SetCfsQuota(i64),
    /// The period of `cpu.cfs_period_us` (v1) or `cpu.max` (v2)
    SetCfsPeriod(u64),
    /// `cpu.rt_runtime_us`
    SetRtRuntime(i64),
    /// `cpu.rt_period_us`
    SetRtPeriod(u64),
    /// `memory.limit_in_bytes` (v1) or `memory.max` (v2)
    SetMemLimit(i64),
    /// `memory.memsw.limit_in_bytes` (v1) or `memory.swap.max` (v2)
    SetMemswapLimit(i64),
    /// `memory.soft_limit_in_bytes` (v1) or `memory.low` (v2)
    SetSoftLimit(i64),
    /// `memory.oom_control`
    DisableOomKiller,
    /// `memory.swappiness`
    SetSwappiness(u64),
    /// `pids.max`
    SetPidMax(MaxValue),
    /// `blkio.weight`
    SetBlkioWeight(u64),
    /// `blkio.leaf_weight`
    SetBlkioLeafWeight(u64),
    /// `blkio.weight_device`: major, minor, weight
    SetDeviceWeight(u64, u64, u64),
    /// `blkio.leaf_weight_device`: major, minor, weight
    SetDeviceLeafWeight(u64, u64, u64),
    /// `blkio.throttle.read_bps_device`: major, minor, rate
    ThrottleReadBps(u64, u64, u64),
    /// `blkio.throttle.write_bps_device`: major, minor, rate
    ThrottleWriteBps(u64, u64, u64),
    /// `blkio.throttle.read_iops_device`: major, minor, rate
    ThrottleReadIops(u64, u64, u64),
    /// `blkio.throttle.write_iops_device`: major, minor, rate
    ThrottleWriteIops(u64, u64, u64),
    /// `hugetlb.<size>.limit_in_bytes` (v1) or `hugetlb.<size>.max` (v2)
    SetHugepageLimit(String, u64),
    /// `net_cls.classid`
    SetClassId(u64),
    /// `net_prio.ifpriomap`: interface, priority
    SetIfPrio(String, u64),
    /// `devices.allow`: type, major, minor, access
    AllowDevice(DeviceType, i64, i64, DeviceAccess),
    /// `devices.deny`: type, major, minor, access
    DenyDevice(DeviceType, i64, i64, DeviceAccess),
    /// `freezer.state` to FROZEN (v1) or `cgroup.freeze` to 1 (v2)
    Freeze,
    /// `freezer.state` to THAWED (v1) or `cgroup.freeze` to 0 (v2)
    Thaw,
}

} // verus!
