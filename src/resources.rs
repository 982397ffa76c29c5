//! The resource section of an OCI runtime specification, as plain values.
use vstd::prelude::*;

verus! {

/// CPU resources.
#[derive(Debug, Clone, Default)]
pub struct LinuxCpu {
    /// Relative share of CPU time (cgroup v1 shares).
    pub shares: Option<u64>,
    /// CPU time the cgroup may use in each period, in microseconds.
    pub quota: Option<i64>,
    /// The CFS period, in microseconds.
    pub period: Option<u64>,
    /// Realtime runtime, in microseconds.
    pub realtime_runtime: Option<i64>,
    /// Realtime period, in microseconds.
    pub realtime_period: Option<u64>,
    /// CPUs the cgroup may use, as a list such as `0-3,7`.
    pub cpus: Option<String>,
    /// Memory nodes the cgroup may use, as a list.
    pub mems: Option<String>,
}

/// Memory resources. -1 means unlimited.
#[derive(Debug, Clone, Default)]
pub struct LinuxMemory {
    pub limit: Option<i64>,
    pub reservation: Option<i64>,
    /// Memory plus swap.
    pub swap: Option<i64>,
    pub swappiness: Option<u64>,
    pub disable_oom_killer: Option<bool>,
}

/// Process number limit: -1 or 0 for no limit.
#[derive(Debug, Clone, Copy, Default)]
pub struct LinuxPids {
    pub limit: i64,
}

/// A block device weight.
#[derive(Debug, Clone, Copy, Default)]
pub struct LinuxWeightDevice {
    pub major: i64,
    pub minor: i64,
    pub weight: Option<u16>,
    pub leaf_weight: Option<u16>,
}

/// A block device rate limit.
#[derive(Debug, Clone, Copy, Default)]
pub struct LinuxThrottleDevice {
    pub major: i64,
    pub minor: i64,
    pub rate: u64,
}

/// Block IO resources.
#[derive(Debug, Clone, Default)]
pub struct LinuxBlockIo {
    pub weight: Option<u16>,
    pub leaf_weight: Option<u16>,
    pub weight_device: Option<Vec<LinuxWeightDevice>>,
    pub throttle_read_bps_device: Option<Vec<LinuxThrottleDevice>>,
    pub throttle_write_bps_device: Option<Vec<LinuxThrottleDevice>>,
    pub throttle_read_iops_device: Option<Vec<LinuxThrottleDevice>>,
    pub throttle_write_iops_device: Option<Vec<LinuxThrottleDevice>>,
}

/// A hugepage limit for one page size, such as `2MB`.
#[derive(Debug, Clone, Default)]
pub struct LinuxHugepageLimit {
    pub page_size: String,
    pub limit: i64,
}

/// The priority of the traffic on one network interface.
#[derive(Debug, Clone, Default)]
pub struct LinuxInterfacePriority {
    pub name: String,
    pub priority: u32,
}

/// Network resources.
#[derive(Debug, Clone, Default)]
pub struct LinuxNetwork {
    pub class_id: Option<u32>,
    pub priorities: Option<Vec<LinuxInterfacePriority>>,
}

/// A device rule: which devices may (or may not) be accessed, and how.
#[derive(Debug, Clone, Default)]
pub struct LinuxDeviceCgroup {
    pub allow: bool,
    /// The device type letter: `a` (all), `b` (block), `c` (char) or `p`
    /// (fifo); `a` where none is given.
    pub typ: Option<char>,
    pub major: Option<i64>,
    pub minor: Option<i64>,
    /// Any of `r` (read), `w` (write), `m` (mknod); other letters are
    /// ignored.
    pub access: Option<String>,
}

/// The resources of a container.
#[derive(Debug, Clone, Default)]
pub struct LinuxResources {
    pub devices: Option<Vec<LinuxDeviceCgroup>>,
    pub memory: Option<LinuxMemory>,
    pub cpu: Option<LinuxCpu>,
    pub pids: Option<LinuxPids>,
    pub block_io: Option<LinuxBlockIo>,
    pub hugepage_limits: Option<Vec<LinuxHugepageLimit>>,
    pub network: Option<LinuxNetwork>,
}

} // verus!
