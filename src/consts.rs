//! Names of systemd's D-Bus constants and unit properties.
use vstd::prelude::*;

verus! {

/// Who enum: all
pub const WHO_ENUM_ALL: &'static str = "all";
/// Unit mode: replace
pub const UNIT_MODE_REPLACE: &'static str = "replace";
/// The D-Bus error name systemd gives for a unit it does not know.
pub const NO_SUCH_UNIT: &'static str = "org.freedesktop.systemd1.NoSuchUnit";
/// Default description for transient units.
pub const DEFAULT_DESCRIPTION: &'static str = "cgroups-rs transient unit";
/// Turns on CPU usage accounting for the unit.
pub const CPU_ACCOUNTING: &'static str = "CPUAccounting";
/// Turns on the memory controller in the unified hierarchy.
pub const MEMORY_ACCOUNTING: &'static str = "MemoryAccounting";
/// Turns on the pids controller in the unified hierarchy.
pub const TASKS_ACCOUNTING: &'static str = "TasksAccounting";
/// Turns on the io controller in the unified hierarchy.
pub const IO_ACCOUNTING: &'static str = "IOAccounting";
/// Turns on the block IO controller in the legacy hierarchy.
pub const BLOCK_IO_ACCOUNTING: &'static str = "BlockIOAccounting";
/// Description of the unit.
pub const DESCRIPTION: &'static str = "Description";
/// The processes of the unit.
pub const PIDS: &'static str = "PIDs";
/// Default dependencies of the unit.
pub const DEFAULT_DEPENDENCIES: &'static str = "DefaultDependencies";
/// A weak dependency on other units.
pub const WANTS: &'static str = "Wants";
/// The slice the unit goes to.
pub const SLICE: &'static str = "Slice";
/// Delegation of further resource control to the unit's processes.
pub const DELEGATE: &'static str = "Delegate";
/// Timeout for stopping the unit, in microseconds.
pub const TIMEOUT_STOP_USEC: &'static str = "TimeoutStopUSec";
/// CPU shares in the legacy hierarchy.
pub const CPU_SHARES: &'static str = "CPUShares";
/// CPU weight in the unified hierarchy.
pub const CPU_WEIGHT: &'static str = "CPUWeight";
/// CPU quota period, in microseconds.
pub const CPU_QUOTA_PERIOD_US: &'static str = "CPUQuotaPeriodUSec";
/// CPU quota, in microseconds per CPU second.
pub const CPU_QUOTA_PER_SEC_US: &'static str = "CPUQuotaPerSecUSec";
/// Allowed CPUs.
pub const ALLOWED_CPUS: &'static str = "AllowedCPUs";
/// Allowed memory nodes.
pub const ALLOWED_MEMORY_NODES: &'static str = "AllowedMemoryNodes";
/// Memory limit in the legacy hierarchy.
pub const MEMORY_LIMIT: &'static str = "MemoryLimit";
/// Memory limit in the unified hierarchy.
pub const MEMORY_MAX: &'static str = "MemoryMax";
/// Memory low boundary.
pub const MEMORY_LOW: &'static str = "MemoryLow";
/// Swap limit.
pub const MEMORY_SWAP_MAX: &'static str = "MemorySwapMax";
/// Tasks limit.
pub const TASKS_MAX: &'static str = "TasksMax";

/// The oldest systemd that has the CPU quota period property.
pub const CPU_SYSTEMD_VERSION: usize = 242;
/// The oldest systemd that has the cpuset properties.
pub const CPUSET_SYSTEMD_VERSION: usize = 244;

} // verus!
