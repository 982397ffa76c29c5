//! Management of Linux control groups for OCI container runtimes.
//!
//! The library holds the decision logic of a cgroup manager: topology
//! parsing, v1/v2 conversions, the ordering of controller writes, the
//! mapping of resources onto systemd unit properties and the naming
//! rules of systemd units. Performing the file writes and the D-Bus calls
//! is left to the caller, which receives typed plans from this crate.
use vstd::prelude::*;

pub mod client;
pub mod consts;
pub mod conv;
pub mod cpuset;
pub mod error;
pub mod fs_manager;
pub mod hugetlb;
pub mod net_prio;
pub mod ops;
pub mod paths;
pub mod props;
pub mod resources;
pub mod stats;
pub mod systemd_manager;
pub mod text;
pub mod topology;
pub mod unit_props;
pub mod unit_resources;
pub mod utils;

verus! {

/// The maximum value for CPU shares in cgroups v1.
pub const CPU_SHARES_V1_MAX: u64 = 262144;

/// The maximum value for CPU weight in cgroups v2.
pub const CPU_WEIGHT_V2_MAX: u64 = 10000;

/// The current state of the control group.
#[derive(Debug, Clone, Copy, PartialEq, Eq, Structural)]
pub enum FreezerState {
    /// The processes in the control group are not frozen.
    Thawed,
    /// The processes in the control group are being frozen.
    Freezing,
    /// The processes in the control group are frozen.
    Frozen,
}

/// A process (or thread) identifier.
#[derive(Debug, PartialEq, Eq, PartialOrd, Ord, Clone, Copy, Structural)]
pub struct CgroupPid {
    /// The process identifier
    pub pid: u64,
}

impl From<u64> for CgroupPid {
    fn from(u: u64) -> (r: CgroupPid)
        ensures
            r.pid == u,
    {
        CgroupPid { pid: u }
    }
}

impl vstd::std_specs::convert::FromSpecImpl<u64> for CgroupPid {
    open spec fn obeys_from_spec() -> bool {
        true
    }

    open spec fn from_spec(u: u64) -> CgroupPid {
        CgroupPid { pid: u }
    }
}

} // verus!
