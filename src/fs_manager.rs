//! The cgroupfs manager: which controller files to write, and in what
//! order, to give a cgroup its resources.
use vstd::prelude::*;

use crate::conv::{
    memory_swap_to_cgroup_v2, spec_memory_swap_to_v2, spec_shares_to_weight,
    cpu_shares_to_cgroup_v2,
};
use crate::error::{Error, FsError, FsErrorKind};
use crate::ops::{CgroupOp, MaxValue, Subsystem};
use crate::ops::{DeviceAccess, DeviceType};
use crate::resources::{
    LinuxBlockIo, LinuxCpu, LinuxDeviceCgroup, LinuxHugepageLimit, LinuxInterfacePriority,
    LinuxMemory, LinuxNetwork, LinuxPids, LinuxResources, LinuxThrottleDevice, LinuxWeightDevice,
};
use crate::paths::{ancestors_topdown, join_path, spec_join_path, topdown_paths};
use crate::text::{chars_of, has_char};
use crate::FreezerState;

verus! {

/// Where the unified (v2) hierarchy is mounted.
pub const UNIFIED_MOUNTPOINT: &'static str = "/sys/fs/cgroup";

/// What the caller read of the memory controller before planning.
#[derive(Debug, Clone, Copy, Default)]
pub struct MemoryState {
    /// The current memory limit (`memory.limit_in_bytes`).
    pub limit_in_bytes: i64,
    /// The current memory usage (`memory.usage_in_bytes` or
    /// `memory.current`).
    pub usage_in_bytes: u64,
}

/// The writes of a setter, and the error it stopped on, if any: writes
/// before the error are made, none after it.
pub type OpsOutcome = (Seq<CgroupOp>, Option<Error>);

/// The outcome of `a` followed, unless it stopped, by that of `b`.
pub open spec fn chain(a: OpsOutcome, b: OpsOutcome) -> OpsOutcome {
    if a.1 is Some {
        a
    } else {
        (a.0 + b.0, b.1)
    }
}

/// Whether `r` and the writes added to `before`, giving `after`, are the
/// outcome `o`.
pub open spec fn meets(r: Result<(), Error>, before: Seq<CgroupOp>, after: Seq<CgroupOp>, o: OpsOutcome) -> bool {
    &&& after == before + o.0
    &&& match o.1 {
        Some(e) => r == Err::<(), Error>(e),
        None => r is Ok,
    }
}

pub open spec fn cpus_op(o: Option<String>) -> Seq<CgroupOp> {
    match o {
        Some(x) => seq![CgroupOp::SetCpus(x)],
        None => Seq::empty(),
    }
}

pub open spec fn mems_op(o: Option<String>) -> Seq<CgroupOp> {
    match o {
        Some(x) => seq![CgroupOp::SetMems(x)],
        None => Seq::empty(),
    }
}

pub open spec fn quota_op(o: Option<i64>) -> Seq<CgroupOp> {
    match o {
        Some(x) => seq![CgroupOp::SetCfsQuota(x)],
        None => Seq::empty(),
    }
}

pub open spec fn period_op(o: Option<u64>) -> Seq<CgroupOp> {
    match o {
        Some(x) => seq![CgroupOp::SetCfsPeriod(x)],
        None => Seq::empty(),
    }
}

pub open spec fn rt_runtime_op(o: Option<i64>) -> Seq<CgroupOp> {
    match o {
        Some(x) => seq![CgroupOp::SetRtRuntime(x)],
        None => Seq::empty(),
    }
}

pub open spec fn rt_period_op(o: Option<u64>) -> Seq<CgroupOp> {
    match o {
        Some(x) => seq![CgroupOp::SetRtPeriod(x)],
        None => Seq::empty(),
    }
}

pub open spec fn soft_limit_op(o: Option<i64>) -> Seq<CgroupOp> {
    match o {
        Some(x) => seq![CgroupOp::SetSoftLimit(x)],
        None => Seq::empty(),
    }
}

/// One write where `b` holds, none otherwise.
pub open spec fn op_if(b: bool, op: CgroupOp) -> Seq<CgroupOp> {
    if b {
        seq![op]
    } else {
        Seq::empty()
    }
}

/// The cgroupfs manager of one cgroup.
#[derive(Debug)]
pub struct FsManager {
    /// Subsystem to path relative to its mountpoint, as `/proc/self/cgroup`
    /// gives it; on cgroup v2 one entry with the empty name.
    paths: Vec<(String, String)>,
    /// Subsystem to mountpoint, as `/proc/self/mountinfo` gives it.
    mounts: Vec<(String, String)>,
    /// The cgroup's path relative to the root of each hierarchy.
    base: String,
    /// Whether the host uses the unified (v2) hierarchy.
    v2: bool,
    /// The controllers available to the cgroup.
    controllers: Vec<Subsystem>,
    /// The hugepage sizes that the host supports, such as `2MB`.
    hugepage_sizes: Vec<String>,
}

/// The write for CPU shares, converted to a weight on v2, none where zero.
pub open spec fn shares_op(shares: Option<u64>, v2: bool) -> Seq<CgroupOp> {
    match shares {
        Some(s) => {
            let w = if v2 { spec_shares_to_weight(s as nat) as u64 } else { s };
            if w != 0 { seq![CgroupOp::SetShares(w)] } else { Seq::empty() }
        },
        None => Seq::empty(),
    }
}

fn push_shares(ops: &mut Vec<CgroupOp>, shares: Option<u64>, v2: bool)
    ensures
        final(ops)@ == old(ops)@ + shares_op(shares, v2),
{
    let ghost before = ops@;
    if let Some(s) = shares {
        let w = if v2 { cpu_shares_to_cgroup_v2(s) } else { s };
        if w != 0 {
            ops.push(CgroupOp::SetShares(w));
        }
    }
    assert(ops@ =~= before + shares_op(shares, v2));
}

/// Pushes the quota (`quota`) or the realtime runtime write.
fn push_i64_op(ops: &mut Vec<CgroupOp>, v: Option<i64>, quota: bool)
    ensures
        final(ops)@ == old(ops)@ + if quota { quota_op(v) } else { rt_runtime_op(v) },
{
    let ghost before = ops@;
    if let Some(x) = v {
        if quota {
            ops.push(CgroupOp::SetCfsQuota(x));
        } else {
            ops.push(CgroupOp::SetRtRuntime(x));
        }
    }
    assert(ops@ =~= before + if quota { quota_op(v) } else { rt_runtime_op(v) });
}

/// Pushes the period (`period`) or the realtime period write.
fn push_u64_op(ops: &mut Vec<CgroupOp>, v: Option<u64>, period: bool)
    ensures
        final(ops)@ == old(ops)@ + if period { period_op(v) } else { rt_period_op(v) },
{
    let ghost before = ops@;
    if let Some(x) = v {
        if period {
            ops.push(CgroupOp::SetCfsPeriod(x));
        } else {
            ops.push(CgroupOp::SetRtPeriod(x));
        }
    }
    assert(ops@ =~= before + if period { period_op(v) } else { rt_period_op(v) });
}

impl FsManager {
    pub closed spec fn spec_v2(&self) -> bool {
        self.v2
    }

    pub closed spec fn spec_base(&self) -> Seq<char> {
        self.base@
    }

    pub closed spec fn spec_hugepage_sizes(&self) -> Seq<Seq<char>> {
        self.hugepage_sizes@.map_values(|s: String| s@)
    }

    pub closed spec fn spec_paths(&self) -> Seq<(Seq<char>, Seq<char>)> {
        self.paths@.map_values(|p: (String, String)| (p.0@, p.1@))
    }

    /// Whether the controller `s` is available.
    pub closed spec fn has(&self, s: Subsystem) -> bool {
        self.controllers@.contains(s)
    }

    /// A manager of the cgroup `base` on a host whose topology is `paths`
    /// and `mounts`, with the controllers `controllers`, where the host
    /// supports the hugepage sizes `hugepage_sizes`. No directory is
    /// created.
    pub fn new(
        base: &str,
        paths: Vec<(String, String)>,
        mounts: Vec<(String, String)>,
        v2: bool,
        controllers: Vec<Subsystem>,
        hugepage_sizes: Vec<String>,
    ) -> (r: Self)
        ensures
            r.spec_hugepage_sizes() == hugepage_sizes@.map_values(|s: String| s@),
            r.spec_base() == base@,
            r.spec_v2() == v2,
            r.spec_paths() == paths@.map_values(|p: (String, String)| (p.0@, p.1@)),
            forall|s: Subsystem| r.has(s) <==> controllers@.contains(s),
    {
        FsManager { paths, mounts, base: String::from_str(base), v2, controllers, hugepage_sizes }
    }

    /// Whether the host uses cgroup v2.
    pub fn v2(&self) -> (r: bool)
        ensures
            r == self.spec_v2(),
    {
        self.v2
    }

    /// The cgroupfs manager never uses systemd.
    pub fn systemd(&self) -> (r: bool)
        ensures
            !r,
    {
        false
    }

    /// The cgroup's path relative to the root of each hierarchy.
    pub fn base(&self) -> (r: &str)
        ensures
            r@ == self.spec_base(),
    {
        self.base.as_str()
    }

    /// Subsystem to relative path.
    pub fn paths(&self) -> (r: &Vec<(String, String)>)
        ensures
            r@.map_values(|p: (String, String)| (p.0@, p.1@)) == self.spec_paths(),
    {
        &self.paths
    }

    /// Subsystem to mountpoint.
    pub fn mounts(&self) -> &Vec<(String, String)> {
        &self.mounts
    }

    /// The controllers available to the cgroup.
    pub fn controllers(&self) -> (r: &Vec<Subsystem>)
        ensures
            forall|s: Subsystem| r@.contains(s) <==> self.has(s),
    {
        &self.controllers
    }

    /// Whether the controller `s` is available.
    pub fn has_controller(&self, s: Subsystem) -> (r: bool)
        ensures
            r == self.has(s),
    {
        let mut i: usize = 0;
        while i < self.controllers.len()
            invariant
                i <= self.controllers@.len(),
                forall|j: int| 0 <= j < i ==> self.controllers@[j] != s,
            decreases self.controllers@.len() - i,
        {
            if self.controllers[i] == s {
                return true;
            }
            i = i + 1;
        }
        false
    }

    /// The writes for the cpuset: its CPUs, then its memory nodes.
    pub open spec fn spec_cpuset_ops(&self, cpus: Option<String>, mems: Option<String>) -> OpsOutcome {
        if !self.has(Subsystem::CpuSet) {
            (Seq::empty(), None)
        } else {
            (cpus_op(cpus) + mems_op(mems), None)
        }
    }

    fn set_cpuset(&self, cpus: Option<String>, mems: Option<String>, ops: &mut Vec<CgroupOp>) -> (r: Result<(), Error>)
        ensures
            meets(r, old(ops)@, final(ops)@, self.spec_cpuset_ops(cpus, mems)),
    {
        let ghost gc = cpus;
        let ghost gm = mems;
        if !self.has_controller(Subsystem::CpuSet) {
            assert(ops@ =~= ops@ + Seq::empty());
            return Ok(());
        }
        let ghost before = ops@;
        if let Some(cpus) = cpus {
            ops.push(CgroupOp::SetCpus(cpus));
        }
        assert(ops@ =~= before + cpus_op(gc));
        let ghost mid = ops@;
        if let Some(mems) = mems {
            ops.push(CgroupOp::SetMems(mems));
        }
        assert(ops@ =~= mid + mems_op(gm));
        assert(ops@ =~= before + self.spec_cpuset_ops(gc, gm).0);
        Ok(())
    }

    /// The writes for CPU time: the shares (converted to a weight on v2,
    /// skipped where zero), the CFS quota and period, and the realtime
    /// runtime and period, each where given.
    pub open spec fn spec_cpu_ops(&self, cpu: LinuxCpu) -> OpsOutcome {
        if !self.has(Subsystem::Cpu) {
            (Seq::empty(), None)
        } else {
            (shares_op(cpu.shares, self.spec_v2()) + quota_op(cpu.quota) + period_op(cpu.period) + rt_runtime_op(cpu.realtime_runtime)
                + rt_period_op(cpu.realtime_period), None)
        }
    }

    fn set_cpu(&self, cpu: &LinuxCpu, ops: &mut Vec<CgroupOp>) -> (r: Result<(), Error>)
        ensures
            meets(r, old(ops)@, final(ops)@, self.spec_cpu_ops(*cpu)),
    {
        if !self.has_controller(Subsystem::Cpu) {
            assert(ops@ =~= ops@ + Seq::empty());
            return Ok(());
        }
        let ghost before = ops@;
        push_shares(ops, cpu.shares, self.v2);
        let ghost a = ops@;
        push_i64_op(ops, cpu.quota, true);
        push_u64_op(ops, cpu.period, true);
        push_i64_op(ops, cpu.realtime_runtime, false);
        push_u64_op(ops, cpu.realtime_period, false);
        assert(ops@ =~= before + self.spec_cpu_ops(*cpu).0);
        Ok(())
    }

    /// The write for the process limit: the limit where positive, no limit
    /// otherwise.
    pub open spec fn spec_pids_ops(&self, pids: LinuxPids) -> OpsOutcome {
        if !self.has(Subsystem::Pids) {
            (Seq::empty(), None)
        } else if pids.limit > 0 {
            (seq![CgroupOp::SetPidMax(MaxValue::Value(pids.limit))], None)
        } else {
            (seq![CgroupOp::SetPidMax(MaxValue::Max)], None)
        }
    }

    fn set_pids(&self, pids: &LinuxPids, ops: &mut Vec<CgroupOp>) -> (r: Result<(), Error>)
        ensures
            meets(r, old(ops)@, final(ops)@, self.spec_pids_ops(*pids)),
    {
        if !self.has_controller(Subsystem::Pids) {
            assert(ops@ =~= ops@ + Seq::empty());
            return Ok(());
        }
        let ghost before = ops@;
        let value = if pids.limit > 0 { MaxValue::Value(pids.limit) } else { MaxValue::Max };
        ops.push(CgroupOp::SetPidMax(value));
        assert(ops@ =~= before + self.spec_pids_ops(*pids).0);
        Ok(())
    }

    /// Writes `limit` and `swap_limit` (memory+swap) on cgroup v1 in an
    /// order the kernel accepts, given the current limit `limit_actual`: it
    /// requires the limit to stay at most memory+swap at all times. Where
    /// memory+swap grows past the current limit, or becomes unlimited, it
    /// goes first; otherwise the limit goes first. Zeros are skipped; an
    /// unlimited limit with no swap limit makes both unlimited.
    pub fn set_mem_and_memswap_v1(&self, limit: i64, swap_limit: i64, limit_actual: i64) -> (r:
        Result<Vec<CgroupOp>, Error>)
        ensures
            self.has(Subsystem::Memory) ==> (r matches Ok(v) && v@ == spec_mem_swap_v1_ops(
                limit,
                swap_limit,
                limit_actual,
            )),
            !self.has(Subsystem::Memory) ==> (r matches Err(Error::Cgroupfs(e)) && e.kind
                is SubsystemsEmpty),
    {
        if !self.has_controller(Subsystem::Memory) {
            return Err(Error::Cgroupfs(FsError::new(FsErrorKind::SubsystemsEmpty)));
        }
        let mut ops: Vec<CgroupOp> = Vec::new();
        push_mem_swap_v1(&mut ops, limit, swap_limit, limit_actual);
        assert(ops@ =~= spec_mem_swap_v1_ops(limit, swap_limit, limit_actual));
        Ok(ops)
    }

    /// The writes for memory on cgroup v1: limit and memory+swap in a safe
    /// order, the reservation as soft limit, the OOM killer, and the
    /// swappiness, which must not exceed 100.
    pub open spec fn spec_memory_v1_ops(&self, mem: LinuxMemory, state: MemoryState) -> OpsOutcome {
        let l = match mem.limit { Some(x) => x, None => 0 };
        let sw = match mem.swap { Some(x) => x, None => 0 };
        let base = spec_mem_swap_v1_ops(l, sw, state.limit_in_bytes) + soft_limit_op(mem.reservation)
            + op_if(mem.disable_oom_killer == Some(true), CgroupOp::DisableOomKiller);
        match mem.swappiness {
            Some(s) => if s <= 100 {
                (base + seq![CgroupOp::SetSwappiness(s)], None)
            } else {
                (base, Some(Error::InvalidLinuxResource))
            },
            None => (base, None),
        }
    }

    /// The writes for memory on cgroup v2: nothing where no positive limit
    /// is given; a rejection where a positive limit or memory+swap limit is
    /// at most the current usage, or where swap cannot be derived; else the
    /// swap limit, the memory limit where given, and the reservation as low
    /// boundary.
    pub open spec fn spec_memory_v2_ops(&self, mem: LinuxMemory, state: MemoryState) -> OpsOutcome {
        let m = match mem.limit { Some(x) => x, None => 0 };
        let ms = match mem.swap { Some(x) => x, None => 0 };
        if mem.reservation is None && mem.limit is None && mem.swap is None {
            (Seq::empty(), None)
        } else if m <= 0 && ms <= 0 {
            (Seq::empty(), None)
        } else if ms > 0 && ms as u64 <= state.usage_in_bytes {
            (Seq::empty(), Some(Error::InvalidLinuxResource))
        } else if m > 0 && m as u64 <= state.usage_in_bytes {
            (Seq::empty(), Some(Error::InvalidLinuxResource))
        } else {
            match spec_memory_swap_to_v2(ms as int, m as int) {
                None => (Seq::empty(), Some(Error::InvalidLinuxResource)),
                Some(s) => (seq![CgroupOp::SetMemswapLimit(s as i64)] + op_if(
                    m != 0,
                    CgroupOp::SetMemLimit(m),
                ) + soft_limit_op(mem.reservation), None),
            }
        }
    }

    /// The writes for memory, by hierarchy; none without the controller.
    pub open spec fn spec_memory_ops(&self, mem: LinuxMemory, state: MemoryState) -> OpsOutcome {
        if !self.has(Subsystem::Memory) {
            (Seq::empty(), None)
        } else if self.spec_v2() {
            self.spec_memory_v2_ops(mem, state)
        } else {
            self.spec_memory_v1_ops(mem, state)
        }
    }

    fn set_memory_v1(&self, mem: &LinuxMemory, state: &MemoryState, ops: &mut Vec<CgroupOp>) -> (r:
        Result<(), Error>)
        ensures
            meets(r, old(ops)@, final(ops)@, self.spec_memory_v1_ops(*mem, *state)),
    {
        let ghost before = ops@;
        let l = match mem.limit { Some(x) => x, None => 0 };
        let sw = match mem.swap { Some(x) => x, None => 0 };
        push_mem_swap_v1(ops, l, sw, state.limit_in_bytes);
        let ghost a = ops@;
        if let Some(x) = mem.reservation {
            ops.push(CgroupOp::SetSoftLimit(x));
        }
        assert(ops@ =~= a + soft_limit_op(mem.reservation));
        let ghost b = ops@;
        if let Some(true) = mem.disable_oom_killer {
            ops.push(CgroupOp::DisableOomKiller);
        }
        assert(ops@ =~= b + op_if(mem.disable_oom_killer == Some(true), CgroupOp::DisableOomKiller));
        let ghost c = ops@;
        assert(c =~= before + (spec_mem_swap_v1_ops(l, sw, state.limit_in_bytes) + soft_limit_op(
            mem.reservation,
        ) + op_if(mem.disable_oom_killer == Some(true), CgroupOp::DisableOomKiller)));
        if let Some(s) = mem.swappiness {
            if s <= 100 {
                ops.push(CgroupOp::SetSwappiness(s));
            } else {
                return Err(Error::InvalidLinuxResource);
            }
        }
        assert(ops@ =~= before + self.spec_memory_v1_ops(*mem, *state).0);
        Ok(())
    }

    fn set_memory_v2(&self, mem: &LinuxMemory, state: &MemoryState, ops: &mut Vec<CgroupOp>) -> (r:
        Result<(), Error>)
        ensures
            meets(r, old(ops)@, final(ops)@, self.spec_memory_v2_ops(*mem, *state)),
    {
        let ghost before = ops@;
        if mem.reservation.is_none() && mem.limit.is_none() && mem.swap.is_none() {
            assert(ops@ =~= before + Seq::empty());
            return Ok(());
        }
        let m = match mem.limit { Some(x) => x, None => 0 };
        let ms = match mem.swap { Some(x) => x, None => 0 };
        if m <= 0 && ms <= 0 {
            assert(ops@ =~= before + Seq::empty());
            return Ok(());
        }
        if ms > 0 && ms as u64 <= state.usage_in_bytes {
            assert(ops@ =~= before + Seq::empty());
            return Err(Error::InvalidLinuxResource);
        }
        if m > 0 && m as u64 <= state.usage_in_bytes {
            assert(ops@ =~= before + Seq::empty());
            return Err(Error::InvalidLinuxResource);
        }
        let s = match memory_swap_to_cgroup_v2(ms, m) {
            Ok(s) => s,
            Err(e) => {
                assert(ops@ =~= before + Seq::empty());
                return Err(e);
            },
        };
        ops.push(CgroupOp::SetMemswapLimit(s));
        if m != 0 {
            ops.push(CgroupOp::SetMemLimit(m));
        }
        let ghost a = ops@;
        if let Some(x) = mem.reservation {
            ops.push(CgroupOp::SetSoftLimit(x));
        }
        assert(ops@ =~= a + soft_limit_op(mem.reservation));
        assert(ops@ =~= before + self.spec_memory_v2_ops(*mem, *state).0);
        Ok(())
    }

    fn set_memory(&self, mem: &LinuxMemory, state: &MemoryState, ops: &mut Vec<CgroupOp>) -> (r:
        Result<(), Error>)
        ensures
            meets(r, old(ops)@, final(ops)@, self.spec_memory_ops(*mem, *state)),
    {
        if !self.has_controller(Subsystem::Memory) {
            assert(ops@ =~= ops@ + Seq::empty());
            return Ok(());
        }
        if self.v2 {
            self.set_memory_v2(mem, state, ops)
        } else {
            self.set_memory_v1(mem, state, ops)
        }
    }
}

/// The writes that `FsManager::set` plans, and the error it stopped on.
#[derive(Debug)]
pub struct SetPlan {
    /// The writes to perform, in order.
    pub ops: Vec<CgroupOp>,
    /// What `set` returns once the writes are made.
    pub result: Result<(), Error>,
}

impl FsManager {
    /// The writes for block IO: weight and leaf weight, the weights of each
    /// device, then the read and write rate limits in bytes and in
    /// operations.
    pub open spec fn spec_blkio_ops(&self, b: LinuxBlockIo) -> OpsOutcome {
        if !self.has(Subsystem::BlkIo) {
            (Seq::empty(), None)
        } else {
            (blkio_weight_ops(b) + opt_throttle_ops(b.throttle_read_bps_device, 0) + opt_throttle_ops(
                b.throttle_write_bps_device,
                1,
            ) + opt_throttle_ops(b.throttle_read_iops_device, 2) + opt_throttle_ops(
                b.throttle_write_iops_device,
                3,
            ), None)
        }
    }

    fn set_blkio(&self, b: &LinuxBlockIo, ops: &mut Vec<CgroupOp>) -> (r: Result<(), Error>)
        ensures
            meets(r, old(ops)@, final(ops)@, self.spec_blkio_ops(*b)),
    {
        let ghost before = ops@;
        if !self.has_controller(Subsystem::BlkIo) {
            assert(ops@ =~= before + Seq::empty());
            return Ok(());
        }
        push_blkio_weights(ops, b);
        let ghost a = ops@;
        push_opt_throttles(ops, &b.throttle_read_bps_device, 0);
        push_opt_throttles(ops, &b.throttle_write_bps_device, 1);
        push_opt_throttles(ops, &b.throttle_read_iops_device, 2);
        push_opt_throttles(ops, &b.throttle_write_iops_device, 3);
        assert(ops@ =~= before + self.spec_blkio_ops(*b).0);
        Ok(())
    }

    /// Whether the host supports hugepages of size `size`.
    pub fn size_supported(&self, size: &String) -> (r: bool)
        ensures
            r == self.spec_hugepage_sizes().contains(size@),
    {
        let ghost sz = self.spec_hugepage_sizes();
        let mut i: usize = 0;
        while i < self.hugepage_sizes.len()
            invariant
                sz == self.spec_hugepage_sizes(),
                i <= sz.len(),
                forall|j: int| 0 <= j < i ==> sz[j] != size@,
            decreases sz.len() - i,
        {
            if self.hugepage_sizes[i] == *size {
                assert(sz[i as int] == size@);
                return true;
            }
            i = i + 1;
        }
        false
    }

    /// The writes for hugepage limits of supported page sizes.
    pub open spec fn spec_hugepage_ops(&self, ls: Seq<LinuxHugepageLimit>) -> OpsOutcome {
        if !self.has(Subsystem::HugeTlb) {
            (Seq::empty(), None)
        } else {
            (hugepage_ops(ls, self.spec_hugepage_sizes()), None)
        }
    }

    fn set_hugepages(&self, ls: Vec<LinuxHugepageLimit>, ops: &mut Vec<CgroupOp>) -> (r: Result<(), Error>)
        ensures
            meets(r, old(ops)@, final(ops)@, self.spec_hugepage_ops(ls@)),
    {
        let ghost before = ops@;
        let ghost all = ls@;
        if !self.has_controller(Subsystem::HugeTlb) {
            assert(ops@ =~= before + Seq::empty());
            return Ok(());
        }
        let mut rest = ls;
        let n = rest.len();
        let mut k: usize = 0;
        while rest.len() > 0
            invariant
                n == all.len(),
                k <= all.len(),
                rest@ == all.skip(k as int),
                ops@ == before + hugepage_ops(all.take(k as int), self.spec_hugepage_sizes()),
            decreases rest@.len(),
        {
            let l = rest.remove(0);
            assert(l == all[k as int]);
            assert(all.take(k + 1).drop_last() =~= all.take(k as int));
            let ghost a = ops@;
            if self.size_supported(&l.page_size) {
                ops.push(CgroupOp::SetHugepageLimit(l.page_size, l.limit as u64));
            }
            k = k + 1;
            assert(ops@ =~= before + hugepage_ops(all.take(k as int), self.spec_hugepage_sizes()));
            assert(rest@ =~= all.skip(k as int));
        }
        assert(all.take(k as int) =~= all);
        Ok(())
    }

    /// The writes for the network: the class id, then the priority of each
    /// interface, each where its controller is available.
    pub open spec fn spec_network_ops(&self, n: LinuxNetwork) -> OpsOutcome {
        ((match n.class_id {
            Some(c) => op_if(self.has(Subsystem::NetCls), CgroupOp::SetClassId(c as u64)),
            None => Seq::empty(),
        }) + (match n.priorities {
            Some(v) => if self.has(Subsystem::NetPrio) {
                prio_ops(v@)
            } else {
                Seq::empty()
            },
            None => Seq::empty(),
        }), None)
    }

    fn set_network(&self, n: LinuxNetwork, ops: &mut Vec<CgroupOp>) -> (r: Result<(), Error>)
        ensures
            meets(r, old(ops)@, final(ops)@, self.spec_network_ops(n)),
    {
        let ghost before = ops@;
        let ghost nn = n;
        if let Some(c) = n.class_id {
            if self.has_controller(Subsystem::NetCls) {
                ops.push(CgroupOp::SetClassId(c as u64));
            }
        }
        let ghost a = ops@;
        assert(a =~= before + (match nn.class_id {
            Some(c) => op_if(self.has(Subsystem::NetCls), CgroupOp::SetClassId(c as u64)),
            None => Seq::empty(),
        }));
        if let Some(v) = n.priorities {
            if self.has_controller(Subsystem::NetPrio) {
                let ghost all = v@;
                let mut rest = v;
                let n = rest.len();
                let mut k: usize = 0;
                while rest.len() > 0
                    invariant
                        n == all.len(),
                        k <= all.len(),
                        rest@ == all.skip(k as int),
                        ops@ == a + prio_ops(all.take(k as int)),
                    decreases rest@.len(),
                {
                    let p = rest.remove(0);
                    assert(p == all[k as int]);
                    assert(all.take(k + 1).drop_last() =~= all.take(k as int));
                    ops.push(CgroupOp::SetIfPrio(p.name, p.priority as u64));
                    k = k + 1;
                    assert(ops@ =~= a + prio_ops(all.take(k as int)));
                    assert(rest@ =~= all.skip(k as int));
                }
                assert(all.take(k as int) =~= all);
            }
        }
        assert(ops@ =~= before + self.spec_network_ops(nn).0);
        Ok(())
    }

    /// The writes for device rules, up to the first of an unknown type.
    pub open spec fn spec_devices_ops(&self, ds: Seq<LinuxDeviceCgroup>) -> OpsOutcome {
        if !self.has(Subsystem::Devices) {
            (Seq::empty(), None)
        } else {
            device_ops(ds)
        }
    }

    fn set_devices(&self, ds: &Vec<LinuxDeviceCgroup>, ops: &mut Vec<CgroupOp>) -> (r: Result<(), Error>)
        ensures
            meets(r, old(ops)@, final(ops)@, self.spec_devices_ops(ds@)),
    {
        let ghost before = ops@;
        if !self.has_controller(Subsystem::Devices) {
            assert(ops@ =~= before + Seq::empty());
            return Ok(());
        }
        let mut k: usize = 0;
        while k < ds.len()
            invariant
                before == old(ops)@,
                self.has(Subsystem::Devices),
                k <= ds@.len(),
                device_ops(ds@.take(k as int)).1 is None,
                ops@ == before + device_ops(ds@.take(k as int)).0,
            decreases ds@.len() - k,
        {
            let d = &ds[k];
            assert(ds@.take(k + 1).drop_last() =~= ds@.take(k as int));
            assert(ds@.take(k + 1).last() == *d);
            let c = match d.typ { Some(c) => c, None => 'a' };
            let t = match device_type_from_char(c) {
                Some(t) => t,
                None => {
                    proof {
                        assert(device_op(*d) is None);
                        let t1 = ds@.take(k + 1);
                        assert(t1.drop_last() =~= ds@.take(k as int));
                        assert(t1.last() == *d);
                        assert(device_ops(t1) == (device_ops(ds@.take(k as int)).0, Some(Error::InvalidLinuxResource)));
                        lemma_device_ops_stop(ds@, k + 1);
                        assert(device_ops(ds@).1 == Some(Error::InvalidLinuxResource));
                        assert(device_ops(ds@).0 == device_ops(ds@.take(k as int)).0);
                        assert(self.has(Subsystem::Devices));
                        assert(ops@ == before + self.spec_devices_ops(ds@).0);
                        assert(self.spec_devices_ops(ds@).1 == Some(Error::InvalidLinuxResource));
                    }
                    return Err(Error::InvalidLinuxResource);
                },
            };
            let access = device_access(&d.access);
            let ma = match d.major { Some(x) => x, None => 0 };
            let mi = match d.minor { Some(x) => x, None => 0 };
            if d.allow {
                ops.push(CgroupOp::AllowDevice(t, ma, mi, access));
            } else {
                ops.push(CgroupOp::DenyDevice(t, ma, mi, access));
            }
            k = k + 1;
        }
        assert(ds@.take(ds@.len() as int) =~= ds@);
        Ok(())
    }

    /// The writes that `set` plans for `resources`, given what was read of
    /// the memory controller.
    pub open spec fn spec_set(&self, resources: LinuxResources, state: MemoryState) -> OpsOutcome {
        chain(
            chain(spec_cpu_part(*self, resources.cpu), spec_memory_part(*self, resources.memory, state)),
            spec_rest_part(*self, resources),
        )
    }

    /// Plans the writes that give the cgroup `resources`: cpuset, CPU,
    /// memory, processes, block IO, hugepages, network and devices, in
    /// this order, each skipped where absent or where its controller is
    /// missing. `state` is what the caller read of the memory controller.
    /// Planning stops at the first invalid resource: the writes before it
    /// are still made, and `result` carries the error.
    pub fn set(&self, resources: LinuxResources, state: &MemoryState) -> (r: SetPlan)
        ensures
            r.ops@ == self.spec_set(resources, *state).0,
            match self.spec_set(resources, *state).1 {
                Some(e) => r.result == Err::<(), Error>(e),
                None => r.result is Ok,
            },
    {
        let ghost res = resources;
        let mut ops: Vec<CgroupOp> = Vec::new();
        let LinuxResources { devices, memory, cpu, pids, block_io, hugepage_limits, network } = resources;
        let r = self.plan_cpu(cpu, &mut ops);
        if r.is_err() {
            return SetPlan { ops, result: r };
        }
        let ghost a1 = ops@;
        let r = self.plan_memory(&memory, state, &mut ops);
        if r.is_err() {
            proof {
                lemma_chain(Seq::empty(), a1, ops@, spec_cpu_part(*self, res.cpu), spec_memory_part(*self, res.memory, *state));
            }
            return SetPlan { ops, result: r };
        }
        let ghost a2 = ops@;
        proof {
            lemma_chain(Seq::empty(), a1, a2, spec_cpu_part(*self, res.cpu), spec_memory_part(*self, res.memory, *state));
        }
        let r = self.plan_rest(&pids, &block_io, hugepage_limits, network, &devices, &mut ops);
        proof {
            lemma_chain(Seq::empty(), a2, ops@, chain(spec_cpu_part(*self, res.cpu), spec_memory_part(*self, res.memory, *state)), spec_rest_part(*self, res));
            assert(chain(chain(spec_cpu_part(*self, res.cpu), spec_memory_part(*self, res.memory, *state)), spec_rest_part(*self, res)) == self.spec_set(res, *state));
        }
        SetPlan { ops, result: r }
    }

    fn plan_cpu(&self, cpu: Option<LinuxCpu>, ops: &mut Vec<CgroupOp>) -> (r: Result<(), Error>)
        ensures
            meets(r, old(ops)@, final(ops)@, spec_cpu_part(*self, cpu)),
    {
        let ghost before = ops@;
        let ghost gcpu = cpu;
        if let Some(c) = cpu {
            let ghost cc = c;
            let LinuxCpu { shares, quota, period, realtime_runtime, realtime_period, cpus, mems } = c;
            let r = self.set_cpuset(cpus, mems, ops);
            if r.is_err() {
                return r;
            }
            let ghost a = ops@;
            let rest = LinuxCpu { shares, quota, period, realtime_runtime, realtime_period, cpus: None, mems: None };
            assert(self.spec_cpu_ops(rest) == self.spec_cpu_ops(cc));
            let r = self.set_cpu(&rest, ops);
            proof {
                lemma_chain(before, a, ops@, self.spec_cpuset_ops(cc.cpus, cc.mems), self.spec_cpu_ops(cc));
            }
            return r;
        }
        assert(ops@ =~= before + Seq::empty());
        Ok(())
    }

    fn plan_memory(&self, memory: &Option<LinuxMemory>, state: &MemoryState, ops: &mut Vec<CgroupOp>) -> (r: Result<(), Error>)
        ensures
            meets(r, old(ops)@, final(ops)@, spec_memory_part(*self, *memory, *state)),
    {
        if let Some(m) = memory {
            return self.set_memory(m, state, ops);
        }
        assert(ops@ =~= ops@ + Seq::empty());
        Ok(())
    }

    fn plan_rest(
        &self,
        pids: &Option<LinuxPids>,
        block_io: &Option<LinuxBlockIo>,
        hugepage_limits: Option<Vec<LinuxHugepageLimit>>,
        network: Option<LinuxNetwork>,
        devices: &Option<Vec<LinuxDeviceCgroup>>,
        ops: &mut Vec<CgroupOp>,
    ) -> (r: Result<(), Error>)
        ensures
            meets(r, old(ops)@, final(ops)@, spec_rest_of(*self, *pids, *block_io, hugepage_limits, network, *devices)),
    {
        let ghost a0 = ops@;
        let ghost h = hugepage_limits;
        let ghost n = network;
        let ghost o_p = pids_part(*self, *pids);
        let ghost o_b = blkio_part(*self, *block_io);
        let ghost o_h = huge_part(*self, h);
        let ghost o_n = net_part(*self, n);
        let ghost o_d = dev_part(*self, *devices);
        if let Some(p) = pids {
            let _ = self.set_pids(p, ops);
        } else {
            assert(ops@ =~= a0 + Seq::empty());
        }
        let ghost a1 = ops@;
        if let Some(b) = block_io {
            let _ = self.set_blkio(b, ops);
        } else {
            assert(ops@ =~= a1 + Seq::empty());
        }
        let ghost a2 = ops@;
        if let Some(x) = hugepage_limits {
            let _ = self.set_hugepages(x, ops);
        } else {
            assert(ops@ =~= a2 + Seq::empty());
        }
        let ghost a3 = ops@;
        if let Some(x) = network {
            let _ = self.set_network(x, ops);
        } else {
            assert(ops@ =~= a3 + Seq::empty());
        }
        let ghost a4 = ops@;
        let r = if let Some(d) = devices {
            self.set_devices(d, ops)
        } else {
            assert(ops@ =~= a4 + Seq::empty());
            Ok(())
        };
        proof {
            lemma_chain(a3, a4, ops@, o_n, o_d);
            lemma_chain(a2, a3, ops@, o_h, chain(o_n, o_d));
            lemma_chain(a1, a2, ops@, o_b, chain(o_h, chain(o_n, o_d)));
            lemma_chain(a0, a1, ops@, o_p, chain(o_b, chain(o_h, chain(o_n, o_d))));
        }
        r
    }
}

/// The value of the first entry with key `key`.
pub open spec fn lookup(ps: Seq<(Seq<char>, Seq<char>)>, key: Seq<char>) -> Option<Seq<char>>
    decreases ps.len(),
{
    if ps.len() == 0 {
        None
    } else {
        match lookup(ps.drop_last(), key) {
            Some(v) => Some(v),
            None => if ps.last().0 == key {
                Some(ps.last().1)
            } else {
                None
            },
        }
    }
}

/// Whether `r` is the error of the filesystem layer of kind `kind`.
pub open spec fn is_fs_error<T>(r: Result<T, Error>, kind: FsErrorKind) -> bool {
    r matches Err(Error::Cgroupfs(e)) && e.kind == kind
}

impl FsManager {
    /// The path of the cgroup: on cgroup v2 the unified mountpoint joined
    /// with the base; on cgroup v1 the path recorded for `subsystem`, which
    /// must be given and known.
    pub fn cgroup_path(&self, subsystem: Option<&str>) -> (r: Result<String, Error>)
        ensures
            self.spec_v2() ==> (r matches Ok(p) && p@ == spec_join_path(UNIFIED_MOUNTPOINT@, self.spec_base())),
            !self.spec_v2() ==> match subsystem {
                None => is_fs_error(r, FsErrorKind::InvalidPath),
                Some(s) => match lookup(self.spec_paths(), s@) {
                    Some(p) => r matches Ok(x) && x@ == p,
                    None => is_fs_error(r, FsErrorKind::SubsystemsEmpty),
                },
            },
    {
        if self.v2 {
            return Ok(join_path(UNIFIED_MOUNTPOINT, self.base.as_str()));
        }
        let s = match subsystem {
            Some(s) => s,
            None => {
                return Err(Error::Cgroupfs(FsError::new(FsErrorKind::InvalidPath)));
            },
        };
        let key = String::from_str(s);
        let ghost ps = self.spec_paths();
        let mut i: usize = 0;
        while i < self.paths.len()
            invariant
                ps == self.spec_paths(),
                !self.spec_v2(),
                subsystem == Some(s),
                key@ == s@,
                i <= ps.len(),
                lookup(ps.take(i as int), s@) is None,
            decreases ps.len() - i,
        {
            assert(ps.take(i + 1).drop_last() =~= ps.take(i as int));
            assert(ps[i as int] == (self.paths@[i as int].0@, self.paths@[i as int].1@));
            if self.paths[i].0 == key {
                proof {
                    assert(ps.take(i + 1).last() == ps[i as int]);
                    assert(lookup(ps.take(i + 1), s@) == Some(ps[i as int].1));
                    lemma_lookup_prefix(ps, i + 1, s@);
                }
                return Ok(self.paths[i].1.clone());
            }
            i = i + 1;
        }
        assert(ps.take(ps.len() as int) =~= ps);
        Err(Error::Cgroupfs(FsError::new(FsErrorKind::SubsystemsEmpty)))
    }

    /// The ancestors of the cgroup, from just below the root down to its
    /// parent, whose `cpuset.cpus` take `cpus` in this order before the
    /// cgroup's own can: the kernel accepts in a child only CPUs that its
    /// parent has. Nothing is written for an empty `cpus`; the cpuset
    /// controller must be available.
    pub fn enable_cpus_topdown(&self, cpus: &str) -> (r: Result<Vec<String>, Error>)
        ensures
            cpus@.len() == 0 ==> (r matches Ok(v) && v@.len() == 0),
            cpus@.len() > 0 && !self.has(Subsystem::CpuSet) ==> is_fs_error(r, FsErrorKind::SubsystemsEmpty),
            cpus@.len() > 0 && self.has(Subsystem::CpuSet) ==> (r matches Ok(v) && v@.map_values(
                |s: String| s@,
            ) == topdown_paths(self.spec_base())),
    {
        if cpus.unicode_len() == 0 {
            return Ok(Vec::new());
        }
        if !self.has_controller(Subsystem::CpuSet) {
            return Err(Error::Cgroupfs(FsError::new(FsErrorKind::SubsystemsEmpty)));
        }
        Ok(ancestors_topdown(self.base.as_str()))
    }

    /// The write that puts the cgroup in `state`; `Freezing` is a transient
    /// state and no valid request.
    pub fn freeze(&self, state: FreezerState) -> (r: Result<CgroupOp, Error>)
        ensures
            !self.has(Subsystem::Freezer) ==> is_fs_error(r, FsErrorKind::SubsystemsEmpty),
            self.has(Subsystem::Freezer) ==> match state {
                FreezerState::Thawed => r matches Ok(CgroupOp::Thaw),
                FreezerState::Frozen => r matches Ok(CgroupOp::Freeze),
                FreezerState::Freezing => r matches Err(Error::InvalidArgument),
            },
    {
        if !self.has_controller(Subsystem::Freezer) {
            return Err(Error::Cgroupfs(FsError::new(FsErrorKind::SubsystemsEmpty)));
        }
        match state {
            FreezerState::Thawed => Ok(CgroupOp::Thaw),
            FreezerState::Frozen => Ok(CgroupOp::Freeze),
            FreezerState::Freezing => Err(Error::InvalidArgument),
        }
    }

    /// The sub-cgroup that processes join through systemd: `/init/` under
    /// Docker-in-Docker (cgroup v2 with an `init` directory below the
    /// cgroup, as `init_exists` tells), `/` otherwise.
    pub fn subcgroup(&self, init_exists: bool) -> (r: &'static str)
        ensures
            r@ == if self.spec_v2() && init_exists { "/init/"@ } else { "/"@ },
    {
        if self.v2 && init_exists {
            "/init/"
        } else {
            "/"
        }
    }

    /// Whether adding a thread that failed with `kind` is retried as adding
    /// its process: on cgroup v2 where threaded cgroups are not enabled.
    pub fn add_thread_falls_back(&self, kind: &FsErrorKind) -> (r: bool)
        ensures
            r == (self.spec_v2() && *kind is CgroupMode),
    {
        match kind {
            FsErrorKind::CgroupMode => self.v2,
            _ => false,
        }
    }
}

proof fn lemma_lookup_prefix(ps: Seq<(Seq<char>, Seq<char>)>, n: int, key: Seq<char>)
    requires
        0 <= n <= ps.len(),
        lookup(ps.take(n), key) is Some,
    ensures
        lookup(ps, key) == lookup(ps.take(n), key),
    decreases ps.len() - n,
{
    if n < ps.len() {
        assert(ps.take(n + 1).drop_last() =~= ps.take(n));
        lemma_lookup_prefix(ps, n + 1, key);
    } else {
        assert(ps.take(n) =~= ps);
    }
}

/// The outcome of the CPU resources: cpuset, then CPU time.
pub open spec fn spec_cpu_part(m: FsManager, cpu: Option<LinuxCpu>) -> OpsOutcome {
    match cpu {
        Some(c) => chain(m.spec_cpuset_ops(c.cpus, c.mems), m.spec_cpu_ops(c)),
        None => (Seq::empty(), None),
    }
}

/// The outcome of the memory resources.
pub open spec fn spec_memory_part(m: FsManager, memory: Option<LinuxMemory>, state: MemoryState) -> OpsOutcome {
    match memory {
        Some(x) => m.spec_memory_ops(x, state),
        None => (Seq::empty(), None),
    }
}

/// The outcome of the resources after memory.
pub open spec fn spec_rest_of(
    m: FsManager,
    pids: Option<LinuxPids>,
    block_io: Option<LinuxBlockIo>,
    hugepage_limits: Option<Vec<LinuxHugepageLimit>>,
    network: Option<LinuxNetwork>,
    devices: Option<Vec<LinuxDeviceCgroup>>,
) -> OpsOutcome {
    chain(
        pids_part(m, pids),
        chain(blkio_part(m, block_io), chain(huge_part(m, hugepage_limits), chain(net_part(m, network), dev_part(m, devices)))),
    )
}

pub open spec fn pids_part(m: FsManager, pids: Option<LinuxPids>) -> OpsOutcome {
    match pids { Some(p) => m.spec_pids_ops(p), None => (Seq::empty(), None) }
}

pub open spec fn blkio_part(m: FsManager, block_io: Option<LinuxBlockIo>) -> OpsOutcome {
    match block_io { Some(b) => m.spec_blkio_ops(b), None => (Seq::empty(), None) }
}

pub open spec fn huge_part(m: FsManager, hugepage_limits: Option<Vec<LinuxHugepageLimit>>) -> OpsOutcome {
    match hugepage_limits { Some(x) => m.spec_hugepage_ops(x@), None => (Seq::empty(), None) }
}

pub open spec fn net_part(m: FsManager, network: Option<LinuxNetwork>) -> OpsOutcome {
    match network { Some(x) => m.spec_network_ops(x), None => (Seq::empty(), None) }
}

pub open spec fn dev_part(m: FsManager, devices: Option<Vec<LinuxDeviceCgroup>>) -> OpsOutcome {
    match devices { Some(x) => m.spec_devices_ops(x@), None => (Seq::empty(), None) }
}

pub open spec fn spec_rest_part(m: FsManager, res: LinuxResources) -> OpsOutcome {
    spec_rest_of(m, res.pids, res.block_io, res.hugepage_limits, res.network, res.devices)
}

/// A setter whose outcome `o1` goes from `a` to `b` without stopping,
/// followed by one whose outcome `o2` goes from `b` to `c`, together have
/// the outcome `chain(o1, o2)`.
proof fn lemma_chain(a: Seq<CgroupOp>, b: Seq<CgroupOp>, c: Seq<CgroupOp>, o1: OpsOutcome, o2: OpsOutcome)
    ensures
        (b == a + o1.0 && o1.1 is None && c == b + o2.0) ==> (c == a + chain(o1, o2).0 && chain(
            o1,
            o2,
        ).1 == o2.1),
        (b == a + o1.0 && o1.1 is Some) ==> chain(o1, o2) == o1,
{
    if b == a + o1.0 && o1.1 is None && c == b + o2.0 {
        assert(c =~= a + (o1.0 + o2.0));
    }
}

/// The v1 writes of a memory limit and a memory+swap limit, given the
/// current memory limit.
pub open spec fn spec_mem_swap_v1_ops(limit: i64, swap_limit: i64, limit_actual: i64) -> Seq<CgroupOp> {
    let sw: i64 = if limit == -1 && swap_limit == 0 { -1i64 } else { swap_limit };
    if limit != 0 && sw != 0 && (sw == -1 || limit_actual < sw) {
        seq![CgroupOp::SetMemswapLimit(sw), CgroupOp::SetMemLimit(limit)]
    } else {
        op_if(limit != 0, CgroupOp::SetMemLimit(limit)) + op_if(sw != 0, CgroupOp::SetMemswapLimit(sw))
    }
}

fn push_mem_swap_v1(ops: &mut Vec<CgroupOp>, limit: i64, swap_limit: i64, limit_actual: i64)
    ensures
        final(ops)@ == old(ops)@ + spec_mem_swap_v1_ops(limit, swap_limit, limit_actual),
{
    let ghost before = ops@;
    let mut sw = swap_limit;
    if limit == -1 && sw == 0 {
        sw = -1;
    }
    if limit != 0 && sw != 0 {
        if sw == -1 || limit_actual < sw {
            ops.push(CgroupOp::SetMemswapLimit(sw));
            ops.push(CgroupOp::SetMemLimit(limit));
            assert(ops@ =~= before + spec_mem_swap_v1_ops(limit, swap_limit, limit_actual));
            return;
        }
    }
    if limit != 0 {
        ops.push(CgroupOp::SetMemLimit(limit));
    }
    let ghost a = ops@;
    if sw != 0 {
        ops.push(CgroupOp::SetMemswapLimit(sw));
    }
    assert(ops@ =~= a + op_if(sw != 0, CgroupOp::SetMemswapLimit(sw)));
    assert(ops@ =~= before + spec_mem_swap_v1_ops(limit, swap_limit, limit_actual));
}

/// The writes for the weights of one block device.
pub open spec fn weight_device_op(d: LinuxWeightDevice) -> Seq<CgroupOp> {
    (match d.weight {
        Some(w) => seq![CgroupOp::SetDeviceWeight(d.major as u64, d.minor as u64, w as u64)],
        None => Seq::empty(),
    }) + (match d.leaf_weight {
        Some(w) => seq![CgroupOp::SetDeviceLeafWeight(d.major as u64, d.minor as u64, w as u64)],
        None => Seq::empty(),
    })
}

/// The writes for the weights of block devices, in order.
pub open spec fn weight_device_ops(ds: Seq<LinuxWeightDevice>) -> Seq<CgroupOp>
    decreases ds.len(),
{
    if ds.len() == 0 {
        Seq::empty()
    } else {
        weight_device_ops(ds.drop_last()) + weight_device_op(ds.last())
    }
}

/// The throttle write of kind `kind` (0: read bytes, 1: write bytes,
/// 2: read operations, 3: write operations) for one device.
pub open spec fn throttle_op(d: LinuxThrottleDevice, kind: u8) -> CgroupOp {
    let (ma, mi) = (d.major as u64, d.minor as u64);
    if kind == 0 {
        CgroupOp::ThrottleReadBps(ma, mi, d.rate)
    } else if kind == 1 {
        CgroupOp::ThrottleWriteBps(ma, mi, d.rate)
    } else if kind == 2 {
        CgroupOp::ThrottleReadIops(ma, mi, d.rate)
    } else {
        CgroupOp::ThrottleWriteIops(ma, mi, d.rate)
    }
}

/// The throttle writes of one kind for devices, in order.
pub open spec fn throttle_ops(ds: Seq<LinuxThrottleDevice>, kind: u8) -> Seq<CgroupOp>
    decreases ds.len(),
{
    if ds.len() == 0 {
        Seq::empty()
    } else {
        throttle_ops(ds.drop_last(), kind).push(throttle_op(ds.last(), kind))
    }
}

pub open spec fn opt_throttle_ops(ds: Option<Vec<LinuxThrottleDevice>>, kind: u8) -> Seq<CgroupOp> {
    match ds {
        Some(v) => throttle_ops(v@, kind),
        None => Seq::empty(),
    }
}

fn push_weight_devices(ops: &mut Vec<CgroupOp>, ds: &Vec<LinuxWeightDevice>)
    ensures
        final(ops)@ == old(ops)@ + weight_device_ops(ds@),
{
    let ghost before = ops@;
    let mut k: usize = 0;
    while k < ds.len()
        invariant
            k <= ds@.len(),
            ops@ == before + weight_device_ops(ds@.take(k as int)),
        decreases ds@.len() - k,
    {
        let d = ds[k];
        let ghost a = ops@;
        if let Some(w) = d.weight {
            ops.push(CgroupOp::SetDeviceWeight(d.major as u64, d.minor as u64, w as u64));
        }
        if let Some(w) = d.leaf_weight {
            ops.push(CgroupOp::SetDeviceLeafWeight(d.major as u64, d.minor as u64, w as u64));
        }
        assert(ops@ =~= a + weight_device_op(d));
        assert(ds@.take(k + 1).drop_last() =~= ds@.take(k as int));
        k = k + 1;
        assert(ops@ =~= before + weight_device_ops(ds@.take(k as int)));
    }
    assert(ds@.take(ds@.len() as int) =~= ds@);
}

/// The block IO weight writes: weight, leaf weight, device weights.
pub open spec fn blkio_weight_ops(b: LinuxBlockIo) -> Seq<CgroupOp> {
    (match b.weight {
        Some(w) => seq![CgroupOp::SetBlkioWeight(w as u64)],
        None => Seq::empty(),
    }) + (match b.leaf_weight {
        Some(w) => seq![CgroupOp::SetBlkioLeafWeight(w as u64)],
        None => Seq::empty(),
    }) + (match b.weight_device {
        Some(v) => weight_device_ops(v@),
        None => Seq::empty(),
    })
}

fn push_blkio_weights(ops: &mut Vec<CgroupOp>, b: &LinuxBlockIo)
    ensures
        final(ops)@ == old(ops)@ + blkio_weight_ops(*b),
{
    let ghost before = ops@;
    if let Some(w) = b.weight {
        ops.push(CgroupOp::SetBlkioWeight(w as u64));
    }
    if let Some(w) = b.leaf_weight {
        ops.push(CgroupOp::SetBlkioLeafWeight(w as u64));
    }
    let ghost a = ops@;
    if let Some(v) = &b.weight_device {
        push_weight_devices(ops, v);
    }
    assert(ops@ =~= a + (match b.weight_device {
        Some(v) => weight_device_ops(v@),
        None => Seq::empty(),
    }));
    assert(ops@ =~= before + blkio_weight_ops(*b));
}

fn push_opt_throttles(ops: &mut Vec<CgroupOp>, ds: &Option<Vec<LinuxThrottleDevice>>, kind: u8)
    ensures
        final(ops)@ == old(ops)@ + opt_throttle_ops(*ds, kind),
{
    let ghost before = ops@;
    if let Some(v) = ds {
        push_throttles(ops, v, kind);
    }
    assert(ops@ =~= before + opt_throttle_ops(*ds, kind));
}

fn push_throttles(ops: &mut Vec<CgroupOp>, ds: &Vec<LinuxThrottleDevice>, kind: u8)
    ensures
        final(ops)@ == old(ops)@ + throttle_ops(ds@, kind),
{
    let ghost before = ops@;
    let mut k: usize = 0;
    while k < ds.len()
        invariant
            k <= ds@.len(),
            ops@ == before + throttle_ops(ds@.take(k as int), kind),
        decreases ds@.len() - k,
    {
        let d = ds[k];
        let (ma, mi) = (d.major as u64, d.minor as u64);
        let op = if kind == 0 {
            CgroupOp::ThrottleReadBps(ma, mi, d.rate)
        } else if kind == 1 {
            CgroupOp::ThrottleWriteBps(ma, mi, d.rate)
        } else if kind == 2 {
            CgroupOp::ThrottleReadIops(ma, mi, d.rate)
        } else {
            CgroupOp::ThrottleWriteIops(ma, mi, d.rate)
        };
        ops.push(op);
        assert(ds@.take(k + 1).drop_last() =~= ds@.take(k as int));
        k = k + 1;
        assert(ops@ =~= before + throttle_ops(ds@.take(k as int), kind));
    }
    assert(ds@.take(ds@.len() as int) =~= ds@);
}

/// The hugepage writes for the limits whose page size is one of `sizes`,
/// in order; other page sizes are skipped.
pub open spec fn hugepage_ops(ls: Seq<LinuxHugepageLimit>, sizes: Seq<Seq<char>>) -> Seq<CgroupOp>
    decreases ls.len(),
{
    if ls.len() == 0 {
        Seq::empty()
    } else {
        let l = ls.last();
        hugepage_ops(ls.drop_last(), sizes) + op_if(
            sizes.contains(l.page_size@),
            CgroupOp::SetHugepageLimit(l.page_size, l.limit as u64),
        )
    }
}

/// The priority writes for network interfaces, in order.
pub open spec fn prio_ops(ps: Seq<LinuxInterfacePriority>) -> Seq<CgroupOp>
    decreases ps.len(),
{
    if ps.len() == 0 {
        Seq::empty()
    } else {
        prio_ops(ps.drop_last()).push(CgroupOp::SetIfPrio(ps.last().name, ps.last().priority as u64))
    }
}

/// The device type a type letter names.
pub open spec fn spec_device_type(c: char) -> Option<DeviceType> {
    if c == 'a' {
        Some(DeviceType::All)
    } else if c == 'b' {
        Some(DeviceType::Block)
    } else if c == 'c' {
        Some(DeviceType::Char)
    } else if c == 'p' {
        Some(DeviceType::Fifo)
    } else {
        None
    }
}

/// Reads a device type letter.
pub fn device_type_from_char(c: char) -> (r: Option<DeviceType>)
    ensures
        r == spec_device_type(c),
{
    if c == 'a' {
        Some(DeviceType::All)
    } else if c == 'b' {
        Some(DeviceType::Block)
    } else if c == 'c' {
        Some(DeviceType::Char)
    } else if c == 'p' {
        Some(DeviceType::Fifo)
    } else {
        None
    }
}

/// The accesses an access string names: `r`, `w` and `m` anywhere in it.
pub open spec fn spec_access(a: Option<String>) -> DeviceAccess {
    match a {
        Some(s) => DeviceAccess { read: has_char(s@, 'r'), write: has_char(s@, 'w'), mknod: has_char(s@, 'm') },
        None => DeviceAccess { read: false, write: false, mknod: false },
    }
}

fn device_access(a: &Option<String>) -> (r: DeviceAccess)
    ensures
        r == spec_access(*a),
{
    let mut r = DeviceAccess { read: false, write: false, mknod: false };
    if let Some(s) = a {
        let c = chars_of(s.as_str());
        let mut i: usize = 0;
        while i < c.len()
            invariant
                c@ == s@,
                i <= c@.len(),
                r.read == has_char(c@.take(i as int), 'r'),
                r.write == has_char(c@.take(i as int), 'w'),
                r.mknod == has_char(c@.take(i as int), 'm'),
            decreases c@.len() - i,
        {
            let ghost t = c@.take(i as int);
            let ghost t1 = c@.take(i + 1);
            assert(forall|j: int| 0 <= j < t.len() ==> t1[j] == t[j]);
            assert(t1[i as int] == c@[i as int]);
            if c[i] == 'r' {
                r.read = true;
            }
            if c[i] == 'w' {
                r.write = true;
            }
            if c[i] == 'm' {
                r.mknod = true;
            }
            i = i + 1;
        }
        assert(c@.take(c@.len() as int) =~= c@);
    }
    r
}

/// The write for one device rule; `None` where its type is unknown.
pub open spec fn device_op(d: LinuxDeviceCgroup) -> Option<CgroupOp> {
    let c = match d.typ { Some(c) => c, None => 'a' };
    match spec_device_type(c) {
        Some(t) => {
            let ma = match d.major { Some(x) => x, None => 0 };
            let mi = match d.minor { Some(x) => x, None => 0 };
            if d.allow {
                Some(CgroupOp::AllowDevice(t, ma, mi, spec_access(d.access)))
            } else {
                Some(CgroupOp::DenyDevice(t, ma, mi, spec_access(d.access)))
            }
        },
        None => None,
    }
}

/// The writes for device rules in order, up to the first of an unknown
/// type, which is rejected.
pub open spec fn device_ops(ds: Seq<LinuxDeviceCgroup>) -> OpsOutcome
    decreases ds.len(),
{
    if ds.len() == 0 {
        (Seq::empty(), None)
    } else {
        let prev = device_ops(ds.drop_last());
        if prev.1 is Some {
            prev
        } else {
            match device_op(ds.last()) {
                Some(op) => (prev.0.push(op), None),
                None => (prev.0, Some(Error::InvalidLinuxResource)),
            }
        }
    }
}

proof fn lemma_device_ops_stop(ds: Seq<LinuxDeviceCgroup>, k: int)
    requires
        0 <= k <= ds.len(),
        device_ops(ds.take(k)).1 is Some,
    ensures
        device_ops(ds) == device_ops(ds.take(k)),
    decreases ds.len() - k,
{
    if k < ds.len() {
        assert(ds.take(k + 1).drop_last() =~= ds.take(k));
        lemma_device_ops_stop(ds, k + 1);
    } else {
        assert(ds.take(k) =~= ds);
    }
}

} // verus!