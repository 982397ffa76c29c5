//! The systemd unit properties that container resources map to.
use vstd::prelude::*;

use crate::consts::{
    CPU_QUOTA_PERIOD_US, CPU_QUOTA_PER_SEC_US, CPU_SHARES, CPU_SYSTEMD_VERSION, CPU_WEIGHT,
    MEMORY_LIMIT, MEMORY_LOW, MEMORY_MAX, MEMORY_SWAP_MAX, TASKS_MAX, ALLOWED_CPUS,
    ALLOWED_MEMORY_NODES,
};
use crate::conv::{
    cpu_shares_to_cgroup_v2, memory_swap_to_cgroup_v2, spec_memory_swap_to_v2,
    spec_shares_to_weight,
};
use crate::error::{Error, SystemdError};
use crate::props::{props_view, Property, ValueView};
use crate::resources::{LinuxCpu, LinuxMemory, LinuxPids};
use crate::unit_props::{cpus, is_mask_prop, limit, low, max, mems, period, quota, shares, swap};

verus! {

/// The kernel's default CFS period, 100 ms, the same for cgroup v1 and v2.
pub const DEFAULT_CPU_QUOTA_PERIOD: u64 = 100_000;

/// Microseconds in a second.
pub const USEC_PER_SEC: u64 = 1_000_000;

/// The step that systemd rounds a CPU quota to: 10 ms, one percent of a CPU
/// second.
pub const QUOTA_STEP_USEC: u64 = 10_000;

/// The `CPUQuotaPerSecUSec` value for a CFS quota and period (0 for the
/// default period): the CPU time per second, rounded up to a multiple of
/// 10 ms, as large as `u64` allows; without a positive quota, no limit
/// (`u64::MAX`).
pub open spec fn spec_quota_per_sec(quota: int, period: int) -> int {
    if quota <= 0 {
        u64::MAX as int
    } else {
        let p = if period == 0 { DEFAULT_CPU_QUOTA_PERIOD as int } else { period };
        let q = quota * USEC_PER_SEC / p;
        let up = if q % 10_000 == 0 { q } else { (q / 10_000 + 1) * 10_000 };
        if up > u64::MAX { u64::MAX as int } else { up }
    }
}

/// Computes the `CPUQuotaPerSecUSec` value for a CFS quota and period.
pub fn quota_per_sec(quota: i64, period: u64) -> (r: u64)
    ensures
        r as int == spec_quota_per_sec(quota as int, period as int),
{
    if quota <= 0 {
        return u64::MAX;
    }
    let p: u128 = if period == 0 { DEFAULT_CPU_QUOTA_PERIOD as u128 } else { period as u128 };
    assert((quota as u128) * 1_000_000 <= 0x7fff_ffff_ffff_ffff * 1_000_000) by (nonlinear_arith)
        requires
            quota as u128 <= 0x7fff_ffff_ffff_ffff,
    ;
    let q: u128 = (quota as u128) * (USEC_PER_SEC as u128) / p;
    assert(q as int <= (quota as int) * 1_000_000) by (nonlinear_arith)
        requires
            p >= 1,
            q as int == ((quota as int) * 1_000_000) / (p as int),
            quota >= 1,
    ;
    let up: u128 = if q % 10_000 == 0 { q } else { (q / 10_000 + 1) * 10_000 };
    if up > u64::MAX as u128 {
        u64::MAX
    } else {
        up as u64
    }
}

/// The content of a property list.
pub type PropsView = Seq<(Seq<char>, ValueView)>;

/// The properties for the CPU resources other than the cpuset: shares
/// (converted to a weight on cgroup v2), the quota period where one is
/// given, and the quota where a period or a quota is given.
pub open spec fn spec_cpu_props(cpu: LinuxCpu, v2: bool, systemd_version: usize) -> Result<PropsView, Error> {
    let sh: PropsView = match cpu.shares {
        Some(s) => seq![
            (
                if v2 { CPU_WEIGHT@ } else { CPU_SHARES@ },
                ValueView::U64(if v2 { spec_shares_to_weight(s as nat) as u64 } else { s }),
            ),
        ],
        None => Seq::empty(),
    };
    let p = match cpu.period { Some(p) => p, None => 0 };
    let q = match cpu.quota { Some(q) => q, None => 0 };
    if p != 0 && systemd_version < CPU_SYSTEMD_VERSION {
        Err(Error::SystemdCgroup(SystemdError::ObsoleteSystemd))
    } else {
        let pp: PropsView = if p != 0 {
            seq![(CPU_QUOTA_PERIOD_US@, ValueView::U64(p))]
        } else {
            Seq::empty()
        };
        let qq: PropsView = if p != 0 || q != 0 {
            seq![(CPU_QUOTA_PER_SEC_US@, ValueView::U64(spec_quota_per_sec(q as int, p as int) as u64))]
        } else {
            Seq::empty()
        };
        Ok(sh + pp + qq)
    }
}

fn push_ok(props: &mut Vec<Property>, p: Result<Property, SystemdError>) -> (r: Result<(), Error>)
    ensures
        match p {
            Ok(x) => r is Ok && props_view(final(props)@) == props_view(old(props)@).push((x.0@, x.1@)),
            Err(e) => r == Err::<(), Error>(Error::SystemdCgroup(e)) && final(props)@ == old(props)@,
        },
{
    match p {
        Ok(x) => {
            let ghost before = props_view(props@);
            let ghost xv = (x.0@, x.1@);
            props.push(x);
            assert(props_view(props@) =~= before.push(xv));
            Ok(())
        },
        Err(e) => Err(Error::SystemdCgroup(e)),
    }
}

/// The unit properties for the CPU resources other than the cpuset.
pub fn cpu_properties(cpu: &LinuxCpu, v2: bool, systemd_version: usize) -> (r: Result<Vec<Property>, Error>)
    ensures
        match spec_cpu_props(*cpu, v2, systemd_version) {
            Ok(ps) => r matches Ok(v) && props_view(v@) == ps,
            Err(e) => r == Err::<Vec<Property>, Error>(e),
        },
{
    let mut props: Vec<Property> = Vec::new();
    assert(props_view(props@) =~= Seq::empty());
    if let Some(s) = cpu.shares {
        let s = if v2 { cpu_shares_to_cgroup_v2(s) } else { s };
        push_ok(&mut props, shares(s, v2))?;
        assert(props_view(props@) =~= seq![props_view(props@)[0]]);
    }
    let ghost sh = props_view(props@);
    let p = match cpu.period { Some(p) => p, None => 0 };
    let q = match cpu.quota { Some(q) => q, None => 0 };
    if p != 0 {
        push_ok(&mut props, period(p, systemd_version))?;
        assert(props_view(props@) =~= sh + seq![(CPU_QUOTA_PERIOD_US@, ValueView::U64(p))]);
    } else {
        assert(props_view(props@) =~= sh + Seq::empty());
    }
    let ghost spp = props_view(props@);
    if p != 0 || q != 0 {
        push_ok(&mut props, quota(quota_per_sec(q, p)))?;
        assert(props_view(props@) =~= spp + seq![props_view(props@).last()]);
    } else {
        assert(props_view(props@) =~= spp + Seq::empty());
    }
    Ok(props)
}

/// The properties for the memory resources: the limit where one is given
/// (`MemoryMax` on v2, `MemoryLimit` on v1); on v2 only, the reservation as
/// `MemoryLow` and the swap, converted from memory+swap, as `MemorySwapMax`.
pub open spec fn spec_memory_props(mem: LinuxMemory, v2: bool) -> Result<PropsView, Error> {
    let l = match mem.limit { Some(x) => x, None => 0 };
    let res = match mem.reservation { Some(x) => x, None => 0 };
    let sw = match mem.swap { Some(x) => x, None => 0 };
    let lp: PropsView = if l != 0 {
        seq![(if v2 { MEMORY_MAX@ } else { MEMORY_LIMIT@ }, ValueView::U64(l as u64))]
    } else {
        Seq::empty()
    };
    let rp: PropsView = if res != 0 && v2 {
        seq![(MEMORY_LOW@, ValueView::U64(res as u64))]
    } else {
        Seq::empty()
    };
    if sw != 0 && v2 {
        match spec_memory_swap_to_v2(sw as int, l as int) {
            Some(x) => Ok(lp + rp + seq![(MEMORY_SWAP_MAX@, ValueView::U64(x as i64 as u64))]),
            None => Err(Error::InvalidLinuxResource),
        }
    } else {
        Ok(lp + rp)
    }
}

/// The unit properties for the memory resources.
pub fn memory_properties(mem: &LinuxMemory, v2: bool) -> (r: Result<Vec<Property>, Error>)
    ensures
        match spec_memory_props(*mem, v2) {
            Ok(ps) => r matches Ok(v) && props_view(v@) == ps,
            Err(e) => r == Err::<Vec<Property>, Error>(e),
        },
{
    let mut props: Vec<Property> = Vec::new();
    assert(props_view(props@) =~= Seq::empty());
    let l = match mem.limit { Some(x) => x, None => 0 };
    if l != 0 {
        push_ok(&mut props, limit(l, v2))?;
        assert(props_view(props@) =~= seq![props_view(props@)[0]]);
    }
    let ghost lp = props_view(props@);
    let res = match mem.reservation { Some(x) => x, None => 0 };
    if res != 0 && v2 {
        push_ok(&mut props, low(res, v2))?;
        assert(props_view(props@) =~= lp + seq![props_view(props@).last()]);
    } else {
        assert(props_view(props@) =~= lp + Seq::empty());
    }
    let ghost rp = props_view(props@);
    let sw = match mem.swap { Some(x) => x, None => 0 };
    if sw != 0 && v2 {
        let s = memory_swap_to_cgroup_v2(sw, l)?;
        push_ok(&mut props, swap(s, v2))?;
        assert(props_view(props@) =~= rp + seq![props_view(props@).last()]);
    }
    Ok(props)
}

/// The properties for the process limit: `TasksMax` where the limit is -1
/// (none) or positive.
pub open spec fn spec_pids_props(pids: LinuxPids) -> PropsView {
    if pids.limit == -1 || pids.limit > 0 {
        seq![(TASKS_MAX@, ValueView::U64(pids.limit as u64))]
    } else {
        Seq::empty()
    }
}

/// The unit properties for the process limit.
pub fn pids_properties(pids: &LinuxPids) -> (r: Vec<Property>)
    ensures
        props_view(r@) == spec_pids_props(*pids),
{
    let mut props: Vec<Property> = Vec::new();
    if pids.limit == -1 || pids.limit > 0 {
        let _ = push_ok(&mut props, max(pids.limit));
    }
    assert(props_view(props@) =~= spec_pids_props(*pids));
    props
}

/// Whether `r` is what the cpuset of `cpu` gives: `AllowedCPUs` for the
/// CPUs, then `AllowedMemoryNodes` for the memory nodes, each where given.
pub open spec fn cpuset_props_ok(r: Result<Vec<Property>, Error>, cpu: LinuxCpu, systemd_version: usize) -> bool {
    exists|pc: Result<Property, SystemdError>, pm: Result<Property, SystemdError>|
        #[trigger] cpuset_props_with(r, cpu, systemd_version, pc, pm)
}

/// The body of `cpuset_props_ok` for the property results `pc` and `pm`.
pub open spec fn cpuset_props_with(
    r: Result<Vec<Property>, Error>,
    cpu: LinuxCpu,
    systemd_version: usize,
    pc: Result<Property, SystemdError>,
    pm: Result<Property, SystemdError>,
) -> bool {
    let c = match cpu.cpus { Some(c) => Some(c@), None => None };
    let m = match cpu.mems { Some(m) => Some(m@), None => None };
    &&& (c matches Some(l) ==> is_mask_prop(pc, ALLOWED_CPUS@, l, systemd_version))
    &&& (!(c is Some && pc is Err) ==> (m matches Some(l) ==> is_mask_prop(
        pm,
        ALLOWED_MEMORY_NODES@,
        l,
        systemd_version,
    )))
    &&& if c is Some && pc is Err {
        r == Err::<Vec<Property>, Error>(Error::SystemdCgroup(pc->Err_0))
    } else if m is Some && pm is Err {
        r == Err::<Vec<Property>, Error>(Error::SystemdCgroup(pm->Err_0))
    } else {
        r matches Ok(v) && v@ == (if c is Some { seq![pc->Ok_0] } else { Seq::empty() }) + (if m is Some {
            seq![pm->Ok_0]
        } else {
            Seq::empty()
        })
    }
}

/// The unit properties for the cpuset of `cpu`.
pub fn cpuset_properties(cpu: &LinuxCpu, systemd_version: usize) -> (r: Result<Vec<Property>, Error>)
    ensures
        cpuset_props_ok(r, *cpu, systemd_version),
{
    let mut props: Vec<Property> = Vec::new();
    let ghost mut gpc: Result<Property, SystemdError> = Err(SystemdError::InvalidArgument);
    let ghost mut gpm: Result<Property, SystemdError> = Err(SystemdError::InvalidArgument);
    if let Some(c) = &cpu.cpus {
        let p = cpus(c.as_str(), systemd_version);
        proof {
            gpc = p;
        }
        match p {
            Ok(x) => props.push(x),
            Err(e) => {
                let r = Err(Error::SystemdCgroup(e));
                assert(cpuset_props_with(r, *cpu, systemd_version, gpc, gpm));
                return r;
            },
        }
    }
    assert(props@ =~= (if cpu.cpus is Some { seq![gpc->Ok_0] } else { Seq::empty() }));
    let ghost first = props@;
    if let Some(m) = &cpu.mems {
        let p = mems(m.as_str(), systemd_version);
        proof {
            gpm = p;
        }
        match p {
            Ok(x) => props.push(x),
            Err(e) => {
                let r = Err(Error::SystemdCgroup(e));
                assert(cpuset_props_with(r, *cpu, systemd_version, gpc, gpm));
                return r;
            },
        }
    }
    assert(props@ =~= first + (if cpu.mems is Some { seq![gpm->Ok_0] } else { Seq::empty() }));
    let r = Ok(props);
    assert(cpuset_props_with(r, *cpu, systemd_version, gpc, gpm));
    r
}

} // verus!
