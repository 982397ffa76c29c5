//! Conversions between cgroup v1 and cgroup v2 values.
use vstd::prelude::*;

use crate::error::{Error, Result};
use crate::{CPU_SHARES_V1_MAX, CPU_WEIGHT_V2_MAX};

verus! {

/// The cgroup v2 CPU weight that stands for `shares` cgroup v1 CPU shares.
pub open spec fn spec_shares_to_weight(shares: nat) -> nat {
    if shares == 0 {
        0
    } else if shares <= 2 {
        1
    } else if shares >= CPU_SHARES_V1_MAX {
        CPU_WEIGHT_V2_MAX as nat
    } else {
        ((shares - 2) * 9999) as nat / 262142 + 1
    }
}

/// Converts CPU shares, used by cgroup v1, to CPU weight, used by cgroup v2.
///
/// Shares range over [2, 262144] with a default of 1024; weights range over
/// [1, 10000] with a default of 100. Zero stays zero (unset).
pub fn cpu_shares_to_cgroup_v2(shares: u64) -> (r: u64)
    ensures
        r as nat == spec_shares_to_weight(shares as nat),
{
    if shares == 0 {
        return 0;
    }
    if shares <= 2 {
        return 1;
    }
    if shares >= CPU_SHARES_V1_MAX {
        return CPU_WEIGHT_V2_MAX;
    }
    assert((shares - 2) * 9999 <= 262142 * 9999) by (nonlinear_arith)
        requires
            shares < 262144,
    ;
    (((shares - 2) * 9999) / 262142) + 1
}

/// Shares of zero give weight zero; any other shares give a weight in
/// [1, 10000]; the weight never decreases as the shares grow; the largest
/// shares give the largest weight.
pub proof fn lemma_shares_to_weight(s: nat, t: nat)
    requires
        s <= t,
    ensures
        spec_shares_to_weight(0) == 0,
        s >= 1 ==> 1 <= spec_shares_to_weight(s) <= 10000,
        spec_shares_to_weight(s) <= spec_shares_to_weight(t),
        spec_shares_to_weight(262144) == 10000,
{
    if s > 2 && s < 262144 {
        assert((s - 2) * 9999 <= 262141 * 9999) by (nonlinear_arith)
            requires
                2 < s < 262144,
        ;
        assert(((s - 2) * 9999) as nat / 262142 <= 9998) by (nonlinear_arith)
            requires
                (s - 2) * 9999 <= 262141 * 9999,
                (s - 2) * 9999 >= 0,
        ;
    }
    if s > 2 && t < 262144 {
        assert(((s - 2) * 9999) as nat / 262142 <= ((t - 2) * 9999) as nat / 262142)
            by (nonlinear_arith)
            requires
                2 < s <= t,
        ;
    }
}

/// What the cgroup v2 swap limit is for a combined memory+swap limit
/// `memswap` and a memory limit `mem`; `None` where no swap limit can be
/// derived.
pub open spec fn spec_memory_swap_to_v2(memswap: int, mem: int) -> Option<int> {
    if mem == -1 && memswap == 0 {
        Some(-1)
    } else if memswap == -1 || memswap == 0 {
        Some(memswap)
    } else if mem == -1 {
        Some(memswap)
    } else if mem <= 0 || memswap < mem {
        None
    } else {
        Some(memswap - mem)
    }
}

/// Converts the OCI memory+swap limit to the cgroup v2 swap limit, which
/// counts swap alone.
///
/// -1 means unlimited and 0 unset; an unlimited memory limit with an unset
/// swap limit sets both unlimited.
pub fn memory_swap_to_cgroup_v2(memswap_limit: i64, mem_limit: i64) -> (r: Result<i64>)
    ensures
        match spec_memory_swap_to_v2(memswap_limit as int, mem_limit as int) {
            Some(v) => r matches Ok(x) && x as int == v,
            None => r matches Err(Error::InvalidLinuxResource),
        },
{
    if mem_limit == -1 && memswap_limit == 0 {
        return Ok(-1);
    }
    if memswap_limit == -1 || memswap_limit == 0 {
        return Ok(memswap_limit);
    }
    if mem_limit == -1 {
        return Ok(memswap_limit);
    }
    if mem_limit == 0 {
        return Err(Error::InvalidLinuxResource);
    }
    if mem_limit < 0 {
        return Err(Error::InvalidLinuxResource);
    }
    if memswap_limit < mem_limit {
        return Err(Error::InvalidLinuxResource);
    }
    Ok(memswap_limit - mem_limit)
}

/// Where the conversion succeeds on a positive memory+swap limit and a
/// positive memory limit, swap plus memory gives back memory+swap.
pub proof fn lemma_memory_swap_round_trip(memswap: int, mem: int)
    requires
        memswap > 0,
        mem > 0,
        spec_memory_swap_to_v2(memswap, mem) is Some,
    ensures
        spec_memory_swap_to_v2(memswap, mem)->0 + mem == memswap,
{
}

} // verus!
