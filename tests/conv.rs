use cgroups_rs::conv::{cpu_shares_to_cgroup_v2, memory_swap_to_cgroup_v2};
use cgroups_rs::error::Error;
use cgroups_rs::{CPU_SHARES_V1_MAX, CPU_WEIGHT_V2_MAX};

#[test]
fn test_cpu_shares_to_cgroup_v2() {
    assert_eq!(cpu_shares_to_cgroup_v2(0), 0);
    assert_eq!(cpu_shares_to_cgroup_v2(1), 1);
    assert_eq!(cpu_shares_to_cgroup_v2(2), 1);
    assert_eq!(cpu_shares_to_cgroup_v2(100), 4);
    assert_eq!(
        cpu_shares_to_cgroup_v2(CPU_SHARES_V1_MAX),
        CPU_WEIGHT_V2_MAX
    );
    assert_eq!(
        cpu_shares_to_cgroup_v2(CPU_SHARES_V1_MAX - 1),
        CPU_WEIGHT_V2_MAX - 1
    );
    assert_eq!(cpu_shares_to_cgroup_v2(u64::MAX), CPU_WEIGHT_V2_MAX);
}

#[test]
fn test_memory_swap_to_cgroup_v2() {
    // memory no limit and swap is 0, treat it as no limit
    assert_eq!(memory_swap_to_cgroup_v2(0, -1).unwrap(), -1);
    // -1 is "max", 0 is "unset", so treat as is
    assert_eq!(memory_swap_to_cgroup_v2(-1, 0).unwrap(), -1);
    assert_eq!(memory_swap_to_cgroup_v2(0, 0).unwrap(), 0);
    // Unlimited memory, so treat swap as is.
    assert_eq!(memory_swap_to_cgroup_v2(100, -1).unwrap(), 100);
    // Unset or unknown memory, can't calculate swap.
    assert!(memory_swap_to_cgroup_v2(100, 0).is_err());
    // Does not make sense to subtract a negative value.
    assert!(memory_swap_to_cgroup_v2(100, -2).is_err());
    // Swap + mem < mem
    assert!(memory_swap_to_cgroup_v2(50, 100).is_err());
    // Real swap
    assert_eq!(memory_swap_to_cgroup_v2(200, 100).unwrap(), 100);
}

#[test]
fn shares_weight_range_and_order() {
    assert_eq!(cpu_shares_to_cgroup_v2(1024), 39);
    let mut prev = 0;
    for s in [1u64, 2, 3, 10, 100, 1024, 5000, 100000, 262143, 262144, 300000] {
        let w = cpu_shares_to_cgroup_v2(s);
        assert!((1..=10000).contains(&w));
        assert!(w >= prev);
        prev = w;
    }
}

#[test]
fn swap_plus_memory_gives_back_memswap() {
    for (memswap, mem) in [(200i64, 100i64), (1 << 30, 1 << 29), (5, 5)] {
        let swap = memory_swap_to_cgroup_v2(memswap, mem).unwrap();
        assert_eq!(swap + mem, memswap);
    }
    assert_eq!(memory_swap_to_cgroup_v2(512, 1024), Err(Error::InvalidLinuxResource));
}
