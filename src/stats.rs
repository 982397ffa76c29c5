//! Statistics of a cgroup, and their assembly from what the controller
//! files hold.
use vstd::prelude::*;

use crate::ops::{DeviceAccess, DeviceType, MaxValue};
use crate::text::{
    push_char, chars_eq, chars_of, lines, lines_of, parse_decimal, parse_unsigned, views, words,
    words_of,
};

verus! {

/// CPU accounting: user and system time, total and per-CPU usage.
#[derive(Debug, Default)]
pub struct CpuAcctStats {
    /// Usage in userspace, from the `user` line of `cpuacct.stat`; 0 if
    /// absent.
    pub user_usage: u64,
    /// Usage in kernelspace, from the `system` line of `cpuacct.stat`; 0 if
    /// absent.
    pub system_usage: u64,
    /// Total usage, from `cpuacct.usage`.
    pub total_usage: u64,
    /// Per-CPU usage, from `cpuacct.usage_percpu`.
    pub usage_percpu: Vec<u64>,
}

/// CPU throttling, from `cpu.stat`; 0 for what is absent.
#[derive(Debug, Default, Clone, Copy)]
pub struct CpuThrottlingStats {
    pub periods: u64,
    pub throttled_periods: u64,
    pub throttled_time: u64,
}

#[derive(Debug, Default)]
pub struct CpuCgroupStats {
    pub cpu_acct: Option<CpuAcctStats>,
    pub cpu_throttling: Option<CpuThrottlingStats>,
}

/// Usage, maximum usage, limit and failure count of memory, memory+swap or
/// kernel memory.
#[derive(Debug, Default, Clone, Copy)]
pub struct MemoryStats {
    pub usage: u64,
    pub max_usage: u64,
    pub limit: i64,
    pub fail_cnt: u64,
}

#[derive(Debug, Default)]
pub struct MemoryCgroupStats {
    pub memory: Option<MemoryStats>,
    pub memory_swap: Option<MemoryStats>,
    pub kernel_memory: Option<MemoryStats>,
    /// Whether `memory.use_hierarchy` is on (cgroup v1 only).
    pub use_hierarchy: bool,
    pub cache: u64,
    pub rss: u64,
    pub rss_huge: u64,
    pub shmem: u64,
    pub mapped_file: u64,
    pub dirty: u64,
    pub writeback: u64,
    pub swap: u64,
    pub pgpgin: u64,
    pub pgpgout: u64,
    pub pgfault: u64,
    pub pgmajfault: u64,
    pub inactive_anon: u64,
    pub active_anon: u64,
    pub inactive_file: u64,
    pub active_file: u64,
    pub unevictable: u64,
    pub hierarchical_memory_limit: i64,
    pub hierarchical_memsw_limit: i64,
    pub total_cache: u64,
    pub total_rss: u64,
    pub total_rss_huge: u64,
    pub total_shmem: u64,
    pub total_mapped_file: u64,
    pub total_dirty: u64,
    pub total_writeback: u64,
    pub total_swap: u64,
    pub total_pgpgin: u64,
    pub total_pgpgout: u64,
    pub total_pgfault: u64,
    pub total_pgmajfault: u64,
    pub total_inactive_anon: u64,
    pub total_active_anon: u64,
    pub total_inactive_file: u64,
    pub total_active_file: u64,
    pub total_unevictable: u64,
}

/// Current number of processes and their limit (0 for no limit).
#[derive(Debug, Default, Clone, Copy)]
pub struct PidsCgroupStats {
    pub current: u64,
    pub limit: i64,
}

/// One row of block IO statistics: a device, an operation, a value.
#[derive(Debug, Default)]
pub struct BlkioStat {
    pub major: u64,
    pub minor: u64,
    pub op: String,
    pub value: u64,
}

#[derive(Debug, Default)]
pub struct BlkioCgroupStats {
    pub io_service_bytes_recursive: Vec<BlkioStat>,
    pub io_serviced_recursive: Vec<BlkioStat>,
    pub io_queued_recursive: Vec<BlkioStat>,
    pub io_service_time_recursive: Vec<BlkioStat>,
    pub io_wait_time_recursive: Vec<BlkioStat>,
    pub io_merged_recursive: Vec<BlkioStat>,
    pub io_time_recursive: Vec<BlkioStat>,
    pub sectors_recursive: Vec<BlkioStat>,
}

/// Usage, maximum usage and failure count of hugepages of one size.
#[derive(Debug, Default, Clone, Copy)]
pub struct HugeTlbStat {
    pub usage: u64,
    pub max_usage: u64,
    pub fail_cnt: u64,
}

/// Hugepage statistics by page size.
pub type HugeTlbCgroupStats = Vec<(String, HugeTlbStat)>;

#[derive(Debug, Default)]
pub struct CgroupStats {
    pub cpu: CpuCgroupStats,
    pub memory: MemoryCgroupStats,
    pub pids: PidsCgroupStats,
    pub blkio: BlkioCgroupStats,
    pub hugetlb: HugeTlbCgroupStats,
    pub devices: DevicesCgroupStats,
}

/// A cgroup v1 block IO line of a device: bytes or operations by kind.
#[derive(Debug, Default, Clone, Copy)]
pub struct IoService {
    pub major: i16,
    pub minor: i16,
    pub read: u64,
    pub write: u64,
    pub sync: u64,
    pub asynchronous: u64,
    pub total: u64,
}

/// A cgroup v2 `io.stat` line of a device.
#[derive(Debug, Default, Clone, Copy)]
pub struct IoStat {
    pub major: i16,
    pub minor: i16,
    pub rbytes: u64,
    pub wbytes: u64,
    pub rios: u64,
    pub wios: u64,
    pub dbytes: u64,
    pub dios: u64,
}

/// A cgroup v1 per-device value.
#[derive(Debug, Default, Clone, Copy)]
pub struct BlkIoData {
    pub major: i16,
    pub minor: i16,
    pub data: u64,
}

/// The content of a statistics row.
pub open spec fn row_view(r: BlkioStat) -> (u64, u64, Seq<char>, u64) {
    (r.major, r.minor, r.op@, r.value)
}

pub open spec fn rows_view(rs: Seq<BlkioStat>) -> Seq<(u64, u64, Seq<char>, u64)> {
    rs.map_values(|r: BlkioStat| row_view(r))
}

/// The value of the first line `item value` of `ls` whose value reads as
/// a `u64`.
pub open spec fn tuple_value(ls: Seq<Seq<char>>, item: Seq<char>) -> Option<nat>
    decreases ls.len(),
{
    if ls.len() == 0 {
        None
    } else {
        match tuple_value(ls.drop_last(), item) {
            Some(v) => Some(v),
            None => {
                let w = words(ls.last());
                if w.len() >= 2 && w[0] == item {
                    parse_unsigned(w[1], u64::MAX as nat)
                } else {
                    None
                }
            },
        }
    }
}

proof fn lemma_tuple_value_prefix(ls: Seq<Seq<char>>, n: int, item: Seq<char>)
    requires
        0 <= n <= ls.len(),
        tuple_value(ls.take(n), item) is Some,
    ensures
        tuple_value(ls, item) == tuple_value(ls.take(n), item),
    decreases ls.len() - n,
{
    if n < ls.len() {
        assert(ls.take(n + 1).drop_last() =~= ls.take(n));
        lemma_tuple_value_prefix(ls, n + 1, item);
    } else {
        assert(ls.take(n) =~= ls);
    }
}

/// The value of `item` in text of lines `<key> <value>`: the first line
/// whose first word is `item` and whose second word reads as a `u64`.
pub fn parse_value_from_tuples(tuple_str: &str, item: &str) -> (r: Option<u64>)
    ensures
        match tuple_value(lines(tuple_str@), item@) {
            Some(v) => r matches Some(x) && x as nat == v,
            None => r is None,
        },
{
    let text = chars_of(tuple_str);
    let key = chars_of(item);
    let ls = lines_of(&text);
    let ghost lv = lines(tuple_str@);
    let mut k: usize = 0;
    while k < ls.len()
        invariant
            views(ls@) == lv,
            lv == lines(tuple_str@),
            key@ == item@,
            k <= lv.len(),
            tuple_value(lv.take(k as int), item@) is None,
        decreases lv.len() - k,
    {
        assert(lv.take(k + 1).drop_last() =~= lv.take(k as int));
        assert(lv.take(k + 1).last() == ls@[k as int]@);
        let w = words_of(&ls[k]);
        if w.len() >= 2 {
            assert(views(w@)[0] == w@[0]@);
            assert(views(w@)[1] == w@[1]@);
            if chars_eq(&w[0], &key) {
                if let Some(v) = parse_decimal(&w[1], u64::MAX as u128) {
                    proof {
                        assert(words(lv.take(k + 1).last()) == views(w@));
                        assert(tuple_value(lv.take(k + 1), item@) == Some(v as nat));
                        lemma_tuple_value_prefix(lv, k + 1, item@);
                        assert(v <= u64::MAX as u128);
                    }
                    return Some(v as u64);
                }
            }
        }
        k = k + 1;
    }
    assert(lv.take(lv.len() as int) =~= lv);
    None
}

/// The rows of one cgroup v1 service line: read, write, sync, async and
/// total.
pub open spec fn service_rows(s: IoService) -> Seq<(u64, u64, Seq<char>, u64)> {
    let (ma, mi) = (s.major as u64, s.minor as u64);
    seq![
        (ma, mi, "read"@, s.read),
        (ma, mi, "write"@, s.write),
        (ma, mi, "sync"@, s.sync),
        (ma, mi, "async"@, s.asynchronous),
        (ma, mi, "total"@, s.total),
    ]
}

pub open spec fn services_rows(ss: Seq<IoService>) -> Seq<(u64, u64, Seq<char>, u64)>
    decreases ss.len(),
{
    if ss.len() == 0 {
        Seq::empty()
    } else {
        services_rows(ss.drop_last()) + service_rows(ss.last())
    }
}

/// The rows of one cgroup v2 `io.stat` line: read and write bytes, read
/// and write operations, discarded bytes and operations.
pub open spec fn stat_rows(s: IoStat) -> Seq<(u64, u64, Seq<char>, u64)> {
    let (ma, mi) = (s.major as u64, s.minor as u64);
    seq![
        (ma, mi, "read"@, s.rbytes),
        (ma, mi, "write"@, s.wbytes),
        (ma, mi, "rios"@, s.rios),
        (ma, mi, "wios"@, s.wios),
        (ma, mi, "dbytes"@, s.dbytes),
        (ma, mi, "dios"@, s.dios),
    ]
}

pub open spec fn stats_rows(ss: Seq<IoStat>) -> Seq<(u64, u64, Seq<char>, u64)>
    decreases ss.len(),
{
    if ss.len() == 0 {
        Seq::empty()
    } else {
        stats_rows(ss.drop_last()) + stat_rows(ss.last())
    }
}

fn push_row(rows: &mut Vec<BlkioStat>, major: u64, minor: u64, op: &str, value: u64)
    ensures
        rows_view(final(rows)@) == rows_view(old(rows)@).push((major, minor, op@, value)),
{
    let ghost before = rows_view(rows@);
    rows.push(BlkioStat { major, minor, op: String::from_str(op), value });
    assert(rows_view(rows@) =~= before.push((major, minor, op@, value)));
}

impl BlkioStat {
    /// The rows of cgroup v1 service lines, five per device.
    pub fn from_io_services(io_services: &[IoService]) -> (r: Vec<BlkioStat>)
        ensures
            rows_view(r@) == services_rows(io_services@),
    {
        let mut stats: Vec<BlkioStat> = Vec::new();
        let mut k: usize = 0;
        assert(rows_view(stats@) =~= services_rows(io_services@.take(0)));
        while k < io_services.len()
            invariant
                k <= io_services@.len(),
                rows_view(stats@) == services_rows(io_services@.take(k as int)),
            decreases io_services@.len() - k,
        {
            let s = io_services[k];
            let ghost before = rows_view(stats@);
            let (ma, mi) = (s.major as u64, s.minor as u64);
            push_row(&mut stats, ma, mi, "read", s.read);
            push_row(&mut stats, ma, mi, "write", s.write);
            push_row(&mut stats, ma, mi, "sync", s.sync);
            push_row(&mut stats, ma, mi, "async", s.asynchronous);
            push_row(&mut stats, ma, mi, "total", s.total);
            assert(rows_view(stats@) =~= before + service_rows(s));
            assert(io_services@.take(k + 1).drop_last() =~= io_services@.take(k as int));
            k = k + 1;
        }
        assert(io_services@.take(io_services@.len() as int) =~= io_services@);
        stats
    }

    /// The rows of cgroup v2 `io.stat` lines, six per device.
    pub fn from_io_stats(io_stats: &[IoStat]) -> (r: Vec<BlkioStat>)
        ensures
            rows_view(r@) == stats_rows(io_stats@),
    {
        let mut stats: Vec<BlkioStat> = Vec::new();
        let mut k: usize = 0;
        assert(rows_view(stats@) =~= stats_rows(io_stats@.take(0)));
        while k < io_stats.len()
            invariant
                k <= io_stats@.len(),
                rows_view(stats@) == stats_rows(io_stats@.take(k as int)),
            decreases io_stats@.len() - k,
        {
            let s = io_stats[k];
            let ghost before = rows_view(stats@);
            let (ma, mi) = (s.major as u64, s.minor as u64);
            push_row(&mut stats, ma, mi, "read", s.rbytes);
            push_row(&mut stats, ma, mi, "write", s.wbytes);
            push_row(&mut stats, ma, mi, "rios", s.rios);
            push_row(&mut stats, ma, mi, "wios", s.wios);
            push_row(&mut stats, ma, mi, "dbytes", s.dbytes);
            push_row(&mut stats, ma, mi, "dios", s.dios);
            assert(rows_view(stats@) =~= before + stat_rows(s));
            assert(io_stats@.take(k + 1).drop_last() =~= io_stats@.take(k as int));
            k = k + 1;
        }
        assert(io_stats@.take(io_stats@.len() as int) =~= io_stats@);
        stats
    }

    /// One row per device value, with an empty operation.
    pub fn from_blk_io_data(blkiodata: &[BlkIoData]) -> (r: Vec<BlkioStat>)
        ensures
            r@.len() == blkiodata@.len(),
            forall|k: int| 0 <= k < r@.len() ==> #[trigger] row_view(r@[k]) == (
                blkiodata@[k].major as u64,
                blkiodata@[k].minor as u64,
                Seq::<char>::empty(),
                blkiodata@[k].data,
            ),
    {
        let mut stats: Vec<BlkioStat> = Vec::new();
        let mut k: usize = 0;
        while k < blkiodata.len()
            invariant
                k <= blkiodata@.len(),
                stats@.len() == k,
                forall|j: int| 0 <= j < k ==> #[trigger] row_view(stats@[j]) == (
                    blkiodata@[j].major as u64,
                    blkiodata@[j].minor as u64,
                    Seq::<char>::empty(),
                    blkiodata@[j].data,
                ),
            decreases blkiodata@.len() - k,
        {
            let d = blkiodata[k];
            stats.push(BlkioStat { major: d.major as u64, minor: d.minor as u64, op: String::new(), value: d.data });
            k = k + 1;
        }
        stats
    }
}

/// CPU accounting from `cpuacct.stat` (`stat`), `cpuacct.usage` (`usage`)
/// and `cpuacct.usage_percpu` (`usage_percpu`, one value per line; lines
/// that do not read as a number are left out).
pub fn cpu_acct_stats(stat: &str, usage: u64, usage_percpu: &str) -> (r: CpuAcctStats)
    ensures
        r.user_usage as nat == match tuple_value(lines(stat@), "user"@) { Some(v) => v, None => 0 },
        r.system_usage as nat == match tuple_value(lines(stat@), "system"@) { Some(v) => v, None => 0 },
        r.total_usage == usage,
        r.usage_percpu@ == numbers(lines(usage_percpu@)),
{
    let user_usage = match parse_value_from_tuples(stat, "user") { Some(v) => v, None => 0 };
    let system_usage = match parse_value_from_tuples(stat, "system") { Some(v) => v, None => 0 };
    let c = chars_of(usage_percpu);
    let ls = lines_of(&c);
    let ghost lv = lines(usage_percpu@);
    let mut per: Vec<u64> = Vec::new();
    let mut k: usize = 0;
    while k < ls.len()
        invariant
            views(ls@) == lv,
            lv == lines(usage_percpu@),
            k <= lv.len(),
            per@ == numbers(lv.take(k as int)),
        decreases lv.len() - k,
    {
        assert(lv.take(k + 1).drop_last() =~= lv.take(k as int));
        assert(lv.take(k + 1).last() == ls@[k as int]@);
        if let Some(v) = parse_decimal(&ls[k], u64::MAX as u128) {
            per.push(v as u64);
        }
        k = k + 1;
    }
    assert(lv.take(lv.len() as int) =~= lv);
    CpuAcctStats { user_usage, system_usage, total_usage: usage, usage_percpu: per }
}

/// The lines that read as `u64` numbers, read.
pub open spec fn numbers(ls: Seq<Seq<char>>) -> Seq<u64>
    decreases ls.len(),
{
    if ls.len() == 0 {
        Seq::empty()
    } else {
        match parse_unsigned(ls.last(), u64::MAX as nat) {
            Some(v) => numbers(ls.drop_last()).push(v as u64),
            None => numbers(ls.drop_last()),
        }
    }
}

/// CPU throttling from `cpu.stat`: `nr_periods`, `nr_throttled` and
/// `throttled_time`, 0 for what is absent.
pub fn cpu_throttling_stats(stat: &str) -> (r: CpuThrottlingStats)
    ensures
        r.periods as nat == match tuple_value(lines(stat@), "nr_periods"@) { Some(v) => v, None => 0 },
        r.throttled_periods as nat == match tuple_value(lines(stat@), "nr_throttled"@) { Some(v) => v, None => 0 },
        r.throttled_time as nat == match tuple_value(lines(stat@), "throttled_time"@) { Some(v) => v, None => 0 },
{
    CpuThrottlingStats {
        periods: match parse_value_from_tuples(stat, "nr_periods") { Some(v) => v, None => 0 },
        throttled_periods: match parse_value_from_tuples(stat, "nr_throttled") { Some(v) => v, None => 0 },
        throttled_time: match parse_value_from_tuples(stat, "throttled_time") { Some(v) => v, None => 0 },
    }
}

/// Process statistics from `pids.current` and `pids.max` as read (`None`
/// where unreadable): a missing value and no limit both count as 0.
pub fn pids_cgroup_stats(current: Option<u64>, max: Option<MaxValue>) -> (r: PidsCgroupStats)
    ensures
        r.current == match current { Some(c) => c, None => 0 },
        r.limit == match max { Some(MaxValue::Value(l)) => l, _ => 0 },
{
    let current = match current { Some(c) => c, None => 0 };
    let limit = match max {
        Some(MaxValue::Value(l)) => l,
        _ => 0,
    };
    PidsCgroupStats { current, limit }
}

} // verus!

verus! {

/// The counters of `memory.stat`.
#[derive(Debug, Default, Clone, Copy)]
pub struct MemoryStatCounters {
    pub cache: u64,
    pub rss: u64,
    pub rss_huge: u64,
    pub shmem: u64,
    pub mapped_file: u64,
    pub dirty: u64,
    pub writeback: u64,
    pub swap: u64,
    pub pgpgin: u64,
    pub pgpgout: u64,
    pub pgfault: u64,
    pub pgmajfault: u64,
    pub inactive_anon: u64,
    pub active_anon: u64,
    pub inactive_file: u64,
    pub active_file: u64,
    pub unevictable: u64,
    pub hierarchical_memory_limit: i64,
    pub hierarchical_memsw_limit: i64,
    pub total_cache: u64,
    pub total_rss: u64,
    pub total_rss_huge: u64,
    pub total_shmem: u64,
    pub total_mapped_file: u64,
    pub total_dirty: u64,
    pub total_writeback: u64,
    pub total_swap: u64,
    pub total_pgpgin: u64,
    pub total_pgpgout: u64,
    pub total_pgfault: u64,
    pub total_pgmajfault: u64,
    pub total_inactive_anon: u64,
    pub total_active_anon: u64,
    pub total_inactive_file: u64,
    pub total_active_file: u64,
    pub total_unevictable: u64,
}

/// Usage, maximum usage, limit and failure count as a memory controller
/// file set gives them.
#[derive(Debug, Default, Clone, Copy)]
pub struct MemoryUsage {
    pub usage_in_bytes: u64,
    pub max_usage_in_bytes: u64,
    pub limit_in_bytes: i64,
    pub fail_cnt: u64,
}

/// What the memory controller's files hold.
#[derive(Debug, Default, Clone, Copy)]
pub struct MemoryRaw {
    pub memory: MemoryUsage,
    pub memswap: MemoryUsage,
    pub kmem: MemoryUsage,
    /// `memory.use_hierarchy`
    pub use_hierarchy: u64,
    pub stat: MemoryStatCounters,
}

/// The statistics of one memory file set.
pub open spec fn usage_stats(u: MemoryUsage) -> MemoryStats {
    MemoryStats { usage: u.usage_in_bytes, max_usage: u.max_usage_in_bytes, limit: u.limit_in_bytes, fail_cnt: u.fail_cnt }
}

fn memory_stats_of(u: &MemoryUsage) -> (r: MemoryStats)
    ensures
        r == usage_stats(*u),
{
    MemoryStats { usage: u.usage_in_bytes, max_usage: u.max_usage_in_bytes, limit: u.limit_in_bytes, fail_cnt: u.fail_cnt }
}

/// Memory statistics from what the memory controller's files hold.
pub fn memory_cgroup_stats(raw: &MemoryRaw) -> (r: MemoryCgroupStats)
    ensures
        r.memory == Some(usage_stats(raw.memory)),
        r.memory_swap == Some(usage_stats(raw.memswap)),
        r.kernel_memory == Some(usage_stats(raw.kmem)),
        r.use_hierarchy == (raw.use_hierarchy == 1),
            r.cache == raw.stat.cache,
            r.rss == raw.stat.rss,
            r.rss_huge == raw.stat.rss_huge,
            r.shmem == raw.stat.shmem,
            r.mapped_file == raw.stat.mapped_file,
            r.dirty == raw.stat.dirty,
            r.writeback == raw.stat.writeback,
            r.swap == raw.stat.swap,
            r.pgpgin == raw.stat.pgpgin,
            r.pgpgout == raw.stat.pgpgout,
            r.pgfault == raw.stat.pgfault,
            r.pgmajfault == raw.stat.pgmajfault,
            r.inactive_anon == raw.stat.inactive_anon,
            r.active_anon == raw.stat.active_anon,
            r.inactive_file == raw.stat.inactive_file,
            r.active_file == raw.stat.active_file,
            r.unevictable == raw.stat.unevictable,
            r.hierarchical_memory_limit == raw.stat.hierarchical_memory_limit,
            r.hierarchical_memsw_limit == raw.stat.hierarchical_memsw_limit,
            r.total_cache == raw.stat.total_cache,
            r.total_rss == raw.stat.total_rss,
            r.total_rss_huge == raw.stat.total_rss_huge,
            r.total_shmem == raw.stat.total_shmem,
            r.total_mapped_file == raw.stat.total_mapped_file,
            r.total_dirty == raw.stat.total_dirty,
            r.total_writeback == raw.stat.total_writeback,
            r.total_swap == raw.stat.total_swap,
            r.total_pgpgin == raw.stat.total_pgpgin,
            r.total_pgpgout == raw.stat.total_pgpgout,
            r.total_pgfault == raw.stat.total_pgfault,
            r.total_pgmajfault == raw.stat.total_pgmajfault,
            r.total_inactive_anon == raw.stat.total_inactive_anon,
            r.total_active_anon == raw.stat.total_active_anon,
            r.total_inactive_file == raw.stat.total_inactive_file,
            r.total_active_file == raw.stat.total_active_file,
            r.total_unevictable == raw.stat.total_unevictable,
{
    MemoryCgroupStats {
        memory: Some(memory_stats_of(&raw.memory)),
        memory_swap: Some(memory_stats_of(&raw.memswap)),
        kernel_memory: Some(memory_stats_of(&raw.kmem)),
        use_hierarchy: raw.use_hierarchy == 1,
        cache: raw.stat.cache,
        rss: raw.stat.rss,
        rss_huge: raw.stat.rss_huge,
        shmem: raw.stat.shmem,
        mapped_file: raw.stat.mapped_file,
        dirty: raw.stat.dirty,
        writeback: raw.stat.writeback,
        swap: raw.stat.swap,
        pgpgin: raw.stat.pgpgin,
        pgpgout: raw.stat.pgpgout,
        pgfault: raw.stat.pgfault,
        pgmajfault: raw.stat.pgmajfault,
        inactive_anon: raw.stat.inactive_anon,
        active_anon: raw.stat.active_anon,
        inactive_file: raw.stat.inactive_file,
        active_file: raw.stat.active_file,
        unevictable: raw.stat.unevictable,
        hierarchical_memory_limit: raw.stat.hierarchical_memory_limit,
        hierarchical_memsw_limit: raw.stat.hierarchical_memsw_limit,
        total_cache: raw.stat.total_cache,
        total_rss: raw.stat.total_rss,
        total_rss_huge: raw.stat.total_rss_huge,
        total_shmem: raw.stat.total_shmem,
        total_mapped_file: raw.stat.total_mapped_file,
        total_dirty: raw.stat.total_dirty,
        total_writeback: raw.stat.total_writeback,
        total_swap: raw.stat.total_swap,
        total_pgpgin: raw.stat.total_pgpgin,
        total_pgpgout: raw.stat.total_pgpgout,
        total_pgfault: raw.stat.total_pgfault,
        total_pgmajfault: raw.stat.total_pgmajfault,
        total_inactive_anon: raw.stat.total_inactive_anon,
        total_active_anon: raw.stat.total_active_anon,
        total_inactive_file: raw.stat.total_inactive_file,
        total_active_file: raw.stat.total_active_file,
        total_unevictable: raw.stat.total_unevictable,
    }
}

/// Memory statistics of a cgroup without a memory controller: all absent
/// or zero.
pub fn empty_memory_cgroup_stats() -> (r: MemoryCgroupStats)
    ensures
        r.memory is None,
        r.memory_swap is None,
        r.kernel_memory is None,
        !r.use_hierarchy,
            r.cache == 0,
            r.rss == 0,
            r.rss_huge == 0,
            r.shmem == 0,
            r.mapped_file == 0,
            r.dirty == 0,
            r.writeback == 0,
            r.swap == 0,
            r.pgpgin == 0,
            r.pgpgout == 0,
            r.pgfault == 0,
            r.pgmajfault == 0,
            r.inactive_anon == 0,
            r.active_anon == 0,
            r.inactive_file == 0,
            r.active_file == 0,
            r.unevictable == 0,
            r.hierarchical_memory_limit == 0,
            r.hierarchical_memsw_limit == 0,
            r.total_cache == 0,
            r.total_rss == 0,
            r.total_rss_huge == 0,
            r.total_shmem == 0,
            r.total_mapped_file == 0,
            r.total_dirty == 0,
            r.total_writeback == 0,
            r.total_swap == 0,
            r.total_pgpgin == 0,
            r.total_pgpgout == 0,
            r.total_pgfault == 0,
            r.total_pgmajfault == 0,
            r.total_inactive_anon == 0,
            r.total_active_anon == 0,
            r.total_inactive_file == 0,
            r.total_active_file == 0,
            r.total_unevictable == 0,
{
    MemoryCgroupStats {
        memory: None,
        memory_swap: None,
        kernel_memory: None,
        use_hierarchy: false,
        cache: 0,
        rss: 0,
        rss_huge: 0,
        shmem: 0,
        mapped_file: 0,
        dirty: 0,
        writeback: 0,
        swap: 0,
        pgpgin: 0,
        pgpgout: 0,
        pgfault: 0,
        pgmajfault: 0,
        inactive_anon: 0,
        active_anon: 0,
        inactive_file: 0,
        active_file: 0,
        unevictable: 0,
        hierarchical_memory_limit: 0,
        hierarchical_memsw_limit: 0,
        total_cache: 0,
        total_rss: 0,
        total_rss_huge: 0,
        total_shmem: 0,
        total_mapped_file: 0,
        total_dirty: 0,
        total_writeback: 0,
        total_swap: 0,
        total_pgpgin: 0,
        total_pgpgout: 0,
        total_pgfault: 0,
        total_pgmajfault: 0,
        total_inactive_anon: 0,
        total_active_anon: 0,
        total_inactive_file: 0,
        total_active_file: 0,
        total_unevictable: 0,
    }
}

/// A device rule as the devices controller lists it.
#[derive(Debug, Clone, Copy)]
pub struct DeviceRule {
    pub devtype: DeviceType,
    pub major: i64,
    pub minor: i64,
    pub access: DeviceAccess,
}

/// One allowed device rule, in text form.
#[derive(Debug, Default)]
pub struct DeviceCgroupStat {
    /// `a`, `b`, `c` or `p`
    pub dev_type: String,
    pub major: i64,
    pub minor: i64,
    /// The accesses among `r`, `w`, `m`, in this order.
    pub access: String,
}

#[derive(Debug, Default)]
pub struct DevicesCgroupStats {
    pub list: Vec<DeviceCgroupStat>,
}

/// The letter of a device type.
pub open spec fn type_letter(t: DeviceType) -> char {
    match t {
        DeviceType::All => 'a',
        DeviceType::Block => 'b',
        DeviceType::Char => 'c',
        DeviceType::Fifo => 'p',
    }
}

/// The text of an access: `r`, `w`, `m` for those granted, in this order.
pub open spec fn access_text(a: DeviceAccess) -> Seq<char> {
    (if a.read { seq!['r'] } else { Seq::empty() }) + (if a.write { seq!['w'] } else { Seq::empty() }) + (if a.mknod {
        seq!['m']
    } else {
        Seq::empty()
    })
}

fn device_stat(d: &DeviceRule) -> (r: DeviceCgroupStat)
    ensures
        r.dev_type@ == seq![type_letter(d.devtype)],
        r.major == d.major,
        r.minor == d.minor,
        r.access@ == access_text(d.access),
{
    let c = match d.devtype {
        DeviceType::All => 'a',
        DeviceType::Block => 'b',
        DeviceType::Char => 'c',
        DeviceType::Fifo => 'p',
    };
    let mut dev_type = String::new();
    push_char(&mut dev_type, c);
    let mut access = String::new();
    if d.access.read {
        push_char(&mut access, 'r');
    }
    if d.access.write {
        push_char(&mut access, 'w');
    }
    if d.access.mknod {
        push_char(&mut access, 'm');
    }
    assert(access@ =~= access_text(d.access));
    assert(dev_type@ =~= seq![c]);
    DeviceCgroupStat { dev_type, major: d.major, minor: d.minor, access }
}

/// The device statistics: one entry per allowed device rule.
pub fn devices_cgroup_stats(devs: &Vec<DeviceRule>) -> (r: DevicesCgroupStats)
    ensures
        r.list@.len() == devs@.len(),
        forall|k: int| 0 <= k < devs@.len() ==> {
            &&& (#[trigger] r.list@[k]).dev_type@ == seq![type_letter(devs@[k].devtype)]
            &&& r.list@[k].major == devs@[k].major
            &&& r.list@[k].minor == devs@[k].minor
            &&& r.list@[k].access@ == access_text(devs@[k].access)
        },
{
    let mut list: Vec<DeviceCgroupStat> = Vec::new();
    let mut k: usize = 0;
    while k < devs.len()
        invariant
            k <= devs@.len(),
            list@.len() == k,
            forall|j: int| 0 <= j < k ==> {
                &&& (#[trigger] list@[j]).dev_type@ == seq![type_letter(devs@[j].devtype)]
                &&& list@[j].major == devs@[j].major
                &&& list@[j].minor == devs@[j].minor
                &&& list@[j].access@ == access_text(devs@[j].access)
            },
        decreases devs@.len() - k,
    {
        list.push(device_stat(&devs[k]));
        k = k + 1;
    }
    DevicesCgroupStats { list }
}

/// What the block IO controller's files hold.
#[derive(Debug, Default, Clone)]
pub struct BlkIoRaw {
    pub io_service_bytes_recursive: Vec<IoService>,
    pub io_serviced_recursive: Vec<IoService>,
    pub io_queued_recursive: Vec<IoService>,
    pub io_service_time_recursive: Vec<IoService>,
    pub io_wait_time_recursive: Vec<IoService>,
    pub io_merged_recursive: Vec<IoService>,
    pub time_recursive: Vec<BlkIoData>,
    pub sectors_recursive: Vec<BlkIoData>,
    /// `blkio.throttle.io_service_bytes`
    pub throttle_io_service_bytes: Vec<IoService>,
    /// `blkio.throttle.io_serviced`
    pub throttle_io_serviced: Vec<IoService>,
    /// `io.stat` (cgroup v2)
    pub io_stat: Vec<IoStat>,
}

/// Whether the statistics are the data rows of `ds`.
pub open spec fn data_rows(r: Seq<BlkioStat>, ds: Seq<BlkIoData>) -> bool {
    r.len() == ds.len() && forall|k: int| 0 <= k < r.len() ==> #[trigger] row_view(r[k]) == (
        ds[k].major as u64,
        ds[k].minor as u64,
        Seq::<char>::empty(),
        ds[k].data,
    )
}

/// Block IO statistics on cgroup v1: the recursive files where the
/// serviced one has data, the throttle files otherwise.
pub fn blkio_stats_v1(raw: &BlkIoRaw) -> (r: BlkioCgroupStats)
    ensures
        raw.io_serviced_recursive@.len() == 0 ==> {
            &&& rows_view(r.io_service_bytes_recursive@) == services_rows(raw.throttle_io_service_bytes@)
            &&& rows_view(r.io_serviced_recursive@) == services_rows(raw.throttle_io_serviced@)
            &&& r.io_queued_recursive@.len() == 0 && r.io_service_time_recursive@.len() == 0
            &&& r.io_wait_time_recursive@.len() == 0 && r.io_merged_recursive@.len() == 0
            &&& r.io_time_recursive@.len() == 0 && r.sectors_recursive@.len() == 0
        },
        raw.io_serviced_recursive@.len() != 0 ==> {
            &&& rows_view(r.io_service_bytes_recursive@) == services_rows(raw.io_service_bytes_recursive@)
            &&& rows_view(r.io_serviced_recursive@) == services_rows(raw.io_serviced_recursive@)
            &&& rows_view(r.io_queued_recursive@) == services_rows(raw.io_queued_recursive@)
            &&& rows_view(r.io_service_time_recursive@) == services_rows(raw.io_service_time_recursive@)
            &&& rows_view(r.io_wait_time_recursive@) == services_rows(raw.io_wait_time_recursive@)
            &&& rows_view(r.io_merged_recursive@) == services_rows(raw.io_merged_recursive@)
            &&& data_rows(r.io_time_recursive@, raw.time_recursive@)
            &&& data_rows(r.sectors_recursive@, raw.sectors_recursive@)
        },
{
    if raw.io_serviced_recursive.len() == 0 {
        BlkioCgroupStats {
            io_service_bytes_recursive: BlkioStat::from_io_services(raw.throttle_io_service_bytes.as_slice()),
            io_serviced_recursive: BlkioStat::from_io_services(raw.throttle_io_serviced.as_slice()),
            io_queued_recursive: Vec::new(),
            io_service_time_recursive: Vec::new(),
            io_wait_time_recursive: Vec::new(),
            io_merged_recursive: Vec::new(),
            io_time_recursive: Vec::new(),
            sectors_recursive: Vec::new(),
        }
    } else {
        BlkioCgroupStats {
            io_service_bytes_recursive: BlkioStat::from_io_services(raw.io_service_bytes_recursive.as_slice()),
            io_serviced_recursive: BlkioStat::from_io_services(raw.io_serviced_recursive.as_slice()),
            io_queued_recursive: BlkioStat::from_io_services(raw.io_queued_recursive.as_slice()),
            io_service_time_recursive: BlkioStat::from_io_services(raw.io_service_time_recursive.as_slice()),
            io_wait_time_recursive: BlkioStat::from_io_services(raw.io_wait_time_recursive.as_slice()),
            io_merged_recursive: BlkioStat::from_io_services(raw.io_merged_recursive.as_slice()),
            io_time_recursive: BlkioStat::from_blk_io_data(raw.time_recursive.as_slice()),
            sectors_recursive: BlkioStat::from_blk_io_data(raw.sectors_recursive.as_slice()),
        }
    }
}

/// Block IO statistics on cgroup v2: the rows of `io.stat`.
pub fn blkio_stats_v2(raw: &BlkIoRaw) -> (r: BlkioCgroupStats)
    ensures
        rows_view(r.io_service_bytes_recursive@) == stats_rows(raw.io_stat@),
        r.io_serviced_recursive@.len() == 0 && r.io_queued_recursive@.len() == 0,
        r.io_service_time_recursive@.len() == 0 && r.io_wait_time_recursive@.len() == 0,
        r.io_merged_recursive@.len() == 0 && r.io_time_recursive@.len() == 0,
        r.sectors_recursive@.len() == 0,
{
    BlkioCgroupStats {
        io_service_bytes_recursive: BlkioStat::from_io_stats(raw.io_stat.as_slice()),
        io_serviced_recursive: Vec::new(),
        io_queued_recursive: Vec::new(),
        io_service_time_recursive: Vec::new(),
        io_wait_time_recursive: Vec::new(),
        io_merged_recursive: Vec::new(),
        io_time_recursive: Vec::new(),
        sectors_recursive: Vec::new(),
    }
}

} // verus!
