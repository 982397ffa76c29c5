//! The hugetlb controller's host data: supported page sizes, and the
//! parsing of human-readable sizes such as `2MB`.
use vstd::prelude::*;

use crate::error::{FsError, FsErrorKind};
use crate::ops::CgroupOp;
use crate::text::{chars_of, parse_decimal, parse_unsigned, push_str, slice_chars, string_of};

verus! {

pub const KB: u128 = 1000;
pub const MB: u128 = 1000 * KB;
pub const GB: u128 = 1000 * MB;
pub const TB: u128 = 1000 * GB;
pub const PB: u128 = 1000 * TB;

#[allow(non_upper_case_globals)]
pub const KiB: u128 = 1024;
#[allow(non_upper_case_globals)]
pub const MiB: u128 = 1024 * KiB;
#[allow(non_upper_case_globals)]
pub const GiB: u128 = 1024 * MiB;
#[allow(non_upper_case_globals)]
pub const TiB: u128 = 1024 * GiB;
#[allow(non_upper_case_globals)]
pub const PiB: u128 = 1024 * TiB;

/// The text with leading and trailing whitespace removed.
pub uninterp spec fn trim_of(s: Seq<char>) -> Seq<char>;

/// Relies on `str::trim`: leading and trailing whitespace removed; the
/// result depends on the text alone.
#[verifier::external_body]
fn trim_str(s: &str) -> (r: &str)
    ensures
        r@ == trim_of(s@),
{
    s.trim()
}

/// Multipliers of size suffixes, keyed by lower-case letter.
#[derive(Debug, Clone)]
pub struct SizeMap {
    entries: Vec<(char, u128)>,
}

/// The multiplier of the first entry for `c`.
pub open spec fn entry_of(es: Seq<(char, u128)>, c: char) -> Option<u128>
    decreases es.len(),
{
    if es.len() == 0 {
        None
    } else {
        match entry_of(es.drop_last(), c) {
            Some(v) => Some(v),
            None => if es.last().0 == c {
                Some(es.last().1)
            } else {
                None
            },
        }
    }
}

impl SizeMap {
    /// The multiplier for the suffix letter `c`.
    pub closed spec fn spec_get(&self, c: char) -> Option<u128> {
        entry_of(self.entries@, c)
    }

    fn of_powers(base: u128) -> (r: Self)
        requires
            base == 1000 || base == 1024,
        ensures
            r.spec_get('k') == Some(base),
            r.spec_get('m') == Some((base * base) as u128),
            r.spec_get('g') == Some((base * base * base) as u128),
            r.spec_get('t') == Some((base * base * base * base) as u128),
            r.spec_get('p') == Some((base * base * base * base * base) as u128),
            forall|c: char| c != 'k' && c != 'm' && c != 'g' && c != 't' && c != 'p' ==> #[trigger] r.spec_get(c) is None,
    {
        let b2 = base * base;
        let b3 = b2 * base;
        let b4 = b3 * base;
        let b5 = b4 * base;
        let r = SizeMap { entries: vec![('k', base), ('m', b2), ('g', b3), ('t', b4), ('p', b5)] };
        let ghost es = r.entries@;
        assert(es.drop_last().drop_last().drop_last().drop_last().drop_last() =~= Seq::empty());
        reveal_with_fuel(entry_of, 6);
        r
    }

    /// The multiplier for the suffix letter `c`.
    pub fn get(&self, c: char) -> (r: Option<u128>)
        ensures
            r == self.spec_get(c),
    {
        let ghost es = self.entries@;
        let mut i: usize = 0;
        while i < self.entries.len()
            invariant
                es == self.entries@,
                i <= es.len(),
                entry_of(es.take(i as int), c) is None,
            decreases es.len() - i,
        {
            assert(es.take(i + 1).drop_last() =~= es.take(i as int));
            if self.entries[i].0 == c {
                proof {
                    lemma_entry_prefix(es, i + 1, c);
                }
                return Some(self.entries[i].1);
            }
            i = i + 1;
        }
        assert(es.take(es.len() as int) =~= es);
        None
    }
}

proof fn lemma_entry_prefix(es: Seq<(char, u128)>, n: int, c: char)
    requires
        0 <= n <= es.len(),
        entry_of(es.take(n), c) is Some,
    ensures
        entry_of(es, c) == entry_of(es.take(n), c),
    decreases es.len() - n,
{
    if n < es.len() {
        assert(es.take(n + 1).drop_last() =~= es.take(n));
        lemma_entry_prefix(es, n + 1, c);
    } else {
        assert(es.take(n) =~= es);
    }
}

/// Multipliers of binary sizes: `k` is 1024, `m` 1024², up to `p`.
pub fn get_binary_size_map() -> (r: SizeMap)
    ensures
        r.spec_get('k') == Some(KiB),
        r.spec_get('m') == Some(MiB),
        r.spec_get('g') == Some(GiB),
        r.spec_get('t') == Some(TiB),
        r.spec_get('p') == Some(PiB),
        forall|c: char| c != 'k' && c != 'm' && c != 'g' && c != 't' && c != 'p' ==> #[trigger] r.spec_get(c) is None,
{
    SizeMap::of_powers(1024)
}

/// Multipliers of decimal sizes: `k` is 1000, `m` 1000², up to `p`.
pub fn get_decimal_size_map() -> (r: SizeMap)
    ensures
        r.spec_get('k') == Some(KB),
        r.spec_get('m') == Some(MB),
        r.spec_get('g') == Some(GB),
        r.spec_get('t') == Some(TB),
        r.spec_get('p') == Some(PB),
        forall|c: char| c != 'k' && c != 'm' && c != 'g' && c != 't' && c != 'p' ==> #[trigger] r.spec_get(c) is None,
{
    SizeMap::of_powers(1000)
}

/// The abbreviations of decimal units, from bytes to yottabytes.
pub fn get_decimal_abbrs() -> (r: Vec<String>)
    ensures
        r@.map_values(|s: String| s@) == seq!["B"@, "KB"@, "MB"@, "GB"@, "TB"@, "PB"@, "EB"@, "ZB"@, "YB"@],
{
    let r = vec![
        String::from_str("B"),
        String::from_str("KB"),
        String::from_str("MB"),
        String::from_str("GB"),
        String::from_str("TB"),
        String::from_str("PB"),
        String::from_str("EB"),
        String::from_str("ZB"),
        String::from_str("YB"),
    ];
    assert(r@.map_values(|s: String| s@) =~= seq!["B"@, "KB"@, "MB"@, "GB"@, "TB"@, "PB"@, "EB"@, "ZB"@, "YB"@]);
    r
}

/// Whether `c` is a size suffix letter, in either case.
pub open spec fn is_multiplier_letter(c: char) -> bool {
    c == 'k' || c == 'K' || c == 'm' || c == 'M' || c == 'g' || c == 'G' || c == 't' || c == 'T'
        || c == 'p' || c == 'P'
}

/// The text without one trailing `b` or `B`.
pub open spec fn strip_byte_suffix(s: Seq<char>) -> Seq<char> {
    if s.len() > 0 && (s.last() == 'b' || s.last() == 'B') {
        s.drop_last()
    } else {
        s
    }
}

/// The size that the trimmed number `number` with suffix letter `letter`
/// stands for under `m`.
pub open spec fn spec_size_from_number(number: Seq<char>, letter: char, m: SizeMap) -> Option<u128> {
    match (parse_unsigned(number, u128::MAX as nat), m.spec_get(letter)) {
        (Some(n), Some(k)) => if n * k <= u128::MAX {
            Some((n * k) as u128)
        } else {
            None
        },
        _ => None,
    }
}

/// The size of `number` (already trimmed) units of the suffix letter
/// `letter`; an error where the number does not parse, the letter has no
/// multiplier in `m`, or the size exceeds `u128`.
pub fn size_from_number(number: &str, letter: char, m: &SizeMap) -> (r: Result<u128, FsError>)
    ensures
        match spec_size_from_number(number@, letter, *m) {
            Some(v) => r == Ok::<u128, FsError>(v),
            None => r matches Err(e) && e.kind is InvalidBytesSize,
        },
{
    let digits = chars_of(number);
    let n = match parse_decimal(&digits, u128::MAX) {
        Some(n) => n,
        None => {
            return Err(FsError::new(FsErrorKind::InvalidBytesSize));
        },
    };
    let k = match m.get(letter) {
        Some(k) => k,
        None => {
            return Err(FsError::new(FsErrorKind::InvalidBytesSize));
        },
    };
    match n.checked_mul(k) {
        Some(v) => Ok(v),
        None => Err(FsError::new(FsErrorKind::InvalidBytesSize)),
    }
}

/// The size that `s` stands for: surrounding whitespace and one trailing
/// `b`/`B` are ignored; the last character is a suffix letter and what
/// precedes it, trimmed, a non-empty number.
pub open spec fn spec_parse_size(s: Seq<char>, m: SizeMap) -> Option<u128> {
    let t = strip_byte_suffix(trim_of(s));
    if t.len() == 0 || !is_multiplier_letter(t.last()) {
        None
    } else {
        let num = trim_of(t.drop_last());
        if num.len() == 0 {
            None
        } else {
            spec_size_from_number(num, t.last(), m)
        }
    }
}

/// Parses a human-readable size such as `2MB` or `1k` with the multipliers
/// of `m`.
pub fn parse_size(s: &str, m: &SizeMap) -> (r: Result<u128, FsError>)
    ensures
        match spec_parse_size(s@, *m) {
            Some(v) => r == Ok::<u128, FsError>(v),
            None => r matches Err(e) && e.kind is InvalidBytesSize,
        },
{
    let t = chars_of(trim_str(s));
    let t = if t.len() > 0 && (t[t.len() - 1] == 'b' || t[t.len() - 1] == 'B') {
        slice_chars(&t, 0, t.len() - 1)
    } else {
        t
    };
    if t.len() == 0 {
        return Err(FsError::new(FsErrorKind::InvalidBytesSize));
    }
    let last = t[t.len() - 1];
    if !(last == 'k' || last == 'K' || last == 'm' || last == 'M' || last == 'g' || last == 'G'
        || last == 't' || last == 'T' || last == 'p' || last == 'P') {
        return Err(FsError::new(FsErrorKind::InvalidBytesSize));
    }
    let head = string_of(&slice_chars(&t, 0, t.len() - 1));
    assert(head@ == t@.drop_last());
    let num = trim_str(head.as_str());
    if num.unicode_len() == 0 {
        return Err(FsError::new(FsErrorKind::InvalidBytesSize));
    }
    size_from_number(num, last, m)
}

} // verus!

verus! {

/// The hugetlb controller of a cgroup: where it is, and which page sizes
/// the host supports.
#[derive(Debug, Clone)]
pub struct HugeTlbController {
    base: String,
    path: String,
    sizes: Vec<String>,
    v2: bool,
}

impl HugeTlbController {
    pub closed spec fn spec_sizes(&self) -> Seq<Seq<char>> {
        self.sizes@.map_values(|s: String| s@)
    }

    pub closed spec fn spec_v2(&self) -> bool {
        self.v2
    }

    /// The controller of the cgroup at `point` under the hierarchy root
    /// `root`, on a host with the hugepage sizes `sizes` (such as `2MB`).
    pub fn new(point: String, root: String, sizes: Vec<String>, v2: bool) -> (r: Self)
        ensures
            r.spec_sizes() == sizes@.map_values(|s: String| s@),
            r.spec_v2() == v2,
    {
        Self { base: root, path: point, sizes, v2 }
    }

    /// Whether the host supports hugepages of size `hugetlb_size`.
    pub fn size_supported(&self, hugetlb_size: &str) -> (r: bool)
        ensures
            r == self.spec_sizes().contains(hugetlb_size@),
    {
        let want = String::from_str(hugetlb_size);
        let ghost sz = self.spec_sizes();
        let mut i: usize = 0;
        while i < self.sizes.len()
            invariant
                sz == self.spec_sizes(),
                want@ == hugetlb_size@,
                i <= sz.len(),
                forall|j: int| 0 <= j < i ==> sz[j] != hugetlb_size@,
            decreases sz.len() - i,
        {
            if self.sizes[i] == want {
                assert(sz[i as int] == hugetlb_size@);
                return true;
            }
            i = i + 1;
        }
        false
    }

    /// The hugepage sizes of the host.
    pub fn get_sizes(&self) -> (r: Vec<String>)
        ensures
            r@.map_values(|s: String| s@) == self.spec_sizes(),
    {
        let mut r: Vec<String> = Vec::new();
        let mut i: usize = 0;
        while i < self.sizes.len()
            invariant
                i <= self.sizes@.len(),
                r@.map_values(|s: String| s@) == self.spec_sizes().take(i as int),
            decreases self.sizes@.len() - i,
        {
            let ghost before = r@.map_values(|s: String| s@);
            r.push(self.sizes[i].clone());
            assert(r@.map_values(|s: String| s@) =~= before.push(self.sizes@[i as int]@));
            i = i + 1;
            assert(self.spec_sizes().take(i as int) =~= before.push(self.sizes@[(i - 1) as int]@));
        }
        assert(self.spec_sizes().take(self.sizes@.len() as int) =~= self.spec_sizes());
        r
    }

    fn file_for(size: &str, suffix: &str) -> (r: String)
        ensures
            r@ == "hugetlb."@ + size@ + suffix@,
    {
        let mut r = String::from_str("hugetlb.");
        push_str(&mut r, size);
        push_str(&mut r, suffix);
        r
    }

    /// The control file that holds how many times the limit of
    /// `hugetlb_size` hugepages was hit (`events` on cgroup v2, whose first
    /// entry counts it).
    pub fn failcnt(&self, hugetlb_size: &str) -> (r: String)
        ensures
            r@ == "hugetlb."@ + hugetlb_size@ + if self.spec_v2() { ".events"@ } else { ".failcnt"@ },
    {
        if self.v2 {
            Self::file_for(hugetlb_size, ".events")
        } else {
            Self::file_for(hugetlb_size, ".failcnt")
        }
    }

    /// The control file that holds the limit of memory backed by
    /// `hugetlb_size` hugepages.
    pub fn limit_in_bytes(&self, hugetlb_size: &str) -> (r: String)
        ensures
            r@ == "hugetlb."@ + hugetlb_size@ + if self.spec_v2() { ".max"@ } else { ".limit_in_bytes"@ },
    {
        if self.v2 {
            Self::file_for(hugetlb_size, ".max")
        } else {
            Self::file_for(hugetlb_size, ".limit_in_bytes")
        }
    }

    /// The control file that holds the current usage of memory backed by
    /// `hugetlb_size` hugepages.
    pub fn usage_in_bytes(&self, hugetlb_size: &str) -> (r: String)
        ensures
            r@ == "hugetlb."@ + hugetlb_size@ + if self.spec_v2() { ".current"@ } else { ".usage_in_bytes"@ },
    {
        if self.v2 {
            Self::file_for(hugetlb_size, ".current")
        } else {
            Self::file_for(hugetlb_size, ".usage_in_bytes")
        }
    }

    /// The control file that holds the largest usage seen of memory backed
    /// by `hugetlb_size` hugepages.
    pub fn max_usage_in_bytes(&self, hugetlb_size: &str) -> (r: String)
        ensures
            r@ == "hugetlb."@ + hugetlb_size@ + ".max_usage_in_bytes"@,
    {
        Self::file_for(hugetlb_size, ".max_usage_in_bytes")
    }

    /// The write that limits memory backed by `hugetlb_size` hugepages to
    /// `limit` bytes.
    pub fn set_limit_in_bytes(&self, hugetlb_size: &str, limit: u64) -> (r: CgroupOp)
        ensures
            r matches CgroupOp::SetHugepageLimit(s, l) && s@ == hugetlb_size@ && l == limit,
    {
        CgroupOp::SetHugepageLimit(String::from_str(hugetlb_size), limit)
    }
}

} // verus!
