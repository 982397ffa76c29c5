//! The host's cgroup topology, read from `/proc/self/cgroup` and
//! `/proc/self/mountinfo`.
use vstd::prelude::*;

use crate::text::{
    chars_eq, chars_of, lines, lines_of, slice_chars, split_chars, split_on, string_of, views,
};

verus! {

/// The content of a list of key-value pairs.
pub open spec fn pairs_view(ps: Seq<(String, String)>) -> Seq<(Seq<char>, Seq<char>)> {
    ps.map_values(|p: (String, String)| (p.0@, p.1@))
}

/// The index of the first pair with key `k`.
pub open spec fn key_index(m: Seq<(Seq<char>, Seq<char>)>, k: Seq<char>) -> Option<int>
    decreases m.len(),
{
    if m.len() == 0 {
        None
    } else {
        match key_index(m.drop_last(), k) {
            Some(i) => Some(i),
            None => if m.last().0 == k {
                Some(m.len() - 1)
            } else {
                None
            },
        }
    }
}

/// `m` with `k` mapped to `v`, as `HashMap::insert` does: the value of an
/// existing key is replaced, a new key is added.
pub open spec fn insert_kv(m: Seq<(Seq<char>, Seq<char>)>, k: Seq<char>, v: Seq<char>) -> Seq<(Seq<char>, Seq<char>)> {
    match key_index(m, k) {
        Some(i) => m.update(i, (k, v)),
        None => m.push((k, v)),
    }
}

/// Whether `m` has the key `k`.
pub open spec fn has_key(m: Seq<(Seq<char>, Seq<char>)>, k: Seq<char>) -> bool {
    key_index(m, k) is Some
}

fn find_key(m: &Vec<(String, String)>, k: &Vec<char>) -> (r: Option<usize>)
    ensures
        r matches Some(i) ==> key_index(pairs_view(m@), k@) == Some(i as int) && i < m@.len(),
        r is None ==> key_index(pairs_view(m@), k@) is None,
{
    let ghost pv = pairs_view(m@);
    let mut i: usize = 0;
    while i < m.len()
        invariant
            pv == pairs_view(m@),
            i <= m@.len(),
            key_index(pv.take(i as int), k@) is None,
        decreases m@.len() - i,
    {
        assert(pv.take(i + 1).drop_last() =~= pv.take(i as int));
        assert(pv[i as int].0 == m@[i as int].0@);
        if chars_eq(&chars_of(m[i].0.as_str()), k) {
            proof {
                lemma_key_prefix(pv, i + 1, k@);
            }
            return Some(i);
        }
        i = i + 1;
    }
    assert(pv.take(pv.len() as int) =~= pv);
    None
}

proof fn lemma_key_prefix(m: Seq<(Seq<char>, Seq<char>)>, n: int, k: Seq<char>)
    requires
        0 <= n <= m.len(),
        key_index(m.take(n), k) is Some,
    ensures
        key_index(m, k) == key_index(m.take(n), k),
    decreases m.len() - n,
{
    if n < m.len() {
        assert(m.take(n + 1).drop_last() =~= m.take(n));
        lemma_key_prefix(m, n + 1, k);
    } else {
        assert(m.take(n) =~= m);
    }
}

fn insert_pair(m: &mut Vec<(String, String)>, k: &Vec<char>, v: &Vec<char>)
    ensures
        pairs_view(final(m)@) == insert_kv(pairs_view(old(m)@), k@, v@),
{
    let ghost pv = pairs_view(m@);
    let pair = (string_of(k), string_of(v));
    match find_key(m, k) {
        Some(i) => {
            m.set(i, pair);
            assert(pairs_view(m@) =~= pv.update(i as int, (k@, v@)));
        },
        None => {
            m.push(pair);
            assert(pairs_view(m@) =~= pv.push((k@, v@)));
        },
    }
}

/// `m` with each of `keys` mapped to `v`, in order.
pub open spec fn insert_all(m: Seq<(Seq<char>, Seq<char>)>, keys: Seq<Seq<char>>, v: Seq<char>) -> Seq<(Seq<char>, Seq<char>)>
    decreases keys.len(),
{
    if keys.len() == 0 {
        m
    } else {
        insert_kv(insert_all(m, keys.drop_last(), v), keys.last(), v)
    }
}

/// The subsystem paths that lines `<id>:<subsystems>:<path>` give, each
/// subsystem of the comma-separated list mapped to the path, later lines
/// overriding earlier ones; lines of another shape are skipped.
pub open spec fn subsystem_paths(ls: Seq<Seq<char>>) -> Seq<(Seq<char>, Seq<char>)>
    decreases ls.len(),
{
    if ls.len() == 0 {
        Seq::empty()
    } else {
        let m = subsystem_paths(ls.drop_last());
        let parts = split_on(ls.last(), ':');
        if parts.len() != 3 {
            m
        } else {
            insert_all(m, split_on(parts[1], ','), parts[2])
        }
    }
}

/// Parses the text of `/proc/self/cgroup` into subsystem paths; on cgroup
/// v2 the one entry has the empty name.
pub fn parse_cgroup_subsystems(data: &str) -> (r: Vec<(String, String)>)
    ensures
        pairs_view(r@) == subsystem_paths(lines(data@)),
{
    let c = chars_of(data);
    let ls = lines_of(&c);
    let ghost lv = lines(data@);
    let mut m: Vec<(String, String)> = Vec::new();
    assert(pairs_view(m@) =~= subsystem_paths(lv.take(0)));
    let mut k: usize = 0;
    while k < ls.len()
        invariant
            views(ls@) == lv,
            lv == lines(data@),
            k <= lv.len(),
            pairs_view(m@) == subsystem_paths(lv.take(k as int)),
        decreases lv.len() - k,
    {
        assert(lv.take(k + 1).drop_last() =~= lv.take(k as int));
        assert(lv.take(k + 1).last() == ls@[k as int]@);
        let parts = split_chars(&ls[k], ':');
        if parts.len() == 3 {
            assert(views(parts@)[1] == parts@[1]@);
            assert(views(parts@)[2] == parts@[2]@);
            let subs = split_chars(&parts[1], ',');
            let ghost sv = views(subs@);
            let ghost m0 = pairs_view(m@);
            let mut j: usize = 0;
            while j < subs.len()
                invariant
                    views(subs@) == sv,
                    parts@.len() == 3,
                    j <= sv.len(),
                    pairs_view(m@) == insert_all(m0, sv.take(j as int), parts@[2]@),
                decreases sv.len() - j,
            {
                assert(sv.take(j + 1).drop_last() =~= sv.take(j as int));
                assert(sv.take(j + 1).last() == subs@[j as int]@);
                insert_pair(&mut m, &subs[j], &parts[2]);
                j = j + 1;
            }
            assert(sv.take(sv.len() as int) =~= sv);
        }
        k = k + 1;
    }
    assert(lv.take(lv.len() as int) =~= lv);
    m
}

/// The separator of the two halves of a mountinfo line.
pub open spec fn is_sep_at(s: Seq<char>, i: int) -> bool {
    0 <= i && i + 3 <= s.len() && s[i] == ' ' && s[i + 1] == '-' && s[i + 2] == ' '
}

/// Where the first ` - ` of `s` starts.
pub open spec fn first_sep(s: Seq<char>) -> Option<int> {
    if exists|i: int| #[trigger] is_sep_at(s, i) {
        Some(choose|i: int| is_sep_at(s, i) && forall|j: int| 0 <= j < i ==> !#[trigger] is_sep_at(s, j))
    } else {
        None
    }
}

fn find_sep(s: &Vec<char>) -> (r: Option<usize>)
    ensures
        match r {
            Some(i) => is_sep_at(s@, i as int) && forall|j: int| 0 <= j < i ==> !#[trigger] is_sep_at(s@, j),
            None => forall|j: int| !#[trigger] is_sep_at(s@, j),
        },
{
    let mut i: usize = 0;
    while i < s.len() && s.len() - i >= 3
        invariant
            i <= s@.len(),
            forall|j: int| 0 <= j < i ==> !#[trigger] is_sep_at(s@, j),
        decreases s@.len() + 3 - i,
    {
        if s[i] == ' ' && s[i + 1] == '-' && s[i + 2] == ' ' {
            return Some(i);
        }
        i = i + 1;
    }
    assert forall|j: int| !#[trigger] is_sep_at(s@, j) by {
        if j >= i {
            assert(j + 3 > s@.len());
        }
    }
    None
}

/// The mount of each known subsystem that one mountinfo line gives: for a
/// `cgroup` or `cgroup2` filesystem (right of ` - `: type, source, super
/// options), each super option that is a key of `paths` maps to the mount
/// point (the fifth field left of ` - `). Lines of another shape give
/// nothing.
pub open spec fn line_mounts(
    m: Seq<(Seq<char>, Seq<char>)>,
    line: Seq<char>,
    paths: Seq<(Seq<char>, Seq<char>)>,
) -> Seq<(Seq<char>, Seq<char>)> {
    match first_sep(line) {
        None => m,
        Some(i) => {
            let left = split_on(line.take(i), ' ');
            let right = split_on(line.skip(i + 3), ' ');
            if right.len() != 3 || left.len() < 5 || !(right[0] == "cgroup"@ || right[0] == "cgroup2"@) {
                m
            } else {
                insert_known(m, split_on(right[2], ','), left[4], paths)
            }
        },
    }
}

/// `m` with those of `opts` that are keys of `paths` mapped to `v`.
pub open spec fn insert_known(
    m: Seq<(Seq<char>, Seq<char>)>,
    opts: Seq<Seq<char>>,
    v: Seq<char>,
    paths: Seq<(Seq<char>, Seq<char>)>,
) -> Seq<(Seq<char>, Seq<char>)>
    decreases opts.len(),
{
    if opts.len() == 0 {
        m
    } else {
        let prev = insert_known(m, opts.drop_last(), v, paths);
        if has_key(paths, opts.last()) {
            insert_kv(prev, opts.last(), v)
        } else {
            prev
        }
    }
}

/// The subsystem mounts that mountinfo lines give.
pub open spec fn subsystem_mounts(ls: Seq<Seq<char>>, paths: Seq<(Seq<char>, Seq<char>)>) -> Seq<(Seq<char>, Seq<char>)>
    decreases ls.len(),
{
    if ls.len() == 0 {
        Seq::empty()
    } else {
        line_mounts(subsystem_mounts(ls.drop_last(), paths), ls.last(), paths)
    }
}

fn is_cgroup_fs(t: &Vec<char>) -> (r: bool)
    ensures
        r == (t@ == "cgroup"@ || t@ == "cgroup2"@),
{
    let a = chars_of("cgroup");
    let b = chars_of("cgroup2");
    chars_eq(t, &a) || chars_eq(t, &b)
}

/// Parses the text of `/proc/self/mountinfo` into the mount points of the
/// subsystems that `paths` names.
pub fn parse_cgroup_mountinfo(data: &str, paths: &Vec<(String, String)>) -> (r: Vec<(String, String)>)
    ensures
        pairs_view(r@) == subsystem_mounts(lines(data@), pairs_view(paths@)),
{
    let c = chars_of(data);
    let ls = lines_of(&c);
    let ghost lv = lines(data@);
    let ghost pv = pairs_view(paths@);
    let mut m: Vec<(String, String)> = Vec::new();
    assert(pairs_view(m@) =~= subsystem_mounts(lv.take(0), pv));
    let mut k: usize = 0;
    while k < ls.len()
        invariant
            views(ls@) == lv,
            lv == lines(data@),
            pv == pairs_view(paths@),
            k <= lv.len(),
            pairs_view(m@) == subsystem_mounts(lv.take(k as int), pv),
        decreases lv.len() - k,
    {
        assert(lv.take(k + 1).drop_last() =~= lv.take(k as int));
        assert(lv.take(k + 1).last() == ls@[k as int]@);
        mount_line(&mut m, &ls[k], paths);
        k = k + 1;
    }
    assert(lv.take(lv.len() as int) =~= lv);
    m
}

fn mount_line(m: &mut Vec<(String, String)>, line: &Vec<char>, paths: &Vec<(String, String)>)
    ensures
        pairs_view(final(m)@) == line_mounts(pairs_view(old(m)@), line@, pairs_view(paths@)),
{
    let ghost pv = pairs_view(paths@);
    let i = match find_sep(line) {
        Some(i) => i,
        None => {
            assert(first_sep(line@) is None);
            return;
        },
    };
    assert(first_sep(line@) == Some(i as int)) by {
        let j = choose|j: int| is_sep_at(line@, j) && forall|x: int| 0 <= x < j ==> !#[trigger] is_sep_at(line@, x);
        if j < i {
            assert(!is_sep_at(line@, j));
        }
        if j > i {
            assert(!is_sep_at(line@, i as int));
        }
    }
    assert(is_sep_at(line@, i as int));
    let n = line.len();
    assert(i + 3 <= n);
    let head = slice_chars(line, 0, i);
    let tail = slice_chars(line, i + 3, n);
    assert(head@ =~= line@.take(i as int));
    assert(tail@ =~= line@.skip(i + 3));
    let left = split_chars(&head, ' ');
    let right = split_chars(&tail, ' ');
    if right.len() != 3 || left.len() < 5 {
        return;
    }
    assert(views(right@)[0] == right@[0]@);
    assert(views(right@)[2] == right@[2]@);
    assert(views(left@)[4] == left@[4]@);
    if !is_cgroup_fs(&right[0]) {
        return;
    }
    let opts = split_chars(&right[2], ',');
    let ghost ov = views(opts@);
    let ghost m0 = pairs_view(m@);
    let mut j: usize = 0;
    while j < opts.len()
        invariant
            views(opts@) == ov,
            left@.len() >= 5,
            pv == pairs_view(paths@),
            j <= ov.len(),
            pairs_view(m@) == insert_known(m0, ov.take(j as int), left@[4]@, pv),
        decreases ov.len() - j,
    {
        assert(ov.take(j + 1).drop_last() =~= ov.take(j as int));
        assert(ov.take(j + 1).last() == opts@[j as int]@);
        if find_key(paths, &opts[j]).is_some() {
            insert_pair(m, &opts[j], &left[4]);
        }
        j = j + 1;
    }
    assert(ov.take(ov.len() as int) =~= ov);
}

/// Whether a mountinfo line mounts a `cgroup2` filesystem at the unified
/// mount point.
#[verifier::opaque]
pub open spec fn is_unified_line(line: Seq<char>) -> bool {
    match first_sep(line) {
        None => false,
        Some(i) => {
            let left = split_on(line.take(i), ' ');
            let right = split_on(line.skip(i + 3), ' ');
            left.len() >= 5 && right.len() >= 1 && left[4] == crate::fs_manager::UNIFIED_MOUNTPOINT@
                && right[0] == "cgroup2"@
        },
    }
}

fn unified_line(line: &Vec<char>) -> (r: bool)
    ensures
        r == is_unified_line(line@),
{
    reveal(is_unified_line);
    let i = match find_sep(line) {
        Some(i) => i,
        None => {
            assert(first_sep(line@) is None);
            return false;
        },
    };
    assert(first_sep(line@) == Some(i as int)) by {
        let j = choose|j: int| is_sep_at(line@, j) && forall|x: int| 0 <= x < j ==> !#[trigger] is_sep_at(line@, x);
        if j < i {
            assert(!is_sep_at(line@, j));
        }
        if j > i {
            assert(!is_sep_at(line@, i as int));
        }
    }
    let n = line.len();
    assert(i + 3 <= n);
    let head = slice_chars(line, 0, i);
    let tail = slice_chars(line, i + 3, n);
    assert(head@ =~= line@.take(i as int));
    assert(tail@ =~= line@.skip(i + 3));
    let left = split_chars(&head, ' ');
    let right = split_chars(&tail, ' ');
    if left.len() < 5 || right.len() < 1 {
        return false;
    }
    assert(views(left@)[4] == left@[4]@);
    assert(views(right@)[0] == right@[0]@);
    let unified = chars_of(crate::fs_manager::UNIFIED_MOUNTPOINT);
    let fstype = chars_of("cgroup2");
    chars_eq(&left[4], &unified) && chars_eq(&right[0], &fstype)
}

/// Whether the host uses the unified (v2) hierarchy: the text of
/// `/proc/self/mountinfo` mounts `cgroup2` at `/sys/fs/cgroup`.
pub fn is_cgroup2_unified_mode(mountinfo: &str) -> (r: bool)
    ensures
        r == exists|k: int| 0 <= k < lines(mountinfo@).len() && #[trigger] is_unified_line(lines(mountinfo@)[k]),
{
    let c = chars_of(mountinfo);
    let ls = lines_of(&c);
    let ghost lv = lines(mountinfo@);
    let mut k: usize = 0;
    while k < ls.len()
        invariant
            views(ls@) == lv,
            lv == lines(mountinfo@),
            k <= lv.len(),
            forall|j: int| 0 <= j < k ==> !#[trigger] is_unified_line(lv[j]),
        decreases lv.len() - k,
    {
        assert(lv[k as int] == ls@[k as int]@);
        if unified_line(&ls[k]) {
            return true;
        }
        k = k + 1;
    }
    false
}

} // verus!
