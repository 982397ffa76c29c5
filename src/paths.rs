//! Path algebra of cgroup directories.
use vstd::prelude::*;

use crate::text::{chars_of, join_with, push_chars, split_chars, split_on, string_of, views};

verus! {

/// `path` appended to `base` as `Path::join` does: an absolute `path`
/// replaces `base`; otherwise a separator goes between them unless `base`
/// is empty or already ends with one.
pub open spec fn spec_join_path(base: Seq<char>, path: Seq<char>) -> Seq<char> {
    if path.len() > 0 && path[0] == '/' {
        path
    } else if base.len() == 0 || base.last() == '/' {
        base + path
    } else {
        base + seq!['/'] + path
    }
}

/// Joins `path` to `base` as a filesystem path.
pub fn join_path(base: &str, path: &str) -> (r: String)
    ensures
        r@ == spec_join_path(base@, path@),
{
    let b = chars_of(base);
    let p = chars_of(path);
    if p.len() > 0 && p[0] == '/' {
        return string_of(&p);
    }
    let mut r = string_of(&b);
    if b.len() > 0 && b[b.len() - 1] != '/' {
        let slash = vec!['/'];
        assert(slash@ =~= seq!['/']);
        push_chars(&mut r, &slash);
    }
    push_chars(&mut r, &p);
    r
}

/// The non-empty pieces, in order.
pub open spec fn nonempty_parts(parts: Seq<Seq<char>>) -> Seq<Seq<char>>
    decreases parts.len(),
{
    if parts.len() == 0 {
        Seq::empty()
    } else if parts.last().len() > 0 {
        nonempty_parts(parts.drop_last()).push(parts.last())
    } else {
        nonempty_parts(parts.drop_last())
    }
}

/// The components of a slash-separated path, empty ones left out.
pub open spec fn path_components(path: Seq<char>) -> Seq<Seq<char>> {
    nonempty_parts(split_on(path, '/'))
}

/// The components of a path.
pub fn components(path: &str) -> (r: Vec<Vec<char>>)
    ensures
        views(r@) == path_components(path@),
{
    let c = chars_of(path);
    let parts = split_chars(&c, '/');
    let ghost ps = split_on(path@, '/');
    let mut r: Vec<Vec<char>> = Vec::new();
    let mut k: usize = 0;
    while k < parts.len()
        invariant
            views(parts@) == ps,
            k <= ps.len(),
            views(r@) == nonempty_parts(ps.take(k as int)),
        decreases ps.len() - k,
    {
        assert(ps.take(k + 1).drop_last() =~= ps.take(k as int));
        assert(ps.take(k + 1).last() == parts@[k as int]@);
        if parts[k].len() > 0 {
            let ghost before = views(r@);
            let piece = crate::text::slice_chars(&parts[k], 0, parts[k].len());
            assert(piece@ =~= parts@[k as int]@);
            r.push(piece);
            assert(views(r@) =~= before.push(parts@[k as int]@));
        }
        k = k + 1;
    }
    assert(ps.take(ps.len() as int) =~= ps);
    r
}

/// The paths, relative to the hierarchy's root, of the ancestors of the
/// cgroup `base` below the root, from the top down: for `x/y/z`, `x` then
/// `x/y`. Neither the root nor `base` itself is among them.
pub open spec fn topdown_paths(base: Seq<char>) -> Seq<Seq<char>> {
    let comps = path_components(base);
    if comps.len() <= 1 {
        Seq::empty()
    } else {
        Seq::new((comps.len() - 1) as nat, |k: int| join_with(comps.take(k + 1), '/'))
    }
}

/// The ancestors of `base` between the root and `base`, from the top down.
pub fn ancestors_topdown(base: &str) -> (r: Vec<String>)
    ensures
        r@.map_values(|s: String| s@) == topdown_paths(base@),
{
    let comps = components(base);
    let ghost cs = path_components(base@);
    let mut r: Vec<String> = Vec::new();
    if comps.len() <= 1 {
        assert(r@.map_values(|s: String| s@) =~= topdown_paths(base@));
        return r;
    }
    let mut prefix = String::new();
    let mut k: usize = 0;
    while k < comps.len() - 1
        invariant
            views(comps@) == cs,
            cs.len() >= 2,
            k + 1 <= cs.len(),
            k > 0 ==> prefix@ == join_with(cs.take(k as int), '/'),
            k == 0 ==> prefix@ == Seq::<char>::empty(),
            r@.len() == k,
            forall|j: int| 0 <= j < r@.len() ==> r@[j]@ == join_with(cs.take(j + 1), '/'),
        decreases cs.len() - k,
    {
        assert(cs.take(k + 1).drop_last() =~= cs.take(k as int));
        assert(cs[k as int] == comps@[k as int]@);
        assert(cs.take(k + 1).last() == comps@[k as int]@);
        let ghost before = prefix@;
        if k > 0 {
            let slash = vec!['/'];
            assert(slash@ =~= seq!['/']);
            push_chars(&mut prefix, &slash);
        }
        push_chars(&mut prefix, &comps[k]);
        assert(prefix@ =~= join_with(cs.take(k + 1), '/')) by {
            if k == 0 {
                assert(cs.take(1) =~= seq![cs[0]]);
            } else {
                assert(prefix@ =~= before + seq!['/'] + comps@[k as int]@);
                let t = cs.take(k + 1);
                assert(t.len() == k + 1);
                assert(join_with(t, '/') == join_with(t.drop_last(), '/') + seq!['/'] + t.last());
            }
        }
        r.push(string_of(&chars_of(prefix.as_str())));
        k = k + 1;
    }
    assert(r@.map_values(|s: String| s@) =~= topdown_paths(base@));
    r
}

} // verus!
