//! Naming rules of systemd units and the expansion of slices into paths.
use vstd::prelude::*;

use crate::error::SystemdError;
use crate::text::{
    chars_end_with, chars_of, ends_with, has_char, join_with, lemma_join_split, lemma_split_join,
    lemma_split_on_nonempty, lemma_trim_suffixes, push_chars, slice_chars, split_chars, split_on,
    string_of, trim_suffixes, views,
};

verus! {

/// The suffix of slice units.
pub const SLICE_SUFFIX: &'static str = ".slice";

/// The suffix of scope units.
pub const SCOPE_SUFFIX: &'static str = ".scope";

/// The slice that units go to when none is given.
pub const DEFAULT_SLICE: &'static str = "system.slice";

pub open spec fn slice_suffix() -> Seq<char> {
    seq!['.', 's', 'l', 'i', 'c', 'e']
}

pub open spec fn scope_suffix() -> Seq<char> {
    seq!['.', 's', 'c', 'o', 'p', 'e']
}

pub open spec fn default_slice() -> Seq<char> {
    seq!['s', 'y', 's', 't', 'e', 'm'] + slice_suffix()
}

fn slice_suffix_chars() -> (r: Vec<char>)
    ensures
        r@ == slice_suffix(),
{
    let r = vec!['.', 's', 'l', 'i', 'c', 'e'];
    assert(r@ =~= slice_suffix());
    r
}

fn scope_suffix_chars() -> (r: Vec<char>)
    ensures
        r@ == scope_suffix(),
{
    let r = vec!['.', 's', 'c', 'o', 'p', 'e'];
    assert(r@ =~= scope_suffix());
    r
}

/// Whether a unit name names a slice.
pub fn is_slice_unit(name: &str) -> (r: bool)
    ensures
        r == ends_with(name@, slice_suffix()),
{
    let n = chars_of(name);
    chars_end_with(&n, &slice_suffix_chars())
}

/// Whether a unit name names a scope.
pub fn is_scope_unit(name: &str) -> (r: bool)
    ensures
        r == ends_with(name@, scope_suffix()),
{
    let n = chars_of(name);
    chars_end_with(&n, &scope_suffix_chars())
}

/// Whether a cgroup path is in the systemd form `slice:prefix:name`: three
/// colon-separated parts, the first naming a slice.
pub open spec fn spec_is_systemd_cgroup(path: Seq<char>) -> bool {
    let parts = split_on(path, ':');
    parts.len() == 3 && ends_with(parts[0], slice_suffix())
}

/// Checks whether the cgroups path is a systemd cgroup.
pub fn is_systemd_cgroup(cgroups_path: &str) -> (r: bool)
    ensures
        r == spec_is_systemd_cgroup(cgroups_path@),
{
    let c = chars_of(cgroups_path);
    let parts = split_chars(&c, ':');
    if parts.len() != 3 {
        return false;
    }
    assert(views(parts@)[0] == parts@[0]@);
    chars_end_with(&parts[0], &slice_suffix_chars())
}

/// The unit name for `name` under `scope_prefix`: a slice name stays as it
/// is; otherwise a scope `{scope_prefix}-{name}.scope`, or `{name}.scope`
/// without a prefix.
pub open spec fn spec_unit_name(scope_prefix: Seq<char>, name: Seq<char>) -> Seq<char> {
    if ends_with(name, slice_suffix()) {
        name
    } else if scope_prefix.len() == 0 {
        name + scope_suffix()
    } else {
        scope_prefix + seq!['-'] + name + scope_suffix()
    }
}

fn unit_name_of(scope_prefix: &Vec<char>, name: &Vec<char>) -> (r: String)
    ensures
        r@ == spec_unit_name(scope_prefix@, name@),
{
    if chars_end_with(name, &slice_suffix_chars()) {
        return string_of(name);
    }
    let mut r = String::new();
    if scope_prefix.len() > 0 {
        push_chars(&mut r, scope_prefix);
        push_chars(&mut r, &vec!['-']);
    }
    push_chars(&mut r, name);
    push_chars(&mut r, &scope_suffix_chars());
    assert(r@ =~= spec_unit_name(scope_prefix@, name@));
    r
}

/// Derives the unit name: by default a scope, unless a slice is asked for.
pub fn new_unit_name(scope_prefix: &str, name: &str) -> (r: String)
    ensures
        r@ == spec_unit_name(scope_prefix@, name@),
{
    unit_name_of(&chars_of(scope_prefix), &chars_of(name))
}

/// The slice and the unit that a systemd cgroup path `slice:prefix:name`
/// stands for; `None` unless the path has exactly three parts.
pub open spec fn spec_slice_and_unit(path: Seq<char>) -> Option<(Seq<char>, Seq<char>)> {
    let parts = split_on(path, ':');
    if parts.len() != 3 {
        None
    } else {
        let slice = if parts[0].len() == 0 {
            default_slice()
        } else {
            parts[0]
        };
        Some((slice, spec_unit_name(parts[1], parts[2])))
    }
}

/// Splits a systemd cgroup path into its slice and its unit name.
pub fn parse_slice_and_unit(path: &str) -> (r: Result<(String, String), SystemdError>)
    ensures
        match spec_slice_and_unit(path@) {
            Some((s, u)) => r matches Ok((rs, ru)) && rs@ == s && ru@ == u,
            None => r == Err::<(String, String), SystemdError>(SystemdError::InvalidArgument),
        },
{
    let c = chars_of(path);
    let parts = split_chars(&c, ':');
    if parts.len() != 3 {
        return Err(SystemdError::InvalidArgument);
    }
    assert(views(parts@)[0] == parts@[0]@);
    assert(views(parts@)[1] == parts@[1]@);
    assert(views(parts@)[2] == parts@[2]@);
    let slice = if parts[0].len() == 0 {
        let mut s = String::new();
        push_chars(&mut s, &vec!['s', 'y', 's', 't', 'e', 'm']);
        push_chars(&mut s, &slice_suffix_chars());
        assert(s@ =~= default_slice());
        s
    } else {
        string_of(&parts[0])
    };
    let unit = unit_name_of(&parts[1], &parts[2]);
    Ok((slice, unit))
}

/// The slices from the top one down to the leaf that a slice name made of
/// the given dash-separated tokens stands for: `a`, `a-b`, `a-b-c`, each
/// with the slice suffix.
pub open spec fn slice_levels(tokens: Seq<Seq<char>>) -> Seq<Seq<char>> {
    Seq::new(tokens.len(), |k: int| join_with(tokens.take(k + 1), '-') + slice_suffix())
}

/// The path of nested slice directories for a slice name, `None` where the
/// name is not a valid slice name.
pub open spec fn spec_expand_slice(slice: Seq<char>) -> Option<Seq<char>> {
    if !ends_with(slice, slice_suffix()) || has_char(slice, '/') {
        None
    } else {
        let name = trim_suffixes(slice, slice_suffix());
        if name == seq!['-'] {
            Some(Seq::empty())
        } else {
            let tokens = split_on(name, '-');
            if exists|k: int| 0 <= k < tokens.len() && (#[trigger] tokens[k]).len() == 0 {
                None
            } else {
                Some(join_with(slice_levels(tokens), '/'))
            }
        }
    }
}

/// Expands a slice name to its path in the filesystem:
/// `a-b-c.slice` becomes `a.slice/a-b.slice/a-b-c.slice`, and the root
/// slice `-.slice` becomes the empty path.
pub fn expand_slice(slice: &str) -> (r: Result<String, SystemdError>)
    ensures
        match spec_expand_slice(slice@) {
            Some(p) => r matches Ok(s) && s@ == p,
            None => r == Err::<String, SystemdError>(SystemdError::InvalidArgument),
        },
{
    let c = chars_of(slice);
    let suffix = slice_suffix_chars();
    if !chars_end_with(&c, &suffix) {
        return Err(SystemdError::InvalidArgument);
    }
    let mut i: usize = 0;
    while i < c.len()
        invariant
            c@ == slice@,
            i <= c@.len(),
            forall|j: int| 0 <= j < i ==> c@[j] != '/',
        decreases c@.len() - i,
    {
        if c[i] == '/' {
            assert(c@[i as int] == '/');
            assert(has_char(slice@, '/'));
            return Err(SystemdError::InvalidArgument);
        }
        i = i + 1;
    }
    assert(!has_char(slice@, '/'));
    let mut name = c.clone();
    while chars_end_with(&name, &suffix)
        invariant
            suffix@ == slice_suffix(),
            trim_suffixes(name@, slice_suffix()) == trim_suffixes(c@, slice_suffix()),
        decreases name@.len(),
    {
        name = slice_chars(&name, 0, name.len() - suffix.len());
    }
    assert(trim_suffixes(name@, slice_suffix()) == name@);
    if name.len() == 1 && name[0] == '-' {
        assert(name@ =~= seq!['-']);
        return Ok(String::new());
    }
    assert(name@ != seq!['-']);
    let tokens = split_chars(&name, '-');
    let ghost tk = split_on(name@, '-');
    let mut path = String::new();
    let mut prefix: Vec<char> = Vec::new();
    let mut k: usize = 0;
    while k < tokens.len()
        invariant
            views(tokens@) == tk,
            tk == split_on(name@, '-'),
            name@ == trim_suffixes(slice@, slice_suffix()),
            name@ != seq!['-'],
            ends_with(slice@, slice_suffix()),
            !has_char(slice@, '/'),
            suffix@ == slice_suffix(),
            k <= tk.len(),
            prefix@ == join_with(tk.take(k as int), '-'),
            path@ == join_with(slice_levels(tk).take(k as int), '/'),
            forall|j: int| 0 <= j < k ==> (#[trigger] tk[j]).len() > 0,
        decreases tk.len() - k,
    {
        assert(tk[k as int] == tokens@[k as int]@);
        if tokens[k].len() == 0 {
            assert(tk[k as int].len() == 0);
            return Err(SystemdError::InvalidArgument);
        }
        let ghost levels = slice_levels(tk);
        assert(tk.take(k + 1).drop_last() == tk.take(k as int));
        assert(levels.take(k + 1).drop_last() == levels.take(k as int));
        if k > 0 {
            prefix.push('-');
        }
        let tok = &tokens[k];
        let mut j: usize = 0;
        let ghost before = prefix@;
        while j < tok.len()
            invariant
                j <= tok@.len(),
                prefix@ == before + tok@.take(j as int),
            decreases tok@.len() - j,
        {
            prefix.push(tok[j]);
            j = j + 1;
            assert(prefix@ =~= before + tok@.take(j as int));
        }
        assert(tok@.take(tok@.len() as int) == tok@);
        assert(prefix@ =~= join_with(tk.take(k + 1), '-')) by {
            if k == 0 {
                assert(tk.take(1) =~= seq![tk[0]]);
            } else {
                assert(tk.take(k + 1).last() == tk[k as int]);
                assert(tk.take(k + 1).len() == k + 1);
            }
        }
        if k > 0 {
            let slash = vec!['/'];
            assert(slash@ =~= seq!['/']);
            push_chars(&mut path, &slash);
        }
        push_chars(&mut path, &prefix);
        push_chars(&mut path, &suffix);
        assert(levels[k as int] == prefix@ + slice_suffix());
        assert(path@ =~= join_with(levels.take(k + 1), '/')) by {
            if k == 0 {
                assert(levels.take(1) =~= seq![levels[0]]);
            } else {
                assert(levels.take(k + 1).last() == levels[k as int]);
                assert(levels.take(k + 1).len() == k + 1);
            }
        }
        k = k + 1;
    }
    assert(slice_levels(tk).take(tk.len() as int) =~= slice_levels(tk));
    Ok(path)
}

/// The last component of a slash-separated path.
pub open spec fn last_component(path: Seq<char>) -> Seq<char> {
    split_on(path, '/').last()
}

/// Expanding the leaf slice of an expanded slice path gives the same path.
pub proof fn lemma_expand_slice_leaf(slice: Seq<char>)
    requires
        spec_expand_slice(slice) is Some,
        spec_expand_slice(slice)->0.len() > 0,
    ensures
        spec_expand_slice(last_component(spec_expand_slice(slice)->0)) == spec_expand_slice(slice),
{
    let name = trim_suffixes(slice, slice_suffix());
    let tokens = split_on(name, '-');
    let levels = slice_levels(tokens);
    lemma_trim_suffixes(slice, slice_suffix());
    lemma_split_on_nonempty(name, '-');
    lemma_join_split(name, '-');
    assert(!has_char(name, '/')) by {
        if has_char(name, '/') {
            let i = choose|i: int| 0 <= i < name.len() && name[i] == '/';
            assert(slice[i] == '/');
        }
    }
    assert forall|k: int| 0 <= k < levels.len() implies !has_char(#[trigger] levels[k], '/') by {
        let t = tokens.take(k + 1);
        lemma_prefix_join_no_char(tokens, k + 1, name);
        if has_char(levels[k], '/') {
            let i = choose|i: int| 0 <= i < levels[k].len() && levels[k][i] == '/';
            if i < join_with(t, '-').len() {
                assert(join_with(t, '-')[i] == '/');
            } else {
                assert(slice_suffix()[i - join_with(t, '-').len()] == '/');
            }
        }
    }
    lemma_split_join(levels, '/');
    assert(tokens.take(tokens.len() as int) =~= tokens);
    let leaf = levels.last();
    assert(leaf == name + slice_suffix());
    assert(ends_with(leaf, slice_suffix())) by {
        assert(leaf.subrange(leaf.len() - 6, leaf.len() as int) =~= slice_suffix());
    }
    assert(!has_char(leaf, '/')) by {
        if has_char(leaf, '/') {
            let i = choose|i: int| 0 <= i < leaf.len() && leaf[i] == '/';
            if i < name.len() {
                assert(name[i] == '/');
            } else {
                assert(slice_suffix()[i - name.len()] == '/');
            }
        }
    }
}

/// A prefix of the tokens of `name`, joined back, holds no character that
/// `name` lacks.
proof fn lemma_prefix_join_no_char(tokens: Seq<Seq<char>>, n: int, name: Seq<char>)
    requires
        tokens == split_on(name, '-'),
        1 <= n <= tokens.len(),
        !has_char(name, '/'),
    ensures
        !has_char(join_with(tokens.take(n), '-'), '/'),
{
    lemma_no_char_in_tokens(name);
    lemma_join_no_char(tokens.take(n));
}

proof fn lemma_no_char_in_tokens(name: Seq<char>)
    requires
        !has_char(name, '/'),
    ensures
        forall|k: int|
            0 <= k < split_on(name, '-').len() ==> !has_char(#[trigger] split_on(name, '-')[k], '/'),
{
    lemma_join_split(name, '-');
    lemma_split_on_nonempty(name, '-');
    let p = split_on(name, '-');
    assert forall|k: int| 0 <= k < p.len() implies !has_char(#[trigger] p[k], '/') by {
        let off = lemma_part_within_join(p, k);
        if has_char(p[k], '/') {
            let i = choose|i: int| 0 <= i < p[k].len() && p[k][i] == '/';
            assert(name[off + i] == '/');
        }
    }
}

/// Each piece stands somewhere inside the join: at the offset returned.
proof fn lemma_part_within_join(p: Seq<Seq<char>>, k: int) -> (off: int)
    requires
        0 <= k < p.len(),
    ensures
        0 <= off,
        off + p[k].len() <= join_with(p, '-').len(),
        forall|j: int| 0 <= j < p[k].len() ==> join_with(p, '-')[off + j] == #[trigger] p[k][j],
    decreases p.len(),
{
    if p.len() == 1 {
        0
    } else if k == p.len() - 1 {
        join_with(p.drop_last(), '-').len() + 1int
    } else {
        let off = lemma_part_within_join(p.drop_last(), k);
        assert(p.drop_last()[k] == p[k]);
        off
    }
}

/// Joining pieces without `/` with dashes gives a text without `/`.
proof fn lemma_join_no_char(p: Seq<Seq<char>>)
    requires
        forall|k: int| 0 <= k < p.len() ==> !has_char(#[trigger] p[k], '/'),
    ensures
        !has_char(join_with(p, '-'), '/'),
    decreases p.len(),
{
    if p.len() > 1 {
        let q = p.drop_last();
        assert forall|k: int| 0 <= k < q.len() implies !has_char(#[trigger] q[k], '/') by {
            assert(q[k] == p[k]);
        }
        lemma_join_no_char(q);
        let a = join_with(q, '-');
        let b = p.last();
        assert(!has_char(b, '/')) by {
            assert(b == p[p.len() - 1]);
        }
        if has_char(join_with(p, '-'), '/') {
            let i = choose|i: int| 0 <= i < join_with(p, '-').len() && join_with(p, '-')[i] == '/';
            if i < a.len() {
                assert(a[i] == '/');
            } else if i > a.len() {
                assert(b[i - a.len() - 1] == '/');
            }
        }
    } else if p.len() == 1 {
        assert(!has_char(p[0], '/'));
    }
}

} // verus!
