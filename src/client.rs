//! The state that the systemd client keeps of its unit: the unit's name
//! and the properties it was (or will be) started with.
use vstd::prelude::*;

use crate::consts::{NO_SUCH_UNIT, PIDS};
use crate::error::DbusError;
use crate::props::{prop_view, props_view, property, Property, Value, ValueView};
use crate::text::{chars_of, parse_decimal, parse_unsigned, split_chars, split_on, views};
use crate::CgroupPid;

verus! {

/// A systemd unit (a slice or a scope) and its properties.
#[derive(Debug)]
pub struct SystemdClient {
    /// The name of the systemd unit
    unit: String,
    props: Vec<Property>,
}

/// The index of the first property named `name`.
pub open spec fn first_named(ps: Seq<(Seq<char>, ValueView)>, name: Seq<char>) -> Option<int>
    decreases ps.len(),
{
    if ps.len() == 0 {
        None
    } else {
        match first_named(ps.drop_last(), name) {
            Some(i) => Some(i),
            None => if ps.last().0 == name {
                Some(ps.len() - 1)
            } else {
                None
            },
        }
    }
}

proof fn lemma_first_named(ps: Seq<(Seq<char>, ValueView)>, name: Seq<char>)
    ensures
        first_named(ps, name) matches Some(i) ==> 0 <= i < ps.len() && ps[i].0 == name && forall|
            j: int,
        | 0 <= j < i ==> ps[j].0 != name,
        first_named(ps, name) is None ==> forall|j: int| 0 <= j < ps.len() ==> ps[j].0 != name,
    decreases ps.len(),
{
    if ps.len() > 0 {
        lemma_first_named(ps.drop_last(), name);
        assert forall|j: int| 0 <= j < ps.len() - 1 implies ps.drop_last()[j] == ps[j] by {}
    }
}

/// The index of the first property named `name`.
fn find_prop(props: &Vec<Property>, name: &String) -> (r: Option<usize>)
    ensures
        r matches Some(i) ==> first_named(props_view(props@), name@) == Some(i as int) && i
            < props@.len() && props@[i as int].0@ == name@,
        r is None ==> first_named(props_view(props@), name@) is None,
{
    let ghost ps = props_view(props@);
    proof {
        lemma_first_named(ps, name@);
    }
    let mut i: usize = 0;
    while i < props.len()
        invariant
            ps == props_view(props@),
            i <= props@.len(),
            forall|j: int| 0 <= j < i ==> ps[j].0 != name@,
        decreases props@.len() - i,
    {
        if props[i].0 == *name {
            assert(ps[i as int].0 == name@);
            proof {
                lemma_first_named(ps, name@);
                match first_named(ps, name@) {
                    Some(i2) => {
                        if i2 < i {
                            assert(ps[i2].0 != name@);
                        }
                        if i2 > i {
                            assert(ps[i as int].0 != name@);
                        }
                    },
                    None => {
                        assert(ps[i as int].0 != name@);
                    },
                }
            }
            return Some(i);
        }
        i = i + 1;
    }
    None
}

/// `ps` with `p` replacing the first property of its name, or added at the
/// end where there is none.
pub open spec fn upsert(ps: Seq<(Seq<char>, ValueView)>, p: (Seq<char>, ValueView)) -> Seq<(Seq<char>, ValueView)> {
    match first_named(ps, p.0) {
        Some(i) => ps.update(i, p),
        None => ps.push(p),
    }
}

/// `ps` with each of `new` set in turn.
pub open spec fn merge_props(
    ps: Seq<(Seq<char>, ValueView)>,
    new: Seq<(Seq<char>, ValueView)>,
) -> Seq<(Seq<char>, ValueView)>
    decreases new.len(),
{
    if new.len() == 0 {
        ps
    } else {
        upsert(merge_props(ps, new.drop_last()), new.last())
    }
}

/// The properties after adding the process `pid` to the `PIDs` property,
/// created where missing; `None` where that property holds something other
/// than a list of process ids.
pub open spec fn spec_add_pid(ps: Seq<(Seq<char>, ValueView)>, pid: u64) -> Option<Seq<(Seq<char>, ValueView)>> {
    match first_named(ps, PIDS@) {
        None => Some(ps.push((PIDS@, ValueView::ArrayU32(seq![pid as u32])))),
        Some(i) => match ps[i].1 {
            ValueView::ArrayU32(a) => Some(ps.update(i, (PIDS@, ValueView::ArrayU32(a.push(pid as u32))))),
            _ => None,
        },
    }
}

/// The leading number of a systemd version such as `249.11-0ubuntu3.16`.
pub open spec fn spec_systemd_version(version: Seq<char>) -> Option<nat> {
    parse_unsigned(split_on(version, '.')[0], usize::MAX as nat)
}

/// Whether a D-Bus error name is systemd's "no such unit", which stopping
/// or resetting a unit treats as done.
pub fn is_no_such_unit(err_name: &str) -> (r: bool)
    ensures
        r == (err_name@ == NO_SUCH_UNIT@),
{
    let a = chars_of(err_name);
    let b = chars_of(NO_SUCH_UNIT);
    crate::text::chars_eq(&a, &b)
}

fn copy_u32s(v: &Vec<u32>) -> (r: Vec<u32>)
    ensures
        r@ == v@,
{
    let mut r: Vec<u32> = Vec::new();
    let mut i: usize = 0;
    while i < v.len()
        invariant
            i <= v@.len(),
            r@ == v@.take(i as int),
        decreases v@.len() - i,
    {
        r.push(v[i]);
        i = i + 1;
        assert(r@ =~= v@.take(i as int));
    }
    assert(v@.take(v@.len() as int) =~= v@);
    r
}

fn copy_u8s(v: &Vec<u8>) -> (r: Vec<u8>)
    ensures
        r@ == v@,
{
    let mut r: Vec<u8> = Vec::new();
    let mut i: usize = 0;
    while i < v.len()
        invariant
            i <= v@.len(),
            r@ == v@.take(i as int),
        decreases v@.len() - i,
    {
        r.push(v[i]);
        i = i + 1;
        assert(r@ =~= v@.take(i as int));
    }
    assert(v@.take(v@.len() as int) =~= v@);
    r
}

/// A copy of a property value.
pub fn copy_value(v: &Value) -> (r: Value)
    ensures
        r@ == v@,
{
    match v {
        Value::Bool(b) => Value::Bool(*b),
        Value::U64(u) => Value::U64(*u),
        Value::ArrayU32(a) => Value::ArrayU32(copy_u32s(a)),
        Value::ArrayU8(a) => Value::ArrayU8(copy_u8s(a)),
        Value::String(s) => Value::String(s.clone()),
    }
}

impl SystemdClient {
    /// The unit's name.
    pub closed spec fn spec_unit(&self) -> Seq<char> {
        self.unit@
    }

    /// The unit's properties.
    pub closed spec fn spec_props(&self) -> Seq<(Seq<char>, ValueView)> {
        props_view(self.props@)
    }

    /// A client of the unit `unit` with the properties `props`.
    pub fn new(unit: &str, props: Vec<Property>) -> (r: Result<Self, DbusError>)
        ensures
            r matches Ok(c) && c.spec_unit() == unit@ && c.spec_props() == props_view(props@),
    {
        Ok(Self { unit: String::from_str(unit), props })
    }

    /// The unit's name.
    pub fn unit(&self) -> (r: &str)
        ensures
            r@ == self.spec_unit(),
    {
        self.unit.as_str()
    }

    /// The unit's properties.
    pub fn props(&self) -> (r: &Vec<Property>)
        ensures
            props_view(r@) == self.spec_props(),
    {
        &self.props
    }

    /// Appends a process to the `PIDs` property of a unit not started yet,
    /// creating the property where there is none; fails where the property
    /// holds something other than a list of process ids.
    pub fn set_pid_prop(&mut self, pid: CgroupPid) -> (r: Result<(), DbusError>)
        ensures
            final(self).spec_unit() == old(self).spec_unit(),
            match spec_add_pid(old(self).spec_props(), pid.pid) {
                Some(ps) => r is Ok && final(self).spec_props() == ps,
                None => r matches Err(DbusError::InvalidProperties) && final(self).spec_props()
                    == old(self).spec_props(),
            },
    {
        let pids_name = String::from_str(PIDS);
        let ghost ps = props_view(self.props@);
        if let Some(i) = find_prop(&self.props, &pids_name) {
            let (name, val) = self.props.remove(i);
            assert(ps[i as int] == (name@, val@));
            match val {
                Value::ArrayU32(mut arr) => {
                    assert(ps[i as int].1 == ValueView::ArrayU32(arr@));
                    arr.push(pid.pid as u32);
                    self.props.insert(i, (name, Value::ArrayU32(arr)));
                    assert(props_view(self.props@) =~= ps.update(
                        i as int,
                        (PIDS@, ValueView::ArrayU32(arr@)),
                    ));
                    return Ok(());
                },
                other => {
                    self.props.insert(i, (name, other));
                    assert(self.props@ =~= old(self).props@);
                    return Err(DbusError::InvalidProperties);
                },
            }
        }
        let mut ids: Vec<u32> = Vec::new();
        ids.push(pid.pid as u32);
        assert(ids@ =~= seq![pid.pid as u32]);
        self.props.push(property(PIDS, Value::ArrayU32(ids)));
        assert(props_view(self.props@) =~= ps.push((PIDS@, ValueView::ArrayU32(seq![pid.pid as u32]))));
        Ok(())
    }

    /// Checks that the unit can be started: its properties name the
    /// processes to start it with.
    pub fn start(&self) -> (r: Result<(), DbusError>)
        ensures
            r is Ok <==> first_named(self.spec_props(), PIDS@) is Some,
            r is Err ==> r matches Err(DbusError::InvalidProperties),
    {
        let pids_name = String::from_str(PIDS);
        if find_prop(&self.props, &pids_name).is_some() {
            return Ok(());
        }
        Err(DbusError::InvalidProperties)
    }

    /// Records new values of properties: each replaces the first property
    /// of its name, or is added at the end.
    pub fn set_properties(&mut self, properties: &[Property]) -> (r: Result<(), DbusError>)
        ensures
            r is Ok,
            final(self).spec_unit() == old(self).spec_unit(),
            final(self).spec_props() == merge_props(old(self).spec_props(), props_view(properties@)),
    {
        let ghost newv = props_view(properties@);
        let mut k: usize = 0;
        while k < properties.len()
            invariant
                k <= properties@.len(),
                newv == props_view(properties@),
                self.unit == old(self).unit,
                props_view(self.props@) == merge_props(props_view(old(self).props@), newv.take(k as int)),
            decreases properties@.len() - k,
        {
            let ghost ps = props_view(self.props@);
            let p = &properties[k];
            proof {
                lemma_first_named(ps, p.0@);
                assert(newv.take(k + 1).drop_last() =~= newv.take(k as int));
                assert(newv.take(k + 1).last() == prop_view(*p));
            }
            let np = (p.0.clone(), copy_value(&p.1));
            assert(prop_view(np) == prop_view(*p));
            match find_prop(&self.props, &p.0) {
                Some(i) => {
                    self.props.set(i, np);
                    assert(props_view(self.props@) =~= ps.update(i as int, prop_view(*p)));
                },
                None => {
                    self.props.push(np);
                    assert(props_view(self.props@) =~= ps.push(prop_view(*p)));
                },
            }
            k = k + 1;
        }
        assert(newv.take(properties@.len() as int) =~= newv);
        Ok(())
    }

    /// Reads the version number of systemd from its `Version` property, the
    /// number before the first dot (`249` of `249.11-0ubuntu3.16`).
    pub fn systemd_version(version: &str) -> (r: Result<usize, DbusError>)
        ensures
            match spec_systemd_version(version@) {
                Some(v) => r == Ok::<usize, DbusError>(v as usize),
                None => r matches Err(DbusError::CorruptedSystemdVersion(s)) && s@ == version@,
            },
    {
        let c = chars_of(version);
        let parts = split_chars(&c, '.');
        proof {
            crate::text::lemma_split_on_nonempty(c@, '.');
        }
        assert(views(parts@)[0] == parts@[0]@);
        match parse_decimal(&parts[0], usize::MAX as u128) {
            Some(v) => Ok(v as usize),
            None => Err(DbusError::CorruptedSystemdVersion(String::from_str(version))),
        }
    }
}

} // verus!
