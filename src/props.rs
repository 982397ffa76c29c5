//! Typed values of systemd unit properties, and the builder of the
//! properties of a transient unit.
use vstd::prelude::*;

use crate::consts::{
    BLOCK_IO_ACCOUNTING, CPU_ACCOUNTING, DEFAULT_DEPENDENCIES, DEFAULT_DESCRIPTION, DELEGATE,
    DESCRIPTION, IO_ACCOUNTING, MEMORY_ACCOUNTING, PIDS, SLICE, TASKS_ACCOUNTING,
    TIMEOUT_STOP_USEC, WANTS,
};
use crate::text::{ends_with, push_str};
use crate::utils::{is_slice_unit, slice_suffix};

verus! {

/// The value of a unit property.
#[derive(Debug, Clone, PartialEq, Eq)]
pub enum Value {
    Bool(bool),
    U64(u64),
    ArrayU32(Vec<u32>),
    ArrayU8(Vec<u8>),
    String(String),
}

/// The mathematical content of a property value.
pub enum ValueView {
    Bool(bool),
    U64(u64),
    ArrayU32(Seq<u32>),
    ArrayU8(Seq<u8>),
    String(Seq<char>),
}

impl View for Value {
    type V = ValueView;

    open spec fn view(&self) -> ValueView {
        match self {
            Value::Bool(b) => ValueView::Bool(*b),
            Value::U64(u) => ValueView::U64(*u),
            Value::ArrayU32(a) => ValueView::ArrayU32(a@),
            Value::ArrayU8(a) => ValueView::ArrayU8(a@),
            Value::String(s) => ValueView::String(s@),
        }
    }
}

/// A unit property: its name and its value.
pub type Property = (String, Value);

/// The content of a property.
pub open spec fn prop_view(p: Property) -> (Seq<char>, ValueView) {
    (p.0@, p.1@)
}

/// The content of a list of properties.
pub open spec fn props_view(ps: Seq<Property>) -> Seq<(Seq<char>, ValueView)> {
    ps.map_values(|p: Property| prop_view(p))
}

/// A property named `name` with value `v`.
pub fn property(name: &str, v: Value) -> (r: Property)
    ensures
        r.0@ == name@,
        r.1 == v,
{
    (String::from_str(name), v)
}

/// Appends the property `name` with value `v`.
pub fn push_prop(props: &mut Vec<Property>, name: &str, v: Value)
    ensures
        props_view(final(props)@) == props_view(old(props)@).push((name@, v@)),
{
    let ghost before = props_view(props@);
    props.push(property(name, v));
    assert(props_view(props@) =~= before.push((name@, v@)));
}

impl From<Vec<u8>> for Value {
    fn from(arr: Vec<u8>) -> (r: Value)
        ensures
            r == Value::ArrayU8(arr),
    {
        Value::ArrayU8(arr)
    }
}

impl vstd::std_specs::convert::FromSpecImpl<Vec<u8>> for Value {
    open spec fn obeys_from_spec() -> bool {
        true
    }

    open spec fn from_spec(arr: Vec<u8>) -> Value {
        Value::ArrayU8(arr)
    }
}

impl From<Vec<u32>> for Value {
    fn from(arr: Vec<u32>) -> (r: Value)
        ensures
            r == Value::ArrayU32(arr),
    {
        Value::ArrayU32(arr)
    }
}

impl vstd::std_specs::convert::FromSpecImpl<Vec<u32>> for Value {
    open spec fn obeys_from_spec() -> bool {
        true
    }

    open spec fn from_spec(arr: Vec<u32>) -> Value {
        Value::ArrayU32(arr)
    }
}

impl From<u64> for Value {
    fn from(value: u64) -> (r: Value)
        ensures
            r == Value::U64(value),
    {
        Value::U64(value)
    }
}

impl vstd::std_specs::convert::FromSpecImpl<u64> for Value {
    open spec fn obeys_from_spec() -> bool {
        true
    }

    open spec fn from_spec(value: u64) -> Value {
        Value::U64(value)
    }
}

impl From<String> for Value {
    fn from(value: String) -> (r: Value)
        ensures
            r == Value::String(value),
    {
        Value::String(value)
    }
}

impl vstd::std_specs::convert::FromSpecImpl<String> for Value {
    open spec fn obeys_from_spec() -> bool {
        true
    }

    open spec fn from_spec(value: String) -> Value {
        Value::String(value)
    }
}

impl From<bool> for Value {
    fn from(value: bool) -> (r: Value)
        ensures
            r == Value::Bool(value),
    {
        Value::Bool(value)
    }
}

impl vstd::std_specs::convert::FromSpecImpl<bool> for Value {
    open spec fn obeys_from_spec() -> bool {
        true
    }

    open spec fn from_spec(value: bool) -> Value {
        Value::Bool(value)
    }
}

/// Collects the properties of a transient unit. Each property is set at
/// most once; `build` lists those that are set.
#[derive(Debug, Clone, Default)]
pub struct PropertiesBuilder {
    pub cpu_accounting: Option<bool>,
    pub memory_accounting: Option<bool>,
    pub task_accounting: Option<bool>,
    /// `IOAccounting` on cgroup v2, `BlockIOAccounting` on cgroup v1.
    pub io_accounting: Option<bool>,
    pub default_dependencies: Option<bool>,
    pub description: Option<String>,
    pub wants: Option<String>,
    pub slice: Option<String>,
    pub delegate: Option<bool>,
    pub pids: Option<Vec<u32>>,
    pub timeout_stop_usec: Option<u64>,
}

/// One property if the option is set, none otherwise.
pub open spec fn opt_prop(name: Seq<char>, v: Option<ValueView>) -> Seq<(Seq<char>, ValueView)> {
    match v {
        Some(x) => seq![(name, x)],
        None => Seq::empty(),
    }
}

pub open spec fn opt_bool(b: Option<bool>) -> Option<ValueView> {
    match b {
        Some(x) => Some(ValueView::Bool(x)),
        None => None,
    }
}

pub open spec fn opt_string(s: Option<String>) -> Option<ValueView> {
    match s {
        Some(x) => Some(ValueView::String(x@)),
        None => None,
    }
}

/// The text of the description of a unit `unit` in slice `slice`.
pub open spec fn default_description(slice: Seq<char>, unit: Seq<char>) -> Seq<char> {
    DEFAULT_DESCRIPTION@ + seq![' '] + slice + seq![':'] + unit
}

/// The properties a transient unit `unit` in slice `slice` starts with:
/// accounting of CPU, memory, tasks and IO on, no default dependencies, a
/// description naming both; a slice unit wants its parent, a scope is put
/// into its slice with delegation on.
pub open spec fn default_unit_props(slice: Seq<char>, unit: Seq<char>, v2: bool) -> Seq<(Seq<char>, ValueView)> {
    seq![
        (CPU_ACCOUNTING@, ValueView::Bool(true)),
        (MEMORY_ACCOUNTING@, ValueView::Bool(true)),
        (TASKS_ACCOUNTING@, ValueView::Bool(true)),
        (if v2 { IO_ACCOUNTING@ } else { BLOCK_IO_ACCOUNTING@ }, ValueView::Bool(true)),
        (DEFAULT_DEPENDENCIES@, ValueView::Bool(false)),
        (DESCRIPTION@, ValueView::String(default_description(slice, unit))),
    ] + if ends_with(unit, slice_suffix()) {
        seq![(WANTS@, ValueView::String(slice))]
    } else {
        seq![(SLICE@, ValueView::String(slice)), (DELEGATE@, ValueView::Bool(true))]
    }
}

impl PropertiesBuilder {
    /// The properties set: accounting of CPU, memory, tasks and IO (named
    /// for the hierarchy, `v2` or not), default dependencies, the
    /// description (the default one where none was given), wants, slice,
    /// delegate, the processes and the stop timeout, in this order.
    pub open spec fn spec_build(self, v2: bool) -> Seq<(Seq<char>, ValueView)> {
        opt_prop(CPU_ACCOUNTING@, opt_bool(self.cpu_accounting)) + opt_prop(
            MEMORY_ACCOUNTING@,
            opt_bool(self.memory_accounting),
        ) + opt_prop(TASKS_ACCOUNTING@, opt_bool(self.task_accounting)) + opt_prop(
            if v2 {
                IO_ACCOUNTING@
            } else {
                BLOCK_IO_ACCOUNTING@
            },
            opt_bool(self.io_accounting),
        ) + opt_prop(DEFAULT_DEPENDENCIES@, opt_bool(self.default_dependencies)) + seq![
            (
                DESCRIPTION@,
                match self.description {
                    Some(d) => ValueView::String(d@),
                    None => ValueView::String(DEFAULT_DESCRIPTION@),
                },
            ),
        ] + opt_prop(WANTS@, opt_string(self.wants)) + opt_prop(SLICE@, opt_string(self.slice))
            + opt_prop(DELEGATE@, opt_bool(self.delegate)) + opt_prop(
            PIDS@,
            match self.pids {
                Some(p) => Some(ValueView::ArrayU32(p@)),
                None => None,
            },
        ) + opt_prop(
            TIMEOUT_STOP_USEC@,
            match self.timeout_stop_usec {
                Some(t) => Some(ValueView::U64(t)),
                None => None,
            },
        )
    }

    /// The builder with nothing set.
    pub fn new() -> (r: Self)
        ensures
            r == (PropertiesBuilder {
                cpu_accounting: None,
                memory_accounting: None,
                task_accounting: None,
                io_accounting: None,
                default_dependencies: None,
                description: None,
                wants: None,
                slice: None,
                delegate: None,
                pids: None,
                timeout_stop_usec: None,
            }),
    {
        PropertiesBuilder {
            cpu_accounting: None,
            memory_accounting: None,
            task_accounting: None,
            io_accounting: None,
            default_dependencies: None,
            description: None,
            wants: None,
            slice: None,
            delegate: None,
            pids: None,
            timeout_stop_usec: None,
        }
    }

    /// The defaults of a transient unit `unit` in slice `slice`: accounting
    /// of CPU, memory, tasks and IO on, no default dependencies, a
    /// description naming both; a slice unit wants its parent, a scope is
    /// put into its slice with delegation on.
    pub fn default_cgroup(slice: &str, unit: &str) -> (r: Self)
        ensures
            r.cpu_accounting == Some(true),
            r.memory_accounting == Some(true),
            r.task_accounting == Some(true),
            r.io_accounting == Some(true),
            r.default_dependencies == Some(false),
            r.description matches Some(d) && d@ == default_description(slice@, unit@),
            ends_with(unit@, slice_suffix()) ==> (r.wants matches Some(w) && w@ == slice@)
                && r.slice is None && r.delegate is None,
            !ends_with(unit@, slice_suffix()) ==> r.wants is None && (r.slice matches Some(s)
                && s@ == slice@) && r.delegate == Some(true),
            r.pids is None,
            r.timeout_stop_usec is None,
    {
        let mut desc = String::from_str(DEFAULT_DESCRIPTION);
        push_str(&mut desc, " ");
        push_str(&mut desc, slice);
        push_str(&mut desc, ":");
        push_str(&mut desc, unit);
        proof {
            reveal_strlit(" ");
            reveal_strlit(":");
        }
        assert(desc@ =~= default_description(slice@, unit@));
        let mut builder = Self::new().cpu_accounting(true).memory_accounting(true).task_accounting(
            true,
        ).io_accounting(true).default_dependencies(false).description(desc);
        if is_slice_unit(unit) {
            builder = builder.wants(String::from_str(slice));
        } else {
            builder = builder.slice(String::from_str(slice));
            builder = builder.delegate(true);
        }
        builder
    }

    pub fn cpu_accounting(self, enabled: bool) -> (r: Self)
        ensures
            r == (Self { cpu_accounting: Some(enabled), ..self }),
    {
        Self { cpu_accounting: Some(enabled), ..self }
    }

    pub fn memory_accounting(self, enabled: bool) -> (r: Self)
        ensures
            r == (Self { memory_accounting: Some(enabled), ..self }),
    {
        Self { memory_accounting: Some(enabled), ..self }
    }

    pub fn task_accounting(self, enabled: bool) -> (r: Self)
        ensures
            r == (Self { task_accounting: Some(enabled), ..self }),
    {
        Self { task_accounting: Some(enabled), ..self }
    }

    pub fn io_accounting(self, enabled: bool) -> (r: Self)
        ensures
            r == (Self { io_accounting: Some(enabled), ..self }),
    {
        Self { io_accounting: Some(enabled), ..self }
    }

    pub fn default_dependencies(self, enabled: bool) -> (r: Self)
        ensures
            r == (Self { default_dependencies: Some(enabled), ..self }),
    {
        Self { default_dependencies: Some(enabled), ..self }
    }

    pub fn description(self, desc: String) -> (r: Self)
        ensures
            r == (Self { description: Some(desc), ..self }),
    {
        Self { description: Some(desc), ..self }
    }

    pub fn wants(self, wants: String) -> (r: Self)
        ensures
            r == (Self { wants: Some(wants), ..self }),
    {
        Self { wants: Some(wants), ..self }
    }

    pub fn slice(self, slice: String) -> (r: Self)
        ensures
            r == (Self { slice: Some(slice), ..self }),
    {
        Self { slice: Some(slice), ..self }
    }

    pub fn delegate(self, enabled: bool) -> (r: Self)
        ensures
            r == (Self { delegate: Some(enabled), ..self }),
    {
        Self { delegate: Some(enabled), ..self }
    }

    pub fn pids(self, pids: Vec<u32>) -> (r: Self)
        ensures
            r == (Self { pids: Some(pids), ..self }),
    {
        Self { pids: Some(pids), ..self }
    }

    pub fn timeout_stop_usec(self, timeout: u64) -> (r: Self)
        ensures
            r == (Self { timeout_stop_usec: Some(timeout), ..self }),
    {
        Self { timeout_stop_usec: Some(timeout), ..self }
    }

    /// The list of the properties set; `v2` tells which hierarchy the host
    /// uses, which names the IO accounting property.
    /// The list of the properties set; `v2` tells which hierarchy the host
    /// uses, which names the IO accounting property.
    pub fn build(self, v2: bool) -> (r: Vec<Property>)
        ensures
            props_view(r@) == self.spec_build(v2),
    {
        let ghost me = self;
        let mut props: Vec<Property> = Vec::new();
        assert(props_view(props@) =~= Seq::empty());
        push_opt_bool(&mut props, CPU_ACCOUNTING, self.cpu_accounting);
        push_opt_bool(&mut props, MEMORY_ACCOUNTING, self.memory_accounting);
        push_opt_bool(&mut props, TASKS_ACCOUNTING, self.task_accounting);
        if v2 {
            push_opt_bool(&mut props, IO_ACCOUNTING, self.io_accounting);
        } else {
            push_opt_bool(&mut props, BLOCK_IO_ACCOUNTING, self.io_accounting);
        }
        push_opt_bool(&mut props, DEFAULT_DEPENDENCIES, self.default_dependencies);
        let ghost acc = props_view(props@);
        match self.description {
            Some(d) => push_prop(&mut props, DESCRIPTION, Value::String(d)),
            None => push_prop(&mut props, DESCRIPTION, Value::String(String::from_str(DEFAULT_DESCRIPTION))),
        }
        assert(props_view(props@) == acc + seq![
            (
                DESCRIPTION@,
                match me.description {
                    Some(d) => ValueView::String(d@),
                    None => ValueView::String(DEFAULT_DESCRIPTION@),
                },
            ),
        ]) by {
            assert(acc.push(props_view(props@).last()) =~= acc + seq![props_view(props@).last()]);
        }
        push_opt_string(&mut props, WANTS, self.wants);
        push_opt_string(&mut props, SLICE, self.slice);
        push_opt_bool(&mut props, DELEGATE, self.delegate);
        let ghost acc = props_view(props@);
        if let Some(p) = self.pids {
            push_prop(&mut props, PIDS, Value::ArrayU32(p));
            assert(acc.push(props_view(props@).last()) =~= acc + seq![props_view(props@).last()]);
        } else {
            assert(acc =~= acc + Seq::empty());
        }
        let ghost acc = props_view(props@);
        if let Some(t) = self.timeout_stop_usec {
            push_prop(&mut props, TIMEOUT_STOP_USEC, Value::U64(t));
            assert(acc.push(props_view(props@).last()) =~= acc + seq![props_view(props@).last()]);
        } else {
            assert(acc =~= acc + Seq::empty());
        }
        assert(Seq::empty() + opt_prop(CPU_ACCOUNTING@, opt_bool(me.cpu_accounting)) =~= opt_prop(
            CPU_ACCOUNTING@,
            opt_bool(me.cpu_accounting),
        ));
        props
    }
}

/// Appends a boolean property if it is set.
fn push_opt_bool(props: &mut Vec<Property>, name: &str, b: Option<bool>)
    ensures
        props_view(final(props)@) == props_view(old(props)@) + opt_prop(name@, opt_bool(b)),
{
    let ghost before = props_view(props@);
    if let Some(x) = b {
        push_prop(props, name, Value::Bool(x));
        assert(before.push((name@, ValueView::Bool(x))) =~= before + seq![(name@, ValueView::Bool(x))]);
    } else {
        assert(before =~= before + Seq::empty());
    }
}

/// Appends a text property if it is set.
fn push_opt_string(props: &mut Vec<Property>, name: &str, s: Option<String>)
    ensures
        props_view(final(props)@) == props_view(old(props)@) + opt_prop(name@, opt_string(s)),
{
    let ghost before = props_view(props@);
    if let Some(x) = s {
        let ghost xv = x@;
        push_prop(props, name, Value::String(x));
        assert(before.push((name@, ValueView::String(xv))) =~= before + seq![(name@, ValueView::String(xv))]);
    } else {
        assert(before =~= before + Seq::empty());
    }
}

} // verus!
