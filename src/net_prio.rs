//! The `net_prio` controller of a cgroup.
use vstd::prelude::*;

use crate::ops::CgroupOp;

verus! {

/// The `net_prio` controller: sets the priority of the traffic that the
/// cgroup's tasks emit, per network interface.
#[derive(Debug, Clone)]
pub struct NetPrioController {
    base: String,
    path: String,
}

impl NetPrioController {
    pub closed spec fn spec_path(&self) -> Seq<char> {
        self.path@
    }

    pub closed spec fn spec_base(&self) -> Seq<char> {
        self.base@
    }

    /// The controller of the cgroup at `point` under the hierarchy root
    /// `root`.
    pub fn new(point: String, root: String) -> (r: Self)
        ensures
            r.spec_path() == point@,
            r.spec_base() == root@,
    {
        Self { base: root, path: point }
    }

    /// The cgroup's directory.
    pub fn path(&self) -> (r: &str)
        ensures
            r@ == self.spec_path(),
    {
        self.path.as_str()
    }

    /// The write that gives the traffic on interface `eif` the priority
    /// `prio`.
    pub fn set_if_prio(&self, eif: &str, prio: u64) -> (r: CgroupOp)
        ensures
            r matches CgroupOp::SetIfPrio(name, p) && name@ == eif@ && p == prio,
    {
        CgroupOp::SetIfPrio(String::from_str(eif), prio)
    }
}

} // verus!
