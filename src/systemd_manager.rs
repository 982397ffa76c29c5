//! The systemd manager: a transient unit per cgroup, whose properties
//! carry the resources, over an embedded cgroupfs manager for what systemd
//! does not expose.
use vstd::prelude::*;

use crate::client::{merge_props, spec_add_pid, spec_systemd_version, SystemdClient};
use crate::consts::TIMEOUT_STOP_USEC;
use crate::error::{DbusError, Error, SystemdError};
use crate::fs_manager::FsManager;
use crate::ops::{CgroupOp, Subsystem};
use crate::paths::{join_path, spec_join_path};
use crate::props::{
    default_unit_props, property, props_view, PropertiesBuilder, Property, Value, ValueView,
};
use crate::resources::LinuxResources;
use crate::unit_resources::{
    cpu_properties, cpuset_properties, cpuset_props_ok, memory_properties, pids_properties,
    spec_cpu_props, spec_memory_props, spec_pids_props, PropsView,
};
use crate::utils::{expand_slice, parse_slice_and_unit, spec_expand_slice, spec_slice_and_unit};
use crate::{CgroupPid, FreezerState};

verus! {

/// What the caller does to add a process to the unit.
#[derive(Debug, PartialEq, Eq)]
pub enum AddProcAction {
    /// Start the unit (its properties now name the process), then create
    /// the cgroup directories that systemd may create lazily.
    Start,
    /// Attach the process to the running unit, in this sub-cgroup.
    Attach(&'static str),
}

/// A cgroup manager that drives systemd.
#[derive(Debug)]
pub struct SystemdManager {
    /// The name of the slice
    slice: String,
    /// The name of the unit
    unit: String,
    /// The unit's state
    systemd_client: SystemdClient,
    /// The cgroupfs manager of the unit's cgroup
    fs_manager: FsManager,
}

/// Whether `r` is what `set` gives for `res` with the running systemd
/// `ver`, the cpuset part of which is `cs`.
pub open spec fn set_props_with(
    r: Result<Vec<Property>, Error>,
    res: LinuxResources,
    v2: bool,
    ver: usize,
    cs: Result<Vec<Property>, Error>,
) -> bool {
    let cpu_r: Result<PropsView, Error> = match res.cpu {
        Some(c) => spec_cpu_props(c, v2, ver),
        None => Ok(Seq::empty()),
    };
    let mem_r: Result<PropsView, Error> = match res.memory {
        Some(m) => spec_memory_props(m, v2),
        None => Ok(Seq::empty()),
    };
    let pids_p: PropsView = match res.pids {
        Some(p) => spec_pids_props(p),
        None => Seq::empty(),
    };
    &&& match res.cpu {
        Some(c) => cpuset_props_ok(cs, c, ver),
        None => cs matches Ok(v) && v@.len() == 0,
    }
    &&& if cs is Err {
        r == cs
    } else if cpu_r is Err {
        r == Err::<Vec<Property>, Error>(cpu_r->Err_0)
    } else if mem_r is Err {
        r == Err::<Vec<Property>, Error>(mem_r->Err_0)
    } else {
        r matches Ok(v) && props_view(v@) == props_view(cs->Ok_0@) + cpu_r->Ok_0 + mem_r->Ok_0 + pids_p
    }
}

impl SystemdManager {
    pub closed spec fn spec_slice(&self) -> Seq<char> {
        self.slice@
    }

    pub closed spec fn spec_unit(&self) -> Seq<char> {
        self.unit@
    }

    pub closed spec fn spec_fs(&self) -> FsManager {
        self.fs_manager
    }

    pub closed spec fn spec_client(&self) -> SystemdClient {
        self.systemd_client
    }

    /// A manager for the cgroup path `slice:scope_prefix:name` (an empty
    /// slice means `system.slice`), whose unit starts with the default
    /// properties, on a host with the given cgroupfs topology. Its cgroup
    /// directory is the expanded slice joined with the unit name.
    pub fn new(
        path: &str,
        paths: Vec<(String, String)>,
        mounts: Vec<(String, String)>,
        v2: bool,
        controllers: Vec<Subsystem>,
        hugepage_sizes: Vec<String>,
    ) -> (r: Result<Self, Error>)
        ensures
            match spec_slice_and_unit(path@) {
                None => r matches Err(Error::SystemdCgroup(SystemdError::InvalidArgument)),
                Some((s, u)) => match spec_expand_slice(s) {
                    None => r matches Err(Error::SystemdCgroup(SystemdError::InvalidArgument)),
                    Some(base) => r matches Ok(m) && m.spec_slice() == s && m.spec_unit() == u
                        && m.spec_fs().spec_base() == spec_join_path(base, u)
                        && m.spec_fs().spec_v2() == v2 && m.spec_client().spec_unit() == u
                        && m.spec_client().spec_props() == default_unit_props(s, u, v2),
                },
            },
    {
        let (slice, unit) = match parse_slice_and_unit(path) {
            Ok(x) => x,
            Err(e) => {
                return Err(Error::SystemdCgroup(e));
            },
        };
        let builder = PropertiesBuilder::default_cgroup(slice.as_str(), unit.as_str());
        let props = builder.build(v2);
        assert(props_view(props@) =~= default_unit_props(slice@, unit@, v2));
        let slice_base = match expand_slice(slice.as_str()) {
            Ok(b) => b,
            Err(e) => {
                return Err(Error::SystemdCgroup(e));
            },
        };
        let fs_base = join_path(slice_base.as_str(), unit.as_str());
        let fs_manager = FsManager::new(fs_base.as_str(), paths, mounts, v2, controllers, hugepage_sizes);
        let systemd_client = match SystemdClient::new(unit.as_str(), props) {
            Ok(c) => c,
            Err(e) => {
                return Err(Error::SystemdDbus(e));
            },
        };
        Ok(Self { slice, unit, systemd_client, fs_manager })
    }

    /// The slice's name.
    pub fn slice(&self) -> (r: &str)
        ensures
            r@ == self.spec_slice(),
    {
        self.slice.as_str()
    }

    /// The unit's name.
    pub fn unit(&self) -> (r: &str)
        ensures
            r@ == self.spec_unit(),
    {
        self.unit.as_str()
    }

    /// The systemd manager always uses systemd.
    pub fn systemd(&self) -> (r: bool)
        ensures
            r,
    {
        true
    }

    /// Whether the host uses cgroup v2.
    pub fn v2(&self) -> (r: bool)
        ensures
            r == self.spec_fs().spec_v2(),
    {
        self.fs_manager.v2()
    }

    /// The cgroupfs manager of the unit's cgroup, which serves statistics,
    /// paths and CPU hotplug.
    pub fn fs_manager(&self) -> (r: &FsManager)
        ensures
            *r == self.spec_fs(),
    {
        &self.fs_manager
    }

    /// The unit's state.
    pub fn client(&self) -> (r: &SystemdClient)
        ensures
            *r == self.spec_client(),
    {
        &self.systemd_client
    }

    /// Maps `resources` onto unit properties for the running systemd,
    /// whose `Version` property reads `version`: the cpuset, CPU time,
    /// memory and process limit, in this order. The unit's recorded
    /// properties take the new values; the caller sends the returned ones
    /// with `SetUnitProperties` where the unit exists.
    pub fn set(&mut self, resources: &LinuxResources, version: &str) -> (r: Result<Vec<Property>, Error>)
        ensures
            final(self).spec_slice() == old(self).spec_slice(),
            final(self).spec_unit() == old(self).spec_unit(),
            final(self).spec_fs() == old(self).spec_fs(),
            final(self).spec_client().spec_unit() == old(self).spec_client().spec_unit(),
            match spec_systemd_version(version@) {
                None => r matches Err(Error::SystemdDbus(DbusError::CorruptedSystemdVersion(_)))
                    && final(self).spec_client() == old(self).spec_client(),
                Some(ver) => (exists|cs: Result<Vec<Property>, Error>| #[trigger] set_props_with(
                    r,
                    *resources,
                    old(self).spec_fs().spec_v2(),
                    ver as usize,
                    cs,
                )) && match r {
                    Ok(v) => final(self).spec_client().spec_props() == merge_props(
                        old(self).spec_client().spec_props(),
                        props_view(v@),
                    ),
                    Err(_) => final(self).spec_client() == old(self).spec_client(),
                },
            },
    {
        let ver = match SystemdClient::systemd_version(version) {
            Ok(v) => v,
            Err(e) => {
                return Err(Error::SystemdDbus(e));
            },
        };
        let v2 = self.fs_manager.v2();
        let ghost gv2 = old(self).spec_fs().spec_v2();
        let ghost gver = (spec_systemd_version(version@)->0) as usize;
        assert(v2 == gv2 && ver == gver);
        let mut props: Vec<Property> = Vec::new();
        let ghost mut gcs: Result<Vec<Property>, Error> = Ok(props);
        if let Some(c) = &resources.cpu {
            let cs = cpuset_properties(c, ver);
            proof {
                gcs = cs;
            }
            match cs {
                Ok(v) => {
                    props = v;
                },
                Err(e) => {
                    let r = Err(e);
                    assert(set_props_with(r, *resources, gv2, gver, gcs));
                    return r;
                },
            }
            let ghost a = props_view(props@);
            match cpu_properties(c, v2, ver) {
                Ok(v) => {
                    append_props(&mut props, v);
                },
                Err(e) => {
                    let r = Err(e);
                    assert(set_props_with(r, *resources, gv2, gver, gcs));
                    return r;
                },
            }
        } else {
            assert(props_view(props@) =~= Seq::empty());
        }
        let ghost a1 = props_view(props@);
        if let Some(m) = &resources.memory {
            match memory_properties(m, v2) {
                Ok(v) => {
                    append_props(&mut props, v);
                },
                Err(e) => {
                    let r = Err(e);
                    assert(set_props_with(r, *resources, gv2, gver, gcs));
                    return r;
                },
            }
        }
        let ghost a2 = props_view(props@);
        if let Some(p) = &resources.pids {
            append_props(&mut props, pids_properties(p));
        }
        let _ = self.systemd_client.set_properties(props.as_slice());
        let r = Ok(props);
        assert(set_props_with(r, *resources, gv2, gver, gcs));
        r
    }

    /// Prepares adding a process: a unit that does not exist yet
    /// (`unit_exists`) gets the process in its `PIDs` property and is to be
    /// started; a running unit takes the process in its sub-cgroup
    /// (`init_exists` tells whether the cgroup has an `init` directory).
    pub fn add_proc(&mut self, pid: CgroupPid, unit_exists: bool, init_exists: bool) -> (r: Result<AddProcAction, Error>)
        ensures
            final(self).spec_slice() == old(self).spec_slice(),
            final(self).spec_unit() == old(self).spec_unit(),
            final(self).spec_fs() == old(self).spec_fs(),
            unit_exists ==> final(self).spec_client() == old(self).spec_client() && (r matches Ok(
                AddProcAction::Attach(s),
            ) && s@ == if old(self).spec_fs().spec_v2() && init_exists { "/init/"@ } else { "/"@ }),
            final(self).spec_client().spec_unit() == old(self).spec_client().spec_unit(),
            !unit_exists ==> match spec_add_pid(old(self).spec_client().spec_props(), pid.pid) {
                Some(ps) => r matches Ok(AddProcAction::Start) && final(self).spec_client().spec_props() == ps,
                None => r matches Err(Error::SystemdDbus(DbusError::InvalidProperties))
                    && final(self).spec_client().spec_props() == old(self).spec_client().spec_props(),
            },
    {
        if !unit_exists {
            match self.systemd_client.set_pid_prop(pid) {
                Ok(()) => {},
                Err(e) => {
                    return Err(Error::SystemdDbus(e));
                },
            }
            return Ok(AddProcAction::Start);
        }
        Ok(AddProcAction::Attach(self.fs_manager.subcgroup(init_exists)))
    }

    /// The unit operation that puts its processes in `state`.
    pub fn freeze(&self, state: FreezerState) -> (r: Result<CgroupOp, Error>)
        ensures
            match state {
                FreezerState::Thawed => r matches Ok(CgroupOp::Thaw),
                FreezerState::Frozen => r matches Ok(CgroupOp::Freeze),
                FreezerState::Freezing => r matches Err(Error::InvalidArgument),
            },
    {
        match state {
            FreezerState::Thawed => Ok(CgroupOp::Thaw),
            FreezerState::Frozen => Ok(CgroupOp::Freeze),
            FreezerState::Freezing => Err(Error::InvalidArgument),
        }
    }

    /// Sets how long systemd waits after SIGTERM before it sends SIGKILL
    /// to the unit's processes on stop; the returned property is to be sent.
    pub fn set_term_timeout(&mut self, timeout_in_sec: u64) -> (r: Result<Vec<Property>, Error>)
        requires
            timeout_in_sec <= u64::MAX / 1_000_000,
        ensures
            r matches Ok(v) && props_view(v@) == seq![
                (TIMEOUT_STOP_USEC@, ValueView::U64((timeout_in_sec * 1_000_000) as u64)),
            ] && final(self).spec_client().spec_props() == merge_props(
                old(self).spec_client().spec_props(),
                props_view(v@),
            ),
            final(self).spec_slice() == old(self).spec_slice(),
            final(self).spec_unit() == old(self).spec_unit(),
            final(self).spec_fs() == old(self).spec_fs(),
    {
        let usec = timeout_in_sec * 1_000_000;
        let mut props: Vec<Property> = Vec::new();
        props.push(property(TIMEOUT_STOP_USEC, Value::U64(usec)));
        assert(props_view(props@) =~= seq![(TIMEOUT_STOP_USEC@, ValueView::U64(usec))]);
        let _ = self.systemd_client.set_properties(props.as_slice());
        Ok(props)
    }
}

/// Appends the properties of `more` to `props`.
fn append_props(props: &mut Vec<Property>, more: Vec<Property>)
    ensures
        props_view(final(props)@) == props_view(old(props)@) + props_view(more@),
{
    let ghost before = props_view(props@);
    let ghost all = props_view(more@);
    let mut rest = more;
    let n = rest.len();
    let mut k: usize = 0;
    while rest.len() > 0
        invariant
            n == all.len(),
            k <= n,
            props_view(rest@) == all.skip(k as int),
            props_view(props@) == before + all.take(k as int),
        decreases rest@.len(),
    {
        assert(props_view(rest@).len() == rest@.len());
        let ghost r0 = rest@[0];
        let ghost old_rest = rest@;
        let ghost old_props = props@;
        let p = rest.remove(0);
        assert(rest@ =~= old_rest.subrange(1, old_rest.len() as int));
        assert(p == r0);
        let ghost pv = (p.0@, p.1@);
        assert(all.skip(k as int)[0] == pv);
        assert(all[k as int] == pv);
        props.push(p);
        assert(props@ == old_props.push(p));
        assert(props_view(props@) =~= props_view(old_props).push(pv));
        assert(all.take(k + 1) =~= all.take(k as int).push(pv));
        assert(props_view(props@) =~= before + all.take(k + 1));
        k = k + 1;
        assert forall|j: int| 0 <= j < rest@.len() implies props_view(rest@)[j] == all.skip(k as int)[j] by {
            assert(rest@[j] == old_rest[j + 1]);
            assert(props_view(old_rest)[j + 1] == all.skip(k - 1)[j + 1]);
        }
        assert(props_view(rest@) =~= all.skip(k as int));
    }
    assert(all.take(k as int) =~= all);
}

} // verus!