//! Error types of the library.
use vstd::prelude::*;

verus! {

/// What went wrong in the cgroup filesystem layer.
#[derive(Debug, Clone, PartialEq, Eq)]
pub enum FsErrorKind {
    /// A filesystem operation failed.
    FsError,
    /// Reading a control file failed.
    ReadFailed(String),
    /// Writing a value into a control file failed: the file, then the value.
    WriteFailed(String, String),
    /// A control file held text that could not be parsed.
    ParseError,
    /// The controller that the operation needs is not available.
    SubsystemsEmpty,
    /// A path was missing or malformed.
    InvalidPath,
    /// The operation is not possible in the cgroup's mode (threaded cgroups).
    CgroupMode,
    /// A human-readable size could not be parsed.
    InvalidBytesSize,
    /// Any other failure.
    Other,
}

/// An error of the cgroup filesystem layer.
#[derive(Debug, Clone, PartialEq, Eq)]
pub struct FsError {
    pub kind: FsErrorKind,
}

impl FsError {
    pub fn new(kind: FsErrorKind) -> (r: FsError)
        ensures
            r.kind == kind,
    {
        FsError { kind }
    }

    pub fn kind(&self) -> (r: &FsErrorKind)
        ensures
            *r == self.kind,
    {
        &self.kind
    }
}

/// Errors in mapping resources onto systemd unit properties.
#[derive(Debug, Clone, Copy, PartialEq, Eq, Structural)]
pub enum SystemdError {
    InvalidArgument,
    /// The running systemd is older than the property needs.
    ObsoleteSystemd,
    /// The property exists in cgroups v2 only.
    CgroupsV1NotSupported,
}

/// Errors of the systemd D-Bus client.
#[derive(Debug, Clone, PartialEq, Eq)]
pub enum DbusError {
    /// The unit's properties are not in the required shape.
    InvalidProperties,
    /// The `Version` property of systemd could not be parsed.
    CorruptedSystemdVersion(String),
    /// The D-Bus transport reported an error, with its message.
    Dbus(String),
}

/// Errors of the cgroup managers.
#[derive(Debug, Clone, PartialEq, Eq)]
pub enum Error {
    InvalidArgument,
    InvalidLinuxResource,
    Cgroupfs(FsError),
    SystemdCgroup(SystemdError),
    SystemdDbus(DbusError),
}

pub type Result<T> = core::result::Result<T, Error>;

} // verus!
