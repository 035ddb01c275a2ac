use vstd::prelude::*;
use crate::unit_base::UnitLoadState;

verus! {

/// Error numbers of the unit layer.
#[derive(Clone, Copy, Debug, PartialEq, Eq, Structural)]
pub enum UnitErrno {
    InputErr,
    NotExisted,
    InternalErr,
    NotSupported,
}

/// Error numbers of the manager.
#[derive(Clone, Copy, Debug, PartialEq, Eq, Structural)]
pub enum MngErrno {
    /// invalid input
    Input,
    /// not existed
    NotExisted,
    /// internal error
    Internal,
    /// not supported
    NotSupported,
}

/// Error numbers of the command layer.
#[derive(Clone, Copy, Debug, PartialEq, Eq, Structural)]
pub enum ExecCmdErrno {
    /// invalid input
    Input,
    /// not existed
    NotExisted,
    /// internal error
    Internal,
    /// not supported
    NotSupported,
}

impl ExecCmdErrno {
    /// The message that a command response carries for this error.
    pub fn message(&self) -> (r: String)
        ensures
            *self == ExecCmdErrno::Input ==> r@ == "Invalid input"@,
            *self == ExecCmdErrno::NotExisted ==> r@ == "No such file or directory"@,
            *self == ExecCmdErrno::Internal ==> r@ == "Unexpected internal error"@,
            *self == ExecCmdErrno::NotSupported ==> r@ == "Unsupported action"@,
    {
        match *self {
            ExecCmdErrno::Input => String::from_str("Invalid input"),
            ExecCmdErrno::NotExisted => String::from_str("No such file or directory"),
            ExecCmdErrno::Internal => String::from_str("Unexpected internal error"),
            ExecCmdErrno::NotSupported => String::from_str("Unsupported action"),
        }
    }
}

/// What a unit operation can fail with.
#[derive(Clone, Copy, Debug, PartialEq, Eq, Structural)]
pub enum UnitActionError {
    /// Referenced unit unknown or not loaded.
    ENoent,
    /// The operation is a no-op.
    EAlready,
    /// Retry later.
    EAgain,
    /// A precondition failed.
    EInval,
    /// The unit is busy.
    EBusy,
    /// Wrong state for the operation.
    ENoExec,
    /// Operation not supported by the unit.
    EBadR,
    /// The sub-unit asks to treat the operation as a success.
    EOpNotSupp,
    /// Manual start refused by the unit's configuration.
    ERefuseManualStart,
    /// Manual stop refused by the unit's configuration.
    ERefuseManualStop,
    /// The job transaction was rejected.
    ETxn,
    /// Fork or cgroup attach failed.
    Spawn,
    /// The unit's definition could not be used; the load state says why.
    LoadError(UnitLoadState),
}

/// Groups of the device netlink monitor.
#[derive(Clone, Copy, Debug, PartialEq, Eq, Structural)]
pub enum MonitorNetlinkGroup {
    /// no group
    NoGroup,
    /// messages of the kernel
    Kernel,
    /// messages of userspace
    Userspace,
}

impl MonitorNetlinkGroup {
    /// The netlink multicast group number.
    pub fn group_number(&self) -> (n: u32)
        ensures
            *self == MonitorNetlinkGroup::NoGroup ==> n == 0,
            *self == MonitorNetlinkGroup::Kernel ==> n == 1,
            *self == MonitorNetlinkGroup::Userspace ==> n == 2,
    {
        match *self {
            MonitorNetlinkGroup::NoGroup => 0,
            MonitorNetlinkGroup::Kernel => 1,
            MonitorNetlinkGroup::Userspace => 2,
        }
    }
}

} // verus!
