use vstd::prelude::*;
use vstd::string::StringSliceAdditionalSpecFns;

verus! {

/// The kind of a unit, decided by the suffix of its name.
#[derive(Clone, Copy, Debug, PartialEq, Eq, Structural)]
pub enum UnitType {
    UnitService,
    UnitSocket,
    UnitTarget,
    UnitMount,
    UnitTypeInvalid,
}

/// How far a unit's definition has been loaded.
#[derive(Clone, Copy, Debug, PartialEq, Eq, Structural)]
pub enum UnitLoadState {
    UnitStub,
    UnitLoaded,
    UnitNotFound,
    UnitError,
    UnitMerged,
    UnitBadSetting,
    UnitMasked,
}

/// The state record published on the state bus.
#[derive(Clone, Copy, Debug, PartialEq, Eq, Structural)]
pub enum UnitState {
    UnitActive,
    UnitReloading,
    UnitInActive,
    UnitFailed,
    UnitActiving,
    UnitDeactiving,
}

/// The activation state of a unit.
#[derive(Clone, Copy, Debug, PartialEq, Eq, Structural)]
pub enum UnitActiveState {
    UnitActive,
    UnitReloading,
    UnitInactive,
    UnitFailed,
    UnitActivating,
    UnitDeactiviting,
    UnitMaintenance,
}

/// The name of an activation state in status reports.
pub open spec fn active_name(a: UnitActiveState) -> Seq<char> {
    match a {
        UnitActiveState::UnitActive => "active"@,
        UnitActiveState::UnitReloading => "reloading"@,
        UnitActiveState::UnitInactive => "inactive"@,
        UnitActiveState::UnitFailed => "failed"@,
        UnitActiveState::UnitActivating => "activating"@,
        UnitActiveState::UnitDeactiviting => "deactivating"@,
        UnitActiveState::UnitMaintenance => "maintenance"@,
    }
}

impl UnitActiveState {
    /// Active or reloading.
    pub fn is_active_or_reloading(&self) -> (r: bool)
        ensures
            r == (*self == UnitActiveState::UnitActive || *self == UnitActiveState::UnitReloading),
    {
        *self == UnitActiveState::UnitActive || *self == UnitActiveState::UnitReloading
    }

    /// Active or on its way to it.
    pub fn is_active_or_activating(&self) -> (r: bool)
        ensures
            r == (*self == UnitActiveState::UnitActive || *self == UnitActiveState::UnitReloading
                || *self == UnitActiveState::UnitActivating),
    {
        *self == UnitActiveState::UnitActive || *self == UnitActiveState::UnitReloading || *self
            == UnitActiveState::UnitActivating
    }

    /// The state's name in status reports.
    pub fn name(&self) -> (r: String)
        ensures
            r@ == active_name(*self),
            *self == UnitActiveState::UnitActive ==> r@ == "active"@,
            *self == UnitActiveState::UnitReloading ==> r@ == "reloading"@,
            *self == UnitActiveState::UnitInactive ==> r@ == "inactive"@,
            *self == UnitActiveState::UnitFailed ==> r@ == "failed"@,
            *self == UnitActiveState::UnitActivating ==> r@ == "activating"@,
            *self == UnitActiveState::UnitDeactiviting ==> r@ == "deactivating"@,
            *self == UnitActiveState::UnitMaintenance ==> r@ == "maintenance"@,
    {
        match *self {
            UnitActiveState::UnitActive => String::from_str("active"),
            UnitActiveState::UnitReloading => String::from_str("reloading"),
            UnitActiveState::UnitInactive => String::from_str("inactive"),
            UnitActiveState::UnitFailed => String::from_str("failed"),
            UnitActiveState::UnitActivating => String::from_str("activating"),
            UnitActiveState::UnitDeactiviting => String::from_str("deactivating"),
            UnitActiveState::UnitMaintenance => String::from_str("maintenance"),
        }
    }

    /// Inactive or failed.
    pub fn is_inactive_or_failed(&self) -> (r: bool)
        ensures
            r == (*self == UnitActiveState::UnitInactive || *self == UnitActiveState::UnitFailed),
    {
        *self == UnitActiveState::UnitInactive || *self == UnitActiveState::UnitFailed
    }
}

/// A signal that the manager sends to a unit's processes.
#[derive(Clone, Copy, Debug, PartialEq, Eq, Structural)]
pub enum Signal {
    SigTerm,
    SigKill,
    SigAbrt,
    SigCont,
}

impl Signal {
    /// The signal's number on Linux.
    pub fn number(&self) -> (n: i32)
        ensures
            *self == Signal::SigTerm ==> n == 15,
            *self == Signal::SigKill ==> n == 9,
            *self == Signal::SigAbrt ==> n == 6,
            *self == Signal::SigCont ==> n == 18,
    {
        match *self {
            Signal::SigTerm => 15,
            Signal::SigKill => 9,
            Signal::SigAbrt => 6,
            Signal::SigCont => 18,
        }
    }
}

/// Why processes of a unit are signalled.
#[derive(Clone, Copy, Debug, PartialEq, Eq, Structural)]
pub enum KillOperation {
    KillTerminate,
    KillTerminateAndLog,
    KillRestart,
    KillKill,
    KillWatchdog,
    KillInvalid,
}

/// The signal of a kill operation.
pub open spec fn spec_kill_signal(ko: KillOperation) -> Signal {
    match ko {
        KillOperation::KillKill => Signal::SigKill,
        KillOperation::KillWatchdog => Signal::SigAbrt,
        _ => Signal::SigTerm,
    }
}

impl KillOperation {
    /// Terminate and restart send SIGTERM, kill SIGKILL, watchdog SIGABRT.
    pub fn to_signal(&self) -> (s: Signal)
        ensures
            s == spec_kill_signal(*self),
    {
        match *self {
            KillOperation::KillTerminate | KillOperation::KillTerminateAndLog
            | KillOperation::KillRestart => Signal::SigTerm,
            KillOperation::KillKill => Signal::SigKill,
            KillOperation::KillWatchdog => Signal::SigAbrt,
            _ => Signal::SigTerm,
        }
    }
}

/// The bytes of a name after its last `.` (all of it where there is none).
pub open spec fn name_suffix(b: Seq<u8>) -> Seq<u8>
    decreases b.len(),
{
    if b.len() == 0 {
        b
    } else if b.last() == 46u8 {
        Seq::empty()
    } else {
        name_suffix(b.drop_last()).push(b.last())
    }
}

/// The bytes of `service`.
pub open spec fn suffix_service() -> Seq<u8> {
    seq![115u8, 101u8, 114u8, 118u8, 105u8, 99u8, 101u8]
}

/// The bytes of `socket`.
pub open spec fn suffix_socket() -> Seq<u8> {
    seq![115u8, 111u8, 99u8, 107u8, 101u8, 116u8]
}

/// The bytes of `target`.
pub open spec fn suffix_target() -> Seq<u8> {
    seq![116u8, 97u8, 114u8, 103u8, 101u8, 116u8]
}

/// The bytes of `mount`.
pub open spec fn suffix_mount() -> Seq<u8> {
    seq![109u8, 111u8, 117u8, 110u8, 116u8]
}

/// The unit type that a name's suffix stands for; a name without a `.`
/// has no suffix and no type.
pub open spec fn spec_name_to_type(b: Seq<u8>) -> UnitType {
    let s = name_suffix(b);
    if !b.contains(46u8) {
        UnitType::UnitTypeInvalid
    } else if s == suffix_service() {
        UnitType::UnitService
    } else if s == suffix_socket() {
        UnitType::UnitSocket
    } else if s == suffix_target() {
        UnitType::UnitTarget
    } else if s == suffix_mount() {
        UnitType::UnitMount
    } else {
        UnitType::UnitTypeInvalid
    }
}

/// The position just past the last `.` of `b` (0 where there is none).
fn suffix_start(b: &[u8]) -> (i: usize)
    ensures
        i <= b@.len(),
        name_suffix(b@) == b@.subrange(i as int, b@.len() as int),
        (i > 0) <==> b@.contains(46u8),
{
    let mut i = b.len();
    proof {
        assert(b@.subrange(0, i as int) =~= b@);
        assert(name_suffix(b@) + b@.subrange(i as int, b@.len() as int) =~= name_suffix(b@));
    }
    while i > 0 && b[i - 1] != 46u8
        invariant
            i <= b@.len(),
            name_suffix(b@) == name_suffix(b@.subrange(0, i as int)) + b@.subrange(
                i as int,
                b@.len() as int,
            ),
            forall|j: int| i <= j < b@.len() ==> b@[j] != 46u8,
        decreases i,
    {
        proof {
            let pre = b@.subrange(0, i as int);
            assert(pre.drop_last() =~= b@.subrange(0, i - 1));
            assert(b@.subrange(i - 1, b@.len() as int) =~= seq![b@[i - 1]] + b@.subrange(
                i as int,
                b@.len() as int,
            ));
            assert(name_suffix(pre) == name_suffix(pre.drop_last()).push(pre.last()));
            assert(name_suffix(pre.drop_last()).push(pre.last()) + b@.subrange(i as int, b@.len() as int)
                =~= name_suffix(pre.drop_last()) + b@.subrange(i - 1, b@.len() as int));
        }
        i = i - 1;
    }
    proof {
        let pre = b@.subrange(0, i as int);
        if i > 0 {
            assert(pre.last() == 46u8);
            assert(b@[i - 1] == 46u8);
        } else {
            assert(pre.len() == 0);
        }
        assert(name_suffix(pre) =~= Seq::<u8>::empty());
        assert(Seq::<u8>::empty() + b@.subrange(i as int, b@.len() as int) =~= b@.subrange(
            i as int,
            b@.len() as int,
        ));
    }
    i
}

/// Whether `b[start..]` equals `lit`.
fn tail_equals(b: &[u8], start: usize, lit: &Vec<u8>) -> (r: bool)
    requires
        start <= b@.len(),
    ensures
        r == (b@.subrange(start as int, b@.len() as int) == lit@),
{
    if b.len() - start != lit.len() {
        proof {
            assert(b@.subrange(start as int, b@.len() as int).len() != lit@.len());
        }
        return false;
    }
    let n = b.len();
    let mut k: usize = 0;
    while k < lit.len()
        invariant
            n == b@.len(),
            b@.len() - start == lit@.len(),
            start <= b@.len(),
            k <= lit@.len(),
            start + lit@.len() <= b@.len(),
            forall|j: int| 0 <= j < k ==> b@[start + j] == lit@[j],
        decreases lit@.len() - k,
    {
        if b[start + k] != lit[k] {
            proof {
                assert(b@.subrange(start as int, b@.len() as int)[k as int] != lit@[k as int]);
            }
            return false;
        }
        k = k + 1;
    }
    proof {
        assert(b@.subrange(start as int, b@.len() as int) =~= lit@);
    }
    true
}

/// The unit type named by the suffix after the last `.` of `unit_name`;
/// a name without a `.` or with an unknown suffix gives `UnitTypeInvalid`.
pub fn unit_name_to_type(unit_name: &str) -> (t: UnitType)
    ensures
        t == spec_name_to_type(unit_name.spec_bytes()),
{
    let b = unit_name.as_bytes();
    let start = suffix_start(b);
    let service: Vec<u8> = vec![115u8, 101u8, 114u8, 118u8, 105u8, 99u8, 101u8];
    let socket: Vec<u8> = vec![115u8, 111u8, 99u8, 107u8, 101u8, 116u8];
    let target: Vec<u8> = vec![116u8, 97u8, 114u8, 103u8, 101u8, 116u8];
    let mount: Vec<u8> = vec![109u8, 111u8, 117u8, 110u8, 116u8];
    proof {
        assert(service@ =~= suffix_service());
        assert(socket@ =~= suffix_socket());
        assert(target@ =~= suffix_target());
        assert(mount@ =~= suffix_mount());
    }
    if start == 0 {
        UnitType::UnitTypeInvalid
    } else if tail_equals(b, start, &service) {
        UnitType::UnitService
    } else if tail_equals(b, start, &socket) {
        UnitType::UnitSocket
    } else if tail_equals(b, start, &target) {
        UnitType::UnitTarget
    } else if tail_equals(b, start, &mount) {
        UnitType::UnitMount
    } else {
        UnitType::UnitTypeInvalid
    }
}

} // verus!
