use vstd::prelude::*;
use crate::unit_base::{
    UnitType, UnitLoadState, UnitActiveState, KillOperation, Signal, spec_kill_signal,
};
use crate::errors::UnitActionError;

verus! {

/// The precondition ladder of starting a unit.
pub open spec fn spec_start_check(
    active: UnitActiveState,
    load: UnitLoadState,
    conditions_ok: bool,
    asserts_ok: bool,
) -> Result<(), UnitActionError> {
    if active == UnitActiveState::UnitActive || active == UnitActiveState::UnitReloading {
        Err(UnitActionError::EAlready)
    } else if active == UnitActiveState::UnitMaintenance {
        Err(UnitActionError::EAgain)
    } else if load != UnitLoadState::UnitLoaded {
        Err(UnitActionError::EInval)
    } else if active != UnitActiveState::UnitActivating && !(conditions_ok && asserts_ok) {
        Err(UnitActionError::EInval)
    } else {
        Ok(())
    }
}

/// Decides whether a start may be handed to the sub-unit: an active or
/// reloading unit gives `EAlready`, one in maintenance `EAgain`, one not
/// loaded `EInval`, and a failed condition or assert `EInval` unless the
/// unit is already activating.
pub fn start_check(
    active: UnitActiveState,
    load: UnitLoadState,
    conditions_ok: bool,
    asserts_ok: bool,
) -> (r: Result<(), UnitActionError>)
    ensures
        r == spec_start_check(active, load, conditions_ok, asserts_ok),
{
    if active.is_active_or_reloading() {
        return Err(UnitActionError::EAlready);
    }
    if active == UnitActiveState::UnitMaintenance {
        return Err(UnitActionError::EAgain);
    }
    if load != UnitLoadState::UnitLoaded {
        return Err(UnitActionError::EInval);
    }
    if active != UnitActiveState::UnitActivating && !conditions_ok {
        return Err(UnitActionError::EInval);
    }
    if active != UnitActiveState::UnitActivating && !asserts_ok {
        return Err(UnitActionError::EInval);
    }
    Ok(())
}

/// Decides whether a stop may be handed to the sub-unit: without `force`
/// an inactive or failed unit gives `EAlready`.
pub fn stop_check(active: UnitActiveState, force: bool) -> (r: Result<(), UnitActionError>)
    ensures
        r == (if !force && (active == UnitActiveState::UnitInactive || active
            == UnitActiveState::UnitFailed) {
            Err(UnitActionError::EAlready)
        } else {
            Ok(())
        }),
{
    if !force && active.is_inactive_or_failed() {
        return Err(UnitActionError::EAlready);
    }
    Ok(())
}

/// Decides whether a reload may be handed to the sub-unit: it must be
/// reloadable (`EBadR`), not reloading already (`EAgain`) and active
/// (`ENoExec`).
pub fn reload_check(can_reload: bool, active: UnitActiveState) -> (r: Result<
    (),
    UnitActionError,
>)
    ensures
        r == (if !can_reload {
            Err(UnitActionError::EBadR)
        } else if active == UnitActiveState::UnitReloading {
            Err(UnitActionError::EAgain)
        } else if active != UnitActiveState::UnitActive {
            Err(UnitActionError::ENoExec)
        } else {
            Ok(())
        }),
{
    if !can_reload {
        return Err(UnitActionError::EBadR);
    }
    if active == UnitActiveState::UnitReloading {
        return Err(UnitActionError::EAgain);
    }
    if active != UnitActiveState::UnitActive {
        return Err(UnitActionError::ENoExec);
    }
    Ok(())
}

/// What a unit's reload returns for the sub-unit's answer: `EOpNotSupp`
/// counts as success (and `notify` says that a success notification is
/// due); any other error is passed on.
pub fn reload_outcome(sub: Result<(), UnitActionError>) -> (r: (Result<(), UnitActionError>, bool))
    ensures
        sub == Err::<(), UnitActionError>(UnitActionError::EOpNotSupp) ==> r == (
        Ok::<(), UnitActionError>(()),
        true,
        ),
        sub != Err::<(), UnitActionError>(UnitActionError::EOpNotSupp) ==> r == (sub, false),
{
    match sub {
        Ok(v) => (Ok(v), false),
        Err(e) => {
            if e == UnitActionError::EOpNotSupp {
                (Ok(()), true)
            } else {
                (Err(e), false)
            }
        },
    }
}

/// Stub and merged are transient: the load is not complete.
pub fn load_complete(load: UnitLoadState) -> (r: bool)
    ensures
        r == (load != UnitLoadState::UnitStub && load != UnitLoadState::UnitMerged),
{
    load != UnitLoadState::UnitStub && load != UnitLoadState::UnitMerged
}

/// A loaded unit is usable; any other load state is a `LoadError` naming it.
pub fn validate_load_state(load: UnitLoadState) -> (r: Result<(), UnitActionError>)
    ensures
        r == (if load == UnitLoadState::UnitLoaded {
            Ok(())
        } else {
            Err(UnitActionError::LoadError(load))
        }),
{
    if load == UnitLoadState::UnitLoaded {
        Ok(())
    } else {
        Err(UnitActionError::LoadError(load))
    }
}

/// The load state after loading a unit: a mount has no fragment and is
/// loaded directly; otherwise a missing fragment gives `NotFound`, a
/// fragment that the sub-unit refuses `Error`, and one it accepts `Loaded`.
/// A fragment masked to `/dev/null` gives `Masked`.
pub fn load_outcome(utype: UnitType, fragment_found: bool, masked: bool, sub_load_ok: bool) -> (r:
    UnitLoadState)
    ensures
        r == (if utype == UnitType::UnitMount {
            UnitLoadState::UnitLoaded
        } else if masked {
            UnitLoadState::UnitMasked
        } else if !fragment_found {
            UnitLoadState::UnitNotFound
        } else if !sub_load_ok {
            UnitLoadState::UnitError
        } else {
            UnitLoadState::UnitLoaded
        }),
{
    if utype == UnitType::UnitMount {
        UnitLoadState::UnitLoaded
    } else if masked {
        UnitLoadState::UnitMasked
    } else if !fragment_found {
        UnitLoadState::UnitNotFound
    } else if !sub_load_ok {
        UnitLoadState::UnitError
    } else {
        UnitLoadState::UnitLoaded
    }
}

/// The manager's checks before a start job: a manual start of a unit
/// with `RefuseManualStart` is refused.
pub fn start_unit_check(is_manual: bool, refuse_manual_start: bool) -> (r: Result<
    (),
    UnitActionError,
>)
    ensures
        r == (if is_manual && refuse_manual_start {
            Err(UnitActionError::ERefuseManualStart)
        } else {
            Ok(())
        }),
{
    if is_manual && refuse_manual_start {
        return Err(UnitActionError::ERefuseManualStart);
    }
    Ok(())
}

/// The manager's checks before a stop job (see `stop_unit_check`).
pub open spec fn spec_stop_unit_check(
    is_manual: bool,
    load: UnitLoadState,
    active: UnitActiveState,
    refuse_manual_stop: bool,
) -> Result<(), UnitActionError> {
    if is_manual && (load == UnitLoadState::UnitNotFound || load == UnitLoadState::UnitError || load
        == UnitLoadState::UnitBadSetting) && active != UnitActiveState::UnitActive {
        Err(UnitActionError::ENoent)
    } else if is_manual && refuse_manual_stop {
        Err(UnitActionError::ERefuseManualStop)
    } else {
        Ok(())
    }
}

/// The manager's checks before a restart job (see `restart_unit_check`).
pub open spec fn spec_restart_unit_check(is_manual: bool, refuse_manual_stop: bool, refuse_manual_start: bool) -> Result<(), UnitActionError> {
    if is_manual && refuse_manual_stop {
        Err(UnitActionError::ERefuseManualStop)
    } else if is_manual && refuse_manual_start {
        Err(UnitActionError::ERefuseManualStart)
    } else {
        Ok(())
    }
}

/// The manager's checks before a stop job: a manual stop of a unit whose
/// definition was not found, failed or is bad, and which is not active,
/// gives `ENoent`; a manual stop of a unit with `RefuseManualStop` is
/// refused.
pub fn stop_unit_check(
    is_manual: bool,
    load: UnitLoadState,
    active: UnitActiveState,
    refuse_manual_stop: bool,
) -> (r: Result<(), UnitActionError>)
    ensures
        r == (if is_manual && (load == UnitLoadState::UnitNotFound || load
            == UnitLoadState::UnitError || load == UnitLoadState::UnitBadSetting) && active
            != UnitActiveState::UnitActive {
            Err(UnitActionError::ENoent)
        } else if is_manual && refuse_manual_stop {
            Err(UnitActionError::ERefuseManualStop)
        } else {
            Ok(())
        }),
{
    if is_manual && (load == UnitLoadState::UnitNotFound || load == UnitLoadState::UnitError
        || load == UnitLoadState::UnitBadSetting) && active != UnitActiveState::UnitActive {
        return Err(UnitActionError::ENoent);
    }
    if is_manual && refuse_manual_stop {
        return Err(UnitActionError::ERefuseManualStop);
    }
    Ok(())
}

/// The manager's checks before a restart job: a manual restart is refused
/// where the unit refuses a manual stop, or else a manual start.
pub fn restart_unit_check(is_manual: bool, refuse_manual_stop: bool, refuse_manual_start: bool) -> (r:
    Result<(), UnitActionError>)
    ensures
        r == (if is_manual && refuse_manual_stop {
            Err(UnitActionError::ERefuseManualStop)
        } else if is_manual && refuse_manual_start {
            Err(UnitActionError::ERefuseManualStart)
        } else {
            Ok(())
        }),
{
    if is_manual && refuse_manual_stop {
        return Err(UnitActionError::ERefuseManualStop);
    }
    if is_manual && refuse_manual_start {
        return Err(UnitActionError::ERefuseManualStart);
    }
    Ok(())
}

/// How the processes of a unit are killed.
#[derive(Clone, Copy, Debug, PartialEq, Eq, Structural)]
pub enum KillMode {
    ControlGroup,
    Process,
    Mixed,
    KillNone,
}

/// What to signal when a unit's processes are killed.
pub struct KillPlan {
    /// The signal sent to each pid in `pids`.
    pub signal: Signal,
    /// Whether each of `pids` is sent SIGCONT after `signal`.
    pub send_cont: bool,
    /// The main pid, then the control pid, those that are known.
    pub pids: Vec<i32>,
    /// Whether the whole cgroup is killed recursively, sparing `pids`.
    pub kill_cgroup: bool,
}

/// The main pid, then the control pid, those that are known.
pub open spec fn known_pids(main_pid: Option<i32>, ctrl_pid: Option<i32>) -> Seq<i32> {
    let m = match main_pid {
        Some(p) => seq![p],
        None => Seq::empty(),
    };
    let c = match ctrl_pid {
        Some(p) => seq![p],
        None => Seq::empty(),
    };
    m + c
}

/// Plans a kill: the operation's signal to the main and control pids,
/// followed by SIGCONT unless the signal is SIGKILL (or SIGCONT); the cgroup
/// is killed too where the unit has one and the mode is `ControlGroup`, or
/// `Mixed` with a `KillKill` operation.
pub fn kill_plan(
    mode: KillMode,
    op: KillOperation,
    main_pid: Option<i32>,
    ctrl_pid: Option<i32>,
    has_cgroup: bool,
) -> (p: KillPlan)
    ensures
        p.signal == spec_kill_signal(op),
        p.send_cont == (p.signal != Signal::SigKill && p.signal != Signal::SigCont),
        p.pids@ == known_pids(main_pid, ctrl_pid),
        p.kill_cgroup == (has_cgroup && (mode == KillMode::ControlGroup || (mode == KillMode::Mixed
            && op == KillOperation::KillKill))),
{
    let signal = op.to_signal();
    let send_cont = signal != Signal::SigKill && signal != Signal::SigCont;
    let mut pids: Vec<i32> = Vec::new();
    if let Some(m) = main_pid {
        pids.push(m);
    }
    if let Some(c) = ctrl_pid {
        pids.push(c);
    }
    proof {
        assert(pids@ =~= known_pids(main_pid, ctrl_pid));
    }
    let kill_cgroup = has_cgroup && (mode == KillMode::ControlGroup || (mode == KillMode::Mixed && op
        == KillOperation::KillKill));
    KillPlan { signal, send_cont, pids, kill_cgroup }
}

} // verus!
