use sysmaster_core::unit_base::UnitActiveState::{
    UnitActivating, UnitActive, UnitFailed, UnitInactive, UnitMaintenance, UnitReloading,
};
use sysmaster_core::child_watch::{ChildWatch, WatchError};
use sysmaster_core::errors::{ExecCmdErrno, MonitorNetlinkGroup, UnitActionError};
use sysmaster_core::lifecycle::{
    kill_plan, load_outcome, reload_check, reload_outcome, restart_unit_check, start_check,
    start_unit_check, stop_check, stop_unit_check, validate_load_state, KillMode,
};
use sysmaster_core::rentry::{compensator_of, Compensator, LastFrame, ReliLastFrame, ReliLastQue};
use sysmaster_core::start_limit::{RateLimit, StartLimitResult};
use sysmaster_core::unit_base::{
    unit_name_to_type, KillOperation, Signal, UnitActiveState, UnitLoadState, UnitType,
};

#[test]
fn unit_types_from_names() {
    assert_eq!(unit_name_to_type("foo.service"), UnitType::UnitService);
    assert_eq!(unit_name_to_type("a.b.target"), UnitType::UnitTarget);
    assert_eq!(unit_name_to_type("x.socket"), UnitType::UnitSocket);
    assert_eq!(unit_name_to_type("-.mount"), UnitType::UnitMount);
    assert_eq!(unit_name_to_type("service"), UnitType::UnitTypeInvalid);
    assert_eq!(unit_name_to_type("foo.services"), UnitType::UnitTypeInvalid);
    assert_eq!(unit_name_to_type("foo.service."), UnitType::UnitTypeInvalid);
    assert_eq!(unit_name_to_type(""), UnitType::UnitTypeInvalid);
}

#[test]
fn kill_operations_map_to_signals() {
    assert_eq!(KillOperation::KillTerminate.to_signal(), Signal::SigTerm);
    assert_eq!(KillOperation::KillRestart.to_signal(), Signal::SigTerm);
    assert_eq!(KillOperation::KillKill.to_signal(), Signal::SigKill);
    assert_eq!(KillOperation::KillWatchdog.to_signal(), Signal::SigAbrt);
    assert_eq!(Signal::SigKill.number(), 9);
    assert_eq!(Signal::SigTerm.number(), 15);
}

#[test]
fn kill_plan_follows_with_sigcont_and_cgroup() {
    let p = kill_plan(KillMode::ControlGroup, KillOperation::KillTerminate, Some(10), Some(11), true);
    assert_eq!(p.signal, Signal::SigTerm);
    assert!(p.send_cont);
    assert_eq!(p.pids, vec![10, 11]);
    assert!(p.kill_cgroup);
    let k = kill_plan(KillMode::Mixed, KillOperation::KillKill, None, Some(7), true);
    assert!(!k.send_cont);
    assert_eq!(k.pids, vec![7]);
    assert!(k.kill_cgroup);
    let m = kill_plan(KillMode::Mixed, KillOperation::KillTerminate, Some(3), None, true);
    assert!(!m.kill_cgroup);
    let n = kill_plan(KillMode::ControlGroup, KillOperation::KillTerminate, None, None, false);
    assert!(!n.kill_cgroup);
    assert!(n.pids.is_empty());
}

#[test]
fn start_ladder() {
    let loaded = UnitLoadState::UnitLoaded;
    assert_eq!(start_check(UnitActive, loaded, true, true), Err(UnitActionError::EAlready));
    assert_eq!(start_check(UnitReloading, loaded, true, true), Err(UnitActionError::EAlready));
    assert_eq!(start_check(UnitMaintenance, loaded, true, true), Err(UnitActionError::EAgain));
    assert_eq!(
        start_check(UnitInactive, UnitLoadState::UnitNotFound, true, true),
        Err(UnitActionError::EInval)
    );
    assert_eq!(start_check(UnitInactive, loaded, false, true), Err(UnitActionError::EInval));
    assert_eq!(start_check(UnitInactive, loaded, true, false), Err(UnitActionError::EInval));
    assert_eq!(start_check(UnitActivating, loaded, false, false), Ok(()));
    assert_eq!(start_check(UnitInactive, loaded, true, true), Ok(()));
}

#[test]
fn stop_and_reload_ladders() {
    assert_eq!(stop_check(UnitInactive, false), Err(UnitActionError::EAlready));
    assert_eq!(stop_check(UnitFailed, false), Err(UnitActionError::EAlready));
    assert_eq!(stop_check(UnitFailed, true), Ok(()));
    assert_eq!(stop_check(UnitActive, false), Ok(()));
    assert_eq!(reload_check(false, UnitActive), Err(UnitActionError::EBadR));
    assert_eq!(reload_check(true, UnitReloading), Err(UnitActionError::EAgain));
    assert_eq!(reload_check(true, UnitInactive), Err(UnitActionError::ENoExec));
    assert_eq!(reload_check(true, UnitActive), Ok(()));
    assert_eq!(reload_outcome(Err(UnitActionError::EOpNotSupp)), (Ok(()), true));
    assert_eq!(reload_outcome(Err(UnitActionError::EBusy)), (Err(UnitActionError::EBusy), false));
    assert_eq!(reload_outcome(Ok(())), (Ok(()), false));
}

#[test]
fn manager_policy_checks() {
    assert_eq!(start_unit_check(true, true), Err(UnitActionError::ERefuseManualStart));
    assert_eq!(start_unit_check(false, true), Ok(()));
    assert_eq!(
        stop_unit_check(true, UnitLoadState::UnitNotFound, UnitActiveState::UnitInactive, false),
        Err(UnitActionError::ENoent)
    );
    assert_eq!(
        stop_unit_check(true, UnitLoadState::UnitLoaded, UnitActiveState::UnitActive, true),
        Err(UnitActionError::ERefuseManualStop)
    );
    assert_eq!(
        stop_unit_check(false, UnitLoadState::UnitLoaded, UnitActiveState::UnitActive, true),
        Ok(())
    );
    assert_eq!(restart_unit_check(true, true, true), Err(UnitActionError::ERefuseManualStop));
    assert_eq!(restart_unit_check(true, false, true), Err(UnitActionError::ERefuseManualStart));
    assert_eq!(restart_unit_check(false, true, true), Ok(()));
}

#[test]
fn masked_unit_cannot_start() {
    let state = load_outcome(UnitType::UnitService, true, true, true);
    assert_eq!(state, UnitLoadState::UnitMasked);
    assert_eq!(
        validate_load_state(state),
        Err(UnitActionError::LoadError(UnitLoadState::UnitMasked))
    );
    let unmasked = load_outcome(UnitType::UnitService, true, false, true);
    assert_eq!(validate_load_state(unmasked), Ok(()));
    assert_eq!(load_outcome(UnitType::UnitMount, false, false, false), UnitLoadState::UnitLoaded);
    assert_eq!(load_outcome(UnitType::UnitService, false, false, true), UnitLoadState::UnitNotFound);
    assert_eq!(load_outcome(UnitType::UnitService, true, false, false), UnitLoadState::UnitError);
}

#[test]
fn errno_messages() {
    assert_eq!(ExecCmdErrno::Input.message(), "Invalid input");
    assert_eq!(ExecCmdErrno::NotExisted.message(), "No such file or directory");
    assert_eq!(ExecCmdErrno::Internal.message(), "Unexpected internal error");
    assert_eq!(ExecCmdErrno::NotSupported.message(), "Unsupported action");
    assert_eq!(MonitorNetlinkGroup::Kernel.group_number(), 1);
    assert_eq!(MonitorNetlinkGroup::NoGroup.group_number(), 0);
}

#[test]
fn last_queue_codes() {
    assert_eq!(ReliLastQue::try_from(0), Ok(ReliLastQue::Load));
    assert_eq!(ReliLastQue::try_from(9), Ok(ReliLastQue::Dbus));
    assert_eq!(ReliLastQue::try_from(10), Err(10));
    for c in 0..10u32 {
        assert_eq!(ReliLastQue::try_from(c).unwrap().code(), c);
    }
    assert_eq!(ReliLastFrame::try_from(2), Ok(ReliLastFrame::SigChld));
    assert_eq!(ReliLastFrame::try_from(99), Err(99));
}

#[test]
fn last_frame_routing() {
    assert_eq!(compensator_of(0, None, false), Compensator::RuntimeQueue);
    assert_eq!(compensator_of(1, None, true), Compensator::JobEngine);
    assert_eq!(compensator_of(5, Some(0), true), Compensator::SubManager(UnitType::UnitService));
    assert_eq!(compensator_of(5, Some(0), false), Compensator::Nothing);
    assert_eq!(compensator_of(5, Some(17), true), Compensator::Nothing);
    assert_eq!(compensator_of(3, None, true), Compensator::Nothing);
    assert_eq!(compensator_of(42, None, true), Compensator::Nothing);
    let mut f = LastFrame::new();
    assert_eq!(f.last_frame(), None);
    f.set_last_frame(ReliLastFrame::SigChld, None, Some(3));
    assert_eq!(f.last_frame(), Some((2, None, Some(3))));
    f.clear_last_frame();
    assert_eq!(f.last_frame(), None);
}

#[test]
fn pid_bound_to_one_unit_only() {
    let mut w = ChildWatch::new();
    assert_eq!(w.child_add_watch_pid(1, 100), Ok(()));
    assert_eq!(w.child_add_watch_pid(2, 100), Err(WatchError::WatchedByOther));
    assert_eq!(w.get_unit_by_pid(100), Some(1));
    assert_eq!(w.child_add_watch_pid(1, 100), Ok(()));
    assert!(w.same_unit_with_pid(1, 100));
    assert!(!w.same_unit_with_pid(2, 100));
    w.child_unwatch_pid(2, 100);
    assert_eq!(w.get_unit_by_pid(100), Some(1));
    w.child_unwatch_pid(1, 100);
    assert_eq!(w.get_unit_by_pid(100), None);
    assert_eq!(w.child_add_watch_pid(2, 100), Ok(()));
    assert_eq!(w.get_unit_by_pid(100), Some(2));
}

#[test]
fn start_limit_three_in_ten_seconds() {
    let mut rl = RateLimit::new(10_000_000, 3);
    let t0 = 5_000_000u64;
    let results: Vec<bool> = (0..4).map(|k| rl.ratelimit_below(t0 + k * 250_000)).collect();
    assert_eq!(results, vec![true, true, true, false]);
    assert!(rl.ratelimit_below(t0 + 10_000_001));
}

#[test]
fn start_limit_hit_is_reported() {
    let mut rl = RateLimit::new(10_000_000, 3);
    let mut hits = 0;
    let mut starts = 0;
    for k in 0..4u64 {
        match rl.test_start_limit(1 + k * 300_000) {
            StartLimitResult::StartLimitNotHit => starts += 1,
            StartLimitResult::StartLimitHit => hits += 1,
        }
    }
    assert_eq!((starts, hits), (3, 1));
}

#[test]
fn start_limit_without_limit() {
    let mut rl = RateLimit::new(0, 3);
    for k in 0..10u64 {
        assert!(rl.ratelimit_below(k));
    }
    rl.init_from_config(0, 0);
    assert_eq!(rl.interval, 0);
    rl.init_from_config(1000, 1);
    assert!(rl.ratelimit_below(1));
    assert!(!rl.ratelimit_below(2));
}
