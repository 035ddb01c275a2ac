use sysmaster_core::errors::{MngErrno, UnitActionError};
use sysmaster_core::job::{Admitted, JobKind, JobResult};
use sysmaster_core::lifecycle::{load_outcome, validate_load_state};
use sysmaster_core::manager::{
    reload_job_skip, should_unmask, start_ready, EmergencyStep, ManagerState, SpecialTarget,
};
use sysmaster_core::notify::{parse_notify_message, parse_pid};
use sysmaster_core::relation::{UnitRelations, UNIT_DEPENDENCY_FILE};
use sysmaster_core::unit_base::{UnitActiveState, UnitLoadState, UnitType};
use sysmaster_core::unit_config::{UnitConfig, UnitEmergencyAction};
use sysmaster_core::unit_manager::UnitManager;

fn name(s: &str) -> String {
    s.to_string()
}

#[test]
fn trivial_service_runs_and_exits() {
    let mut m = UnitManager::new();
    let id = m.add_unit(name("hello.service"), UnitType::UnitService, &UnitConfig::new()).unwrap();
    assert_eq!(m.start_unit(&name("hello.service"), true), Ok(Admitted::Created(1)));
    assert_eq!(m.job_of(id).unwrap().kind, JobKind::Start);
    let (r, _) = m.unit_state_changed(
        id,
        &name("hello.service"),
        UnitLoadState::UnitLoaded,
        UnitActiveState::UnitInactive,
        UnitActiveState::UnitActivating,
    );
    assert_eq!(r, None);
    let (r, actions) = m.unit_state_changed(
        id,
        &name("hello.service"),
        UnitLoadState::UnitLoaded,
        UnitActiveState::UnitActivating,
        UnitActiveState::UnitInactive,
    );
    assert_eq!(r, Some(JobResult::Done));
    assert!(actions.success && !actions.failure);
    assert_eq!(m.job_of(id), None);
}

#[test]
fn dependency_is_started_first() {
    let mut m = UnitManager::new();
    let cfg = UnitConfig::new();
    let a = m.add_unit(name("a.service"), UnitType::UnitService, &cfg).unwrap();
    let b = m.add_unit(name("b.service"), UnitType::UnitService, &cfg).unwrap();
    assert!(m.unit_add_dependency(a, UnitRelations::UnitAfter, b, UNIT_DEPENDENCY_FILE).is_ok());
    assert!(m.unit_add_dependency(a, UnitRelations::UnitRequires, b, UNIT_DEPENDENCY_FILE).is_ok());
    assert_eq!(m.start_unit(&name("a.service"), false), Ok(Admitted::Created(2)));
    assert_eq!(m.job_of(a).unwrap().kind, JobKind::Start);
    assert_eq!(m.job_of(b).unwrap().kind, JobKind::Start);
    // a waits for b
    assert!(!m.try_release(a));
    assert!(m.try_release(b));
    assert!(!m.try_release(b));
    m.set_state(&name("b.service"), UnitLoadState::UnitLoaded, UnitActiveState::UnitActivating);
    assert!(!m.try_release(a));
    assert!(!start_ready(&vec![UnitActiveState::UnitActivating]));
    let (r, _) = m.unit_state_changed(
        b,
        &name("b.service"),
        UnitLoadState::UnitLoaded,
        UnitActiveState::UnitActivating,
        UnitActiveState::UnitActive,
    );
    assert_eq!(r, Some(JobResult::Done));
    assert!(start_ready(&vec![UnitActiveState::UnitActive]));
    assert!(m.job_of(a).is_some());
    m.set_state(&name("b.service"), UnitLoadState::UnitLoaded, UnitActiveState::UnitActive);
    assert!(m.try_release(a));
}

#[test]
fn conflicting_target_is_stopped() {
    let mut m = UnitManager::new();
    let cfg = UnitConfig::new();
    let foo = m.add_unit(name("foo.target"), UnitType::UnitTarget, &cfg).unwrap();
    let bar = m.add_unit(name("bar.target"), UnitType::UnitTarget, &cfg).unwrap();
    assert!(m.unit_add_dependency(foo, UnitRelations::UnitConflicts, bar, UNIT_DEPENDENCY_FILE).is_ok());
    assert_eq!(m.start_unit(&name("foo.target"), false), Ok(Admitted::Created(2)));
    assert_eq!(m.job_of(bar).unwrap().kind, JobKind::Stop);
    let (r, _) = m.unit_state_changed(
        bar,
        &name("bar.target"),
        UnitLoadState::UnitLoaded,
        UnitActiveState::UnitActive,
        UnitActiveState::UnitInactive,
    );
    assert_eq!(r, Some(JobResult::Done));
    let (r, _) = m.unit_state_changed(
        foo,
        &name("foo.target"),
        UnitLoadState::UnitLoaded,
        UnitActiveState::UnitInactive,
        UnitActiveState::UnitActive,
    );
    assert_eq!(r, Some(JobResult::Done));
}

#[test]
fn notify_service_becomes_active_on_ready() {
    let mut m = UnitManager::new();
    let id = m.add_unit(name("notify.service"), UnitType::UnitService, &UnitConfig::new()).unwrap();
    assert!(m.start_unit(&name("notify.service"), false).is_ok());
    let (r, _) = m.unit_state_changed(
        id,
        &name("notify.service"),
        UnitLoadState::UnitLoaded,
        UnitActiveState::UnitInactive,
        UnitActiveState::UnitActivating,
    );
    assert_eq!(r, None);
    let msg = parse_notify_message(b"READY=1\nMAINPID=321");
    assert_eq!(msg[0], (b"READY".to_vec(), b"1".to_vec()));
    assert_eq!(parse_pid(&msg[1].1), Some(321));
    let (r, _) = m.unit_state_changed(
        id,
        &name("notify.service"),
        UnitLoadState::UnitLoaded,
        UnitActiveState::UnitActivating,
        UnitActiveState::UnitActive,
    );
    assert_eq!(r, Some(JobResult::Done));
}

#[test]
fn notify_service_without_ready_fails() {
    let mut m = UnitManager::new();
    let id = m.add_unit(name("notify.service"), UnitType::UnitService, &UnitConfig::new()).unwrap();
    assert!(m.start_unit(&name("notify.service"), false).is_ok());
    let (r, actions) = m.unit_state_changed(
        id,
        &name("notify.service"),
        UnitLoadState::UnitLoaded,
        UnitActiveState::UnitActivating,
        UnitActiveState::UnitFailed,
    );
    assert_eq!(r, Some(JobResult::Failed));
    assert!(actions.failure);
}

#[test]
fn reload_propagates_and_skips_unreloadable() {
    let mut m = UnitManager::new();
    let cfg = UnitConfig::new();
    let x = m.add_unit(name("x.service"), UnitType::UnitService, &cfg).unwrap();
    let y = m.add_unit(name("y.service"), UnitType::UnitService, &cfg).unwrap();
    assert!(m
        .unit_add_dependency(x, UnitRelations::UnitPropagatesReloadTo, y, UNIT_DEPENDENCY_FILE)
        .is_ok());
    assert_eq!(m.reload(&name("x.service")), Ok(Admitted::Created(2)));
    assert_eq!(m.job_of(x).unwrap().kind, JobKind::Reload);
    assert_eq!(m.job_of(y).unwrap().kind, JobKind::Reload);
    assert_eq!(reload_job_skip(false), Some(JobResult::Unsupported));
}

#[test]
fn masked_unit_start_fails_until_unmasked() {
    let masked = load_outcome(UnitType::UnitService, true, true, true);
    assert_eq!(
        validate_load_state(masked),
        Err(UnitActionError::LoadError(UnitLoadState::UnitMasked))
    );
    assert!(should_unmask("/dev/null"));
    let unmasked = load_outcome(UnitType::UnitService, true, false, true);
    assert_eq!(validate_load_state(unmasked), Ok(()));
}

#[test]
fn manager_errors() {
    let mut m = UnitManager::new();
    assert_eq!(m.start_unit(&name("nope.service"), true), Err(UnitActionError::ENoent));
    assert_eq!(m.stop_unit(&name("nope.service"), true), Err(UnitActionError::ENoent));
    assert_eq!(m.reload(&name("nope.service")), Err(UnitActionError::ENoent));
    let mut cfg = UnitConfig::new();
    cfg.refuse_manual_start = true;
    cfg.refuse_manual_stop = true;
    let id = m.add_unit(name("r.service"), UnitType::UnitService, &cfg).unwrap();
    assert_eq!(m.start_unit(&name("r.service"), true), Err(UnitActionError::ERefuseManualStart));
    assert_eq!(m.start_unit(&name("r.service"), false), Ok(Admitted::Created(1)));
    assert_eq!(m.restart_unit(&name("r.service"), true), Err(UnitActionError::ERefuseManualStop));
    m.set_state(&name("r.service"), UnitLoadState::UnitLoaded, UnitActiveState::UnitActive);
    assert_eq!(m.stop_unit(&name("r.service"), true), Err(UnitActionError::ERefuseManualStop));
    assert_eq!(m.stop_unit(&name("r.service"), false), Ok(Admitted::Replaced { id: 2, cancelled: 1 }));
    assert_eq!(m.job_of(id).unwrap().kind, JobKind::Stop);
    assert_eq!(m.units_get(&name("r.service")), Some(id));
}

#[test]
fn emergency_reboot_starts_target_once() {
    let mut m = UnitManager::new();
    let t = m.add_unit(name("reboot.target"), UnitType::UnitTarget, &UnitConfig::new()).unwrap();
    assert_eq!(
        m.unit_emergency_action(UnitEmergencyAction::Reboot),
        EmergencyStep::StartTarget(SpecialTarget::RebootTarget)
    );
    assert_eq!(m.job_of(t).unwrap().kind, JobKind::Start);
    assert_eq!(m.unit_emergency_action(UnitEmergencyAction::Reboot), EmergencyStep::Nothing);
    assert_eq!(
        m.unit_emergency_action(UnitEmergencyAction::ExitForce),
        EmergencyStep::SetState(ManagerState::Exit)
    );
    m.set_state(&name("poweroff.target"), UnitLoadState::UnitLoaded, UnitActiveState::UnitActive);
    assert_eq!(m.unit_emergency_action(UnitEmergencyAction::Poweroff), EmergencyStep::Nothing);
}

#[test]
fn masked_unit_is_not_started() {
    let mut m = UnitManager::new();
    let id = m.add_unit(name("mask.service"), UnitType::UnitService, &UnitConfig::new()).unwrap();
    m.set_state(&name("mask.service"), UnitLoadState::UnitMasked, UnitActiveState::UnitInactive);
    assert_eq!(
        m.start_unit(&name("mask.service"), true),
        Err(UnitActionError::LoadError(UnitLoadState::UnitMasked))
    );
    assert_eq!(m.job_of(id), None);
    m.set_state(&name("mask.service"), UnitLoadState::UnitLoaded, UnitActiveState::UnitInactive);
    assert_eq!(m.start_unit(&name("mask.service"), true), Ok(Admitted::Created(1)));
    assert_eq!(m.start_unit(&name("mask.service"), true), Ok(Admitted::Merged(1)));
}

#[test]
fn isolate_through_manager() {
    let mut m = UnitManager::new();
    let cfg = UnitConfig::new();
    let foo = m.add_unit(name("foo.target"), UnitType::UnitTarget, &cfg).unwrap();
    let bar = m.add_unit(name("bar.target"), UnitType::UnitTarget, &cfg).unwrap();
    let svc = m.add_unit(name("a.service"), UnitType::UnitService, &cfg).unwrap();
    assert!(m.unit_add_dependency(foo, UnitRelations::UnitWants, svc, UNIT_DEPENDENCY_FILE).is_ok());
    assert_eq!(m.isolate_unit(&name("foo.target"), true, &vec![bar, svc], &vec![false, false]), Ok(()));
    assert_eq!(m.job_of(foo).unwrap().kind, JobKind::Start);
    assert_eq!(m.job_of(bar).unwrap().kind, JobKind::Stop);
    assert_eq!(m.job_of(svc), None);
    assert_eq!(m.isolate_unit(&name("x.target"), true, &vec![], &vec![]), Err(UnitActionError::ENoent));
}

#[test]
fn reload_job_runs_or_is_skipped() {
    let mut m = UnitManager::new();
    let cfg = UnitConfig::new();
    let x = m.add_unit(name("x.service"), UnitType::UnitService, &cfg).unwrap();
    let y = m.add_unit(name("y.service"), UnitType::UnitService, &cfg).unwrap();
    assert!(m.unit_add_dependency(x, UnitRelations::UnitPropagatesReloadTo, y, UNIT_DEPENDENCY_FILE).is_ok());
    assert!(m.reload(&name("x.service")).is_ok());
    assert_eq!(m.run_reload_job(y, false), Some(JobResult::Unsupported));
    assert_eq!(m.job_of(y), None);
    assert_eq!(m.run_reload_job(x, true), None);
    assert_eq!(m.job_of(x).unwrap().state, sysmaster_core::job::JobState::Running);
}

#[test]
fn status_and_listing() {

    let mut m = UnitManager::new();
    let cfg = UnitConfig::new();
    m.add_unit(name("b.target"), UnitType::UnitTarget, &cfg).unwrap();
    m.add_unit(name("a.service"), UnitType::UnitService, &cfg).unwrap();
    m.set_state(&name("a.service"), UnitLoadState::UnitLoaded, UnitActiveState::UnitFailed);
    let rows = m.get_all_units(
        &vec![name("b.target"), name("a.service")],
        &vec![name("dead"), name("failed")],
        &vec![None, Some(name("Service A"))],
    );
    assert_eq!(
        rows,
        vec![
            vec!["UNIT", "LOAD", "ACTIVE", "SUB", "DESCRIPTION"],
            vec!["a.service", "true", "failed", "failed", "Service A"],
            vec!["b.target", "false", "inactive", "dead", "b.target"],
        ]
    );
    let st = m.get_unit_status(&name("a.service"), None, "failed", "", &vec![7], &vec![name("/bin/a")]).ok().unwrap();
    assert_eq!((st.error_code, st.load), (3, true));
    assert_eq!(st.active_state, "failed");
    assert_eq!(st.cgroup, "Empty cgroup path");
    assert_eq!(st.pids, "7 /bin/a");
    assert!(matches!(
        m.get_unit_status(&name("c.service"), None, "", "", &vec![], &vec![]),
        Err(MngErrno::NotExisted)
    ));
}
