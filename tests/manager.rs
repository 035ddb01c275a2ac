use sysmaster_core::unit_base::UnitActiveState::{
    UnitActivating, UnitActive, UnitDeactiviting, UnitFailed, UnitInactive,
};
use sysmaster_core::data::DataManager;
use sysmaster_core::execute::{execute_unit_file_command, UnitFileAction};
use sysmaster_core::manager::{status_pids_text, unit_list_header, unit_list_row};
use sysmaster_core::errors::{ExecCmdErrno, UnitActionError};
use sysmaster_core::execute::{
    execute_sys_command, execute_unit_command, plain_command_response, unit_command_response,
    ExecuterAction, SysAction, UnitAction,
};
use sysmaster_core::job::{job_merge, Admitted, JobError, JobKind, JobMode, JobQueue, JobResult, JobState};
use sysmaster_core::manager::{
    emergency_step, initialize_runtime, job_timeout_action_due, relation_active_or_pending,
    reload_job_skip, should_unmask, start_limit_action_due, start_ready, state_change_actions,
    stop_ready, EmergencyStep, ManagerState, RebootMode, SpecialTarget,
};
use sysmaster_core::notify::{parse_notify_message, parse_pid};
use sysmaster_core::start_limit::StartLimitResult;
use sysmaster_core::unit_base::UnitActiveState;
use sysmaster_core::unit_config::{UnitConfig, UnitEmergencyAction};

#[test]
fn start_twice_merges_into_one_job() {
    let mut q = JobQueue::new();
    let first = q.submit(7, JobKind::Start, JobMode::Replace);
    assert_eq!(first, Ok(Admitted::Created(1)));
    let second = q.submit(7, JobKind::Start, JobMode::Replace);
    assert_eq!(second, Ok(Admitted::Merged(1)));
    let j = q.job_of(7).unwrap();
    assert_eq!((j.id, j.kind, j.state), (1, JobKind::Start, JobState::Waiting));
}

#[test]
fn conflicting_job_fail_and_replace() {
    let mut q = JobQueue::new();
    assert_eq!(q.submit(3, JobKind::Start, JobMode::Replace), Ok(Admitted::Created(1)));
    assert_eq!(q.submit(3, JobKind::Stop, JobMode::Fail), Err(JobError::ETxn));
    assert_eq!(q.job_of(3).unwrap().kind, JobKind::Start);
    assert_eq!(
        q.submit(3, JobKind::Stop, JobMode::Replace),
        Ok(Admitted::Replaced { id: 2, cancelled: 1 })
    );
    assert_eq!(q.job_of(3).unwrap().kind, JobKind::Stop);
    assert_eq!(q.submit(3, JobKind::Stop, JobMode::Isolate), Err(JobError::EInval));
}

#[test]
fn merge_table() {
    assert_eq!(job_merge(JobKind::Reload, JobKind::Start), Some(JobKind::Start));
    assert_eq!(job_merge(JobKind::Start, JobKind::Restart), Some(JobKind::Restart));
    assert_eq!(job_merge(JobKind::Stop, JobKind::Start), None);
    assert_eq!(job_merge(JobKind::Nop, JobKind::Stop), Some(JobKind::Stop));
    assert_eq!(job_merge(JobKind::Verify, JobKind::Reload), Some(JobKind::Reload));
    assert_eq!(job_merge(JobKind::Stop, JobKind::Stop), Some(JobKind::Stop));
}

#[test]
fn finish_and_running() {
    let mut q = JobQueue::new();
    assert!(q.submit(1, JobKind::Reload, JobMode::Replace).is_ok());
    assert!(q.set_running(1));
    assert_eq!(q.job_of(1).unwrap().state, JobState::Running);
    assert!(!q.set_running(2));
    let done = q.finish(1).unwrap();
    assert_eq!(done.kind, JobKind::Reload);
    assert_eq!(q.job_of(1), None);
    assert_eq!(q.finish(1), None);
}

#[test]
fn isolate_stops_active_units_outside_target() {
    // foo.target (1) conflicts with bar.target (2), which is active.
    let mut q = JobQueue::new();
    assert!(q.submit(1, JobKind::Start, JobMode::Isolate).is_ok());
    let active = vec![2u64, 5, 6];
    let ignore = vec![false, true, false];
    let keep = vec![1u64, 6];
    assert_eq!(q.isolate(&active, &ignore, &keep), Ok(()));
    assert_eq!(q.job_of(2).unwrap().kind, JobKind::Stop);
    assert_eq!(q.job_of(5), None);
    assert_eq!(q.job_of(6), None);
    assert_eq!(q.job_of(1).unwrap().kind, JobKind::Start);
}

#[test]
fn ordering_release() {
    assert!(!start_ready(&vec![UnitActivating]));
    assert!(start_ready(&vec![UnitActive, UnitActive]));
    assert!(start_ready(&vec![]));
    assert!(stop_ready(&vec![UnitInactive, UnitFailed]));
    assert!(!stop_ready(&vec![UnitDeactiviting]));
    assert!(relation_active_or_pending(&vec![UnitInactive, UnitActivating]));
    assert!(!relation_active_or_pending(&vec![UnitInactive, UnitFailed]));
}

#[test]
fn unreloadable_reload_is_unsupported() {
    assert_eq!(reload_job_skip(false), Some(JobResult::Unsupported));
    assert_eq!(reload_job_skip(true), None);
}

#[test]
fn emergency_actions() {
    assert_eq!(emergency_step(UnitEmergencyAction::NoAction, false, false), EmergencyStep::Nothing);
    assert_eq!(
        emergency_step(UnitEmergencyAction::Reboot, false, false),
        EmergencyStep::StartTarget(SpecialTarget::RebootTarget)
    );
    assert_eq!(emergency_step(UnitEmergencyAction::Reboot, true, false), EmergencyStep::Nothing);
    assert_eq!(emergency_step(UnitEmergencyAction::Exit, false, true), EmergencyStep::Nothing);
    assert_eq!(
        emergency_step(UnitEmergencyAction::PoweroffForce, true, true),
        EmergencyStep::SetState(ManagerState::PowerOff)
    );
    assert_eq!(
        emergency_step(UnitEmergencyAction::RebootImmediate, false, false),
        EmergencyStep::SyncAndReboot(RebootMode::Autoboot)
    );
    assert_eq!(SpecialTarget::PoweroffTarget.name(), "poweroff.target");
    assert_eq!(SpecialTarget::ExitTarget.name(), "exit.target");
}

#[test]
fn state_changes_dispatch_actions() {
    let a = state_change_actions(UnitActive, UnitFailed);
    assert!(a.failure && !a.success);
    let b = state_change_actions(UnitFailed, UnitFailed);
    assert!(!b.failure && !b.success);
    let c = state_change_actions(UnitDeactiviting, UnitInactive);
    assert!(!c.failure && c.success);
    let d = state_change_actions(UnitFailed, UnitInactive);
    assert!(!d.success);
    assert!(start_limit_action_due(StartLimitResult::StartLimitHit));
    assert!(!start_limit_action_due(StartLimitResult::StartLimitNotHit));
    assert!(job_timeout_action_due(JobResult::TimeOut));
    assert!(!job_timeout_action_due(JobResult::Done));
}

#[test]
fn unmask_only_links_to_dev_null() {
    assert!(should_unmask("/dev/null"));
    assert!(!should_unmask("/usr/lib/systemd/system/mask.service"));
    assert!(!should_unmask("/dev/null2"));
}

#[test]
fn runtime_steps() {
    let on = initialize_runtime(true);
    assert!(on.install_crash_handler && on.set_child_reaper);
    let off = initialize_runtime(false);
    assert!(!off.install_crash_handler && off.set_child_reaper);
}

#[test]
fn notify_ready_and_mainpid() {
    let pairs = parse_notify_message(b"READY=1\nMAINPID=4242");
    assert_eq!(
        pairs,
        vec![
            (b"READY".to_vec(), b"1".to_vec()),
            (b"MAINPID".to_vec(), b"4242".to_vec())
        ]
    );
    assert_eq!(parse_pid(&pairs[1].1), Some(4242));
}

#[test]
fn notify_lines_without_assignment_are_skipped() {
    let pairs = parse_notify_message(b"garbage\nSTATUS=a=b\n\nERRNO=");
    assert_eq!(
        pairs,
        vec![
            (b"STATUS".to_vec(), b"a=b".to_vec()),
            (b"ERRNO".to_vec(), Vec::new())
        ]
    );
    assert!(parse_notify_message(b"").is_empty());
}

#[test]
fn pid_values() {
    assert_eq!(parse_pid(&b"1".to_vec()), Some(1));
    assert_eq!(parse_pid(&b"2147483647".to_vec()), Some(2147483647));
    assert_eq!(parse_pid(&b"2147483648".to_vec()), None);
    assert_eq!(parse_pid(&b"0".to_vec()), None);
    assert_eq!(parse_pid(&b"".to_vec()), None);
    assert_eq!(parse_pid(&b"12a".to_vec()), None);
    assert_eq!(parse_pid(&b"99999999999999999999".to_vec()), None);
}

#[test]
fn command_responses() {
    let ok = unit_command_response(UnitAction::Status, "a.service", Ok(String::from("running")));
    assert_eq!((ok.status, ok.message.as_str()), (200, "running"));
    let err = unit_command_response(UnitAction::Start, "a.service", Err(ExecCmdErrno::NotExisted));
    assert_eq!(err.status, 500);
    assert_eq!(err.message, "Failed to start a.service: No such file or directory");
    let p = plain_command_response(false);
    assert_eq!((p.status, p.message.as_str()), (500, "error."));
    let q = plain_command_response(true);
    assert_eq!((q.status, q.message.as_str()), (200, ""));
}

struct FakeManager;

impl ExecuterAction for FakeManager {
    fn start(&self, _unit_name: &str) -> Result<(), ExecCmdErrno> {
        Ok(())
    }
    fn stop(&self, _unit_name: &str) -> Result<(), ExecCmdErrno> {
        Err(ExecCmdErrno::NotSupported)
    }
    fn status(&self, unit_name: &str) -> Result<String, ExecCmdErrno> {
        Ok(format!("{unit_name} is active"))
    }
    fn suspend(&self) -> Result<i32, ExecCmdErrno> {
        Ok(0)
    }
    fn poweroff(&self) -> Result<i32, ExecCmdErrno> {
        Err(ExecCmdErrno::Internal)
    }
    fn reboot(&self) -> Result<i32, ExecCmdErrno> {
        Ok(0)
    }
    fn halt(&self) -> Result<i32, ExecCmdErrno> {
        Ok(0)
    }
    fn disable(&self, _unit_name: &str) -> Result<(), ExecCmdErrno> {
        Ok(())
    }
    fn enable(&self, _unit_name: &str) -> Result<(), ExecCmdErrno> {
        Ok(())
    }
}

#[test]
fn commands_through_manager() {
    let m = FakeManager;
    let r = execute_unit_command(UnitAction::Stop, "b.service", &m);
    assert_eq!(r.status, 500);
    assert_eq!(r.message, "Failed to stop b.service: Unsupported action");
    let s = execute_unit_command(UnitAction::Status, "b.service", &m);
    assert_eq!((s.status, s.message.as_str()), (200, "b.service is active"));
    assert_eq!(execute_sys_command(SysAction::Shutdown, &m).status, 500);
    assert_eq!(execute_sys_command(SysAction::Hibernate, &m).status, 200);
}

#[test]
fn data_manager_tables() {
    let mut dm = DataManager::new();
    assert!(dm.insert_unit_config(String::from("a.service"), UnitConfig::new()).is_none());
    let mut c = UnitConfig::new();
    c.refuse_manual_start = true;
    let old = dm.insert_unit_config(String::from("a.service"), c).unwrap();
    assert!(!old.refuse_manual_start);
    let removed = dm.remove_unit_config(&String::from("a.service")).unwrap();
    assert!(removed.refuse_manual_start);
    assert!(dm.remove_unit_config(&String::from("a.service")).is_none());
    assert_eq!(dm.register_unit_config(String::from("manager"), 1), None);
    assert_eq!(dm.register_unit_config(String::from("manager"), 2), Some(1));
}

#[test]
fn default_unit_config() {
    let c = UnitConfig::new();
    assert!(c.default_dependencies);
    assert_eq!(c.start_limit_burst, 5);
    assert_eq!(c.failure_action, UnitEmergencyAction::NoAction);
    assert!(c.description.is_empty());
}

#[test]
fn unit_action_error_names_load_state() {
    let e = UnitActionError::LoadError(sysmaster_core::unit_base::UnitLoadState::UnitMasked);
    assert_ne!(e, UnitActionError::EInval);
}

#[test]
fn unit_listing_rows() {
    assert_eq!(unit_list_header(), vec!["UNIT", "LOAD", "ACTIVE", "SUB", "DESCRIPTION"]);
    let (row, red) = unit_list_row("a.service", true, UnitFailed, "failed", None);
    assert_eq!(row, vec!["a.service", "true", "failed", "failed", "a.service"]);
    assert!(red);
    let (row, red) = unit_list_row("b.service", false, UnitActive, "running", Some("Bee"));
    assert_eq!(row, vec!["b.service", "false", "active", "running", "Bee"]);
    assert!(!red);
}

#[test]
fn status_process_lines() {
    assert_eq!(status_pids_text(&vec![], &vec![]), "No process");
    assert_eq!(
        status_pids_text(&vec![12, 345], &vec!["/bin/a -x".to_string(), "/bin/b".to_string()]),
        "12 /bin/a -x\n345 /bin/b"
    );
}

#[test]
fn unit_file_commands() {
    let m = FakeManager;
    assert_eq!(execute_unit_file_command(UnitFileAction::Enable, "a.service", &m).status, 200);
    assert_eq!(execute_unit_file_command(UnitFileAction::Disable, "a.service", &m).status, 200);
}

#[test]
fn flush_cancels_other_jobs() {
    let mut q = JobQueue::new();
    assert!(q.submit(1, JobKind::Start, JobMode::Replace).is_ok());
    assert!(q.submit(2, JobKind::Stop, JobMode::Replace).is_ok());
    assert_eq!(q.submit(3, JobKind::Start, JobMode::Flush), Ok(Admitted::Created(3)));
    assert_eq!(q.job_of(1), None);
    assert_eq!(q.job_of(2), None);
    assert_eq!(q.job_of(3).unwrap().kind, JobKind::Start);
    assert!(q.submit(4, JobKind::Start, JobMode::Replace).is_ok());
    assert_eq!(q.submit(3, JobKind::Start, JobMode::Flush), Ok(Admitted::Merged(3)));
    assert_eq!(q.job_of(4), None);
}
