use sysmaster_core::journal::{decode_log, encode_log};
use sysmaster_core::job::{job_deadline, job_timed_out, JobKind, JobMode, JobQueue, JobResult};
use sysmaster_core::manager::can_collect;
use sysmaster_core::service_config::{notify_accepts, NotifyAccess};
use sysmaster_core::unit_base::{UnitActiveState, UnitType};
use sysmaster_core::unit_db::UnitDb;

fn rec(k: &str, v: &str) -> (Vec<u8>, Vec<u8>) {
    (k.as_bytes().to_vec(), v.as_bytes().to_vec())
}

#[test]
fn log_round_trip() {
    let records = vec![rec("ubase", "a.service"), rec("", ""), rec("uchild", "1234")];
    let bytes = encode_log(&records);
    assert_eq!(bytes.len(), 8 * 3 + 5 + 9 + 6 + 4);
    assert_eq!(&bytes[0..4], &[5, 0, 0, 0]);
    assert_eq!(decode_log(&bytes), Some(records));
}

#[test]
fn empty_log() {
    let bytes = encode_log(&Vec::new());
    assert!(bytes.is_empty());
    assert_eq!(decode_log(&bytes), Some(Vec::new()));
}

#[test]
fn truncated_log_is_refused() {
    let bytes = encode_log(&vec![rec("key", "value")]);
    for cut in 1..bytes.len() {
        assert_eq!(decode_log(&bytes[..cut]), None);
    }
    assert_eq!(decode_log(&[0xff, 0xff, 0xff, 0xff, 1]), None);
}

#[test]
fn reaping_unbinds_the_pid() {
    let mut db = UnitDb::new();
    let a = db.units_insert("a.service".to_string(), UnitType::UnitService).unwrap();
    assert!(db.child_add_watch_pid(a, 42).is_ok());
    assert_eq!(db.reap_pid(42), Some(a));
    assert_eq!(db.get_unit_by_pid(42), None);
    assert_eq!(db.reap_pid(42), None);
}

#[test]
fn notify_access_rules() {
    assert!(!notify_accepts(NotifyAccess::NoAccess, 5, Some(5), None, true));
    assert!(notify_accepts(NotifyAccess::Main, 5, Some(5), Some(6), true));
    assert!(!notify_accepts(NotifyAccess::Main, 6, Some(5), Some(6), true));
    assert!(notify_accepts(NotifyAccess::Exec, 6, Some(5), Some(6), true));
    assert!(notify_accepts(NotifyAccess::All, 9, None, None, true));
    assert!(!notify_accepts(NotifyAccess::All, 9, None, None, false));
}

#[test]
fn cancel_and_timeouts() {
    let mut q = JobQueue::new();
    assert!(q.submit(2, JobKind::Start, JobMode::Replace).is_ok());
    let (job, res) = q.cancel(2).unwrap();
    assert_eq!((job.unit, res), (2, JobResult::Cancelled));
    assert_eq!(q.cancel(2), None);
    assert_eq!(job_deadline(100, 0), None);
    assert_eq!(job_deadline(100, 50), Some(150));
    assert_eq!(job_deadline(u64::MAX - 1, 50), Some(u64::MAX));
    assert!(!job_timed_out(Some(150), 149));
    assert!(job_timed_out(Some(150), 150));
    assert!(!job_timed_out(None, u64::MAX));
}

#[test]
fn try_finish_results() {
    let mut q = JobQueue::new();
    assert!(q.submit(1, JobKind::Stop, JobMode::Replace).is_ok());
    assert_eq!(q.try_finish(1, UnitActiveState::UnitActive, UnitActiveState::UnitDeactiviting), None);
    assert!(q.job_of(1).is_some());
    assert_eq!(
        q.try_finish(1, UnitActiveState::UnitDeactiviting, UnitActiveState::UnitInactive),
        Some(JobResult::Done)
    );
    assert_eq!(q.job_of(1), None);
    assert!(q.submit(1, JobKind::Reload, JobMode::Replace).is_ok());
    assert_eq!(
        q.try_finish(1, UnitActiveState::UnitReloading, UnitActiveState::UnitFailed),
        Some(JobResult::Failed)
    );
}

#[test]
fn collection_rule() {
    assert!(can_collect(UnitActiveState::UnitInactive, false, 0));
    assert!(can_collect(UnitActiveState::UnitFailed, false, 0));
    assert!(!can_collect(UnitActiveState::UnitInactive, true, 0));
    assert!(!can_collect(UnitActiveState::UnitInactive, false, 1));
    assert!(!can_collect(UnitActiveState::UnitActive, false, 0));
}

#[test]
fn watch_all_pids_of_cgroup() {
    let mut db = UnitDb::new();
    let a = db.units_insert("a.service".to_string(), UnitType::UnitService).unwrap();
    let b = db.units_insert("b.service".to_string(), UnitType::UnitService).unwrap();
    assert!(db.child_add_watch_pid(b, 7).is_ok());
    db.child_watch_all_pids(a, &vec![5, 6, 7]);
    assert_eq!(db.get_unit_by_pid(5), Some(a));
    assert_eq!(db.get_unit_by_pid(6), Some(a));
    assert_eq!(db.get_unit_by_pid(7), Some(b));
}
