use sysmaster_core::conditions::{conditions_test, unit_asserts, unit_conditions, ConditionKind};
use sysmaster_core::dep_graph::DepGraph;
use sysmaster_core::job::{JobKind, JobQueue};
use sysmaster_core::manager::{cgroup_path_text, status_error_code};
use sysmaster_core::relation::{UnitRelationAtom, UnitRelations, UNIT_DEPENDENCY_FILE};
use sysmaster_core::service_config::{
    is_white_space, parse_environment, service_default_dependencies, socket_dependencies,
    ExecCommand, SectionService, ServiceConfigData, ServiceType, ServiceVerifyError,
};
use sysmaster_core::unit_base::{UnitActiveState, UnitType};
use sysmaster_core::unit_config::UnitConfig;
use sysmaster_core::unit_db::UnitDb;

fn cmd(p: &str) -> ExecCommand {
    ExecCommand::new(p.to_string(), Vec::new())
}

#[test]
fn service_verify_rules() {
    let mut s = SectionService::new();
    assert_eq!(
        ServiceConfigData::new(s).service_verify(),
        Err(ServiceVerifyError::NoExecStart)
    );
    s = SectionService::new();
    s.remain_after_exit = true;
    assert_eq!(
        ServiceConfigData::new(s).service_verify(),
        Err(ServiceVerifyError::NoExecStartNotOneshot)
    );
    s = SectionService::new();
    s.remain_after_exit = true;
    s.service_type = ServiceType::Oneshot;
    assert_eq!(ServiceConfigData::new(s).service_verify(), Ok(()));
    s = SectionService::new();
    s.exec_start = Some(vec![cmd("/bin/a"), cmd("/bin/b")]);
    assert_eq!(
        ServiceConfigData::new(s).service_verify(),
        Err(ServiceVerifyError::MultipleExecStart)
    );
    s = SectionService::new();
    s.service_type = ServiceType::Oneshot;
    s.exec_start = Some(vec![cmd("/bin/a"), cmd("/bin/b")]);
    assert_eq!(ServiceConfigData::new(s).service_verify(), Ok(()));
    s = SectionService::new();
    s.exec_start = Some(vec![cmd("/bin/true")]);
    assert_eq!(ServiceConfigData::new(s).service_verify(), Ok(()));
}

#[test]
fn service_dependencies() {
    let d = service_default_dependencies(true);
    assert_eq!(d.len(), 5);
    assert_eq!((d[2].0, d[2].1.as_str()), (UnitRelations::UnitAfter, "basic.target"));
    assert!(service_default_dependencies(false).is_empty());
    let s = socket_dependencies(&vec!["a.socket".to_string(), "b.socket".to_string()]);
    assert_eq!(s.len(), 6);
    assert_eq!((s[0].0, s[0].1.as_str()), (UnitRelations::UnitWants, "a.socket"));
    assert_eq!((s[2].0, s[2].1.as_str()), (UnitRelations::UnitTriggeredBy, "a.socket"));
    assert_eq!((s[4].0, s[4].1.as_str()), (UnitRelations::UnitAfter, "b.socket"));
}

#[test]
fn environment_entries() {
    assert_eq!(
        parse_environment(" LANG = C.UTF-8 "),
        Some(("LANG".to_string(), "C.UTF-8".to_string()))
    );
    assert_eq!(parse_environment("A=\u{3000}b\t"), Some(("A".to_string(), "b".to_string())));
    assert_eq!(parse_environment("A="), Some(("A".to_string(), String::new())));
    assert_eq!(parse_environment("A=b=c"), None);
    assert_eq!(parse_environment("novalue"), None);
    assert!(is_white_space('\u{a0}'));
    assert!(!is_white_space('x'));
}

#[test]
fn conditions_in_order() {
    let mut c = UnitConfig::new();
    assert!(unit_conditions(&c).is_empty());
    c.condition_path_exists = "/etc/foo".to_string();
    c.condition_file_not_empty = "/etc/bar".to_string();
    c.condition_capability = "CAP_NET_ADMIN".to_string();
    c.assert_path_exists = "/run".to_string();
    let conds = unit_conditions(&c);
    let kinds: Vec<ConditionKind> = conds.iter().map(|p| p.0).collect();
    assert_eq!(
        kinds,
        vec![ConditionKind::FileNotEmpty, ConditionKind::PathExists, ConditionKind::Capability]
    );
    assert_eq!(conds[1].1, "/etc/foo");
    let asserts = unit_asserts(&c);
    assert_eq!(asserts.len(), 1);
    assert_eq!(asserts[0].0, ConditionKind::AssertPathExists);
    assert!(conditions_test(&vec![true, true]));
    assert!(!conditions_test(&vec![true, false]));
    assert!(conditions_test(&vec![]));
}

#[test]
fn status_helpers() {
    assert_eq!(status_error_code(UnitActiveState::UnitFailed), 3);
    assert_eq!(status_error_code(UnitActiveState::UnitInactive), 3);
    assert_eq!(status_error_code(UnitActiveState::UnitActive), 0);
    assert_eq!(cgroup_path_text(""), "Empty cgroup path");
    assert_eq!(cgroup_path_text("system.slice/a.service"), "system.slice/a.service");
    assert_eq!(UnitActiveState::UnitDeactiviting.name(), "deactivating");
    assert_eq!(UnitActiveState::UnitFailed.name(), "failed");
}

#[test]
fn units_by_type() {
    let mut db = UnitDb::new();
    db.units_insert("a.service".to_string(), UnitType::UnitService).unwrap();
    db.units_insert("b.target".to_string(), UnitType::UnitTarget).unwrap();
    db.units_insert("c.service".to_string(), UnitType::UnitService).unwrap();
    assert_eq!(db.units_get_all(Some(UnitType::UnitService)), vec![0, 2]);
    assert_eq!(db.units_get_all(None), vec![0, 1, 2]);
    assert!(db.units_get_all(Some(UnitType::UnitMount)).is_empty());
}

#[test]
fn pull_in_closure_is_transitive() {
    let mut g = DepGraph::new();
    assert!(g.dep_insert(1, UnitRelations::UnitRequires, 2, UNIT_DEPENDENCY_FILE).is_ok());
    assert!(g.dep_insert(2, UnitRelations::UnitWants, 3, UNIT_DEPENDENCY_FILE).is_ok());
    assert!(g.dep_insert(3, UnitRelations::UnitAfter, 4, UNIT_DEPENDENCY_FILE).is_ok());
    let mut c = g.atom_closure(1, UnitRelationAtom::UnitAtomPullInStart);
    c.sort();
    c.dedup();
    assert_eq!(c, vec![1, 2, 3]);
}

#[test]
fn isolate_start_stops_the_rest() {
    // foo.target (1) requires a.service (2); bar.target (3) is active and
    // conflicting; c.service (4) ignores isolation.
    let mut g = DepGraph::new();
    assert!(g.dep_insert(1, UnitRelations::UnitRequires, 2, UNIT_DEPENDENCY_FILE).is_ok());
    assert!(g.dep_insert(1, UnitRelations::UnitConflicts, 3, UNIT_DEPENDENCY_FILE).is_ok());
    let mut q = JobQueue::new();
    let active = vec![2u64, 3, 4];
    let ignore = vec![false, false, true];
    assert_eq!(q.isolate_start(&g, 1, &active, &ignore), Ok(()));
    assert_eq!(q.job_of(1).unwrap().kind, JobKind::Start);
    assert_eq!(q.job_of(3).unwrap().kind, JobKind::Stop);
    assert_eq!(q.job_of(2), None);
    assert_eq!(q.job_of(4), None);
}
