use sysmaster_core::unit_config::UnitConfig;
use sysmaster_core::unit_manager::UnitManager;
use sysmaster_core::errors::UnitActionError;
use sysmaster_core::lifecycle::{start_unit_check, KillMode};
use sysmaster_core::relation::{UnitRelations, UNIT_DEPENDENCY_FILE};
use sysmaster_core::service_config::{
    ExecCommand, NotifyAccess, SectionService, ServiceCommand, ServiceConfigData, ServiceType,
};
use sysmaster_core::socket_load::{
    related_unit_name, socket_default_dependencies, unit_type_suffix, PortType, SocketLoad,
    SocketPort,
};
use sysmaster_core::start_limit::StartLimitResult;
use sysmaster_core::unit::{Unit, UnitSubClass};
use sysmaster_core::unit_base::{KillOperation, UnitActiveState, UnitLoadState, UnitType};
use sysmaster_core::unit_db::{UnitDb, UnitDbError};

struct FakeSub {
    state: UnitActiveState,
    loads: u32,
    starts: u32,
    reloadable: bool,
}

impl FakeSub {
    fn new() -> FakeSub {
        FakeSub { state: UnitActiveState::UnitInactive, loads: 0, starts: 0, reloadable: true }
    }
}

impl UnitSubClass for FakeSub {
    fn load(&mut self) -> Result<(), UnitActionError> {
        self.loads += 1;
        Ok(())
    }
    fn start(&mut self) -> Result<(), UnitActionError> {
        self.starts += 1;
        self.state = UnitActiveState::UnitActive;
        Ok(())
    }
    fn stop(&mut self, _force: bool) -> Result<(), UnitActionError> {
        self.state = UnitActiveState::UnitInactive;
        Ok(())
    }
    fn reload(&mut self) -> Result<(), UnitActionError> {
        Err(UnitActionError::EOpNotSupp)
    }
    fn can_reload(&self) -> bool {
        self.reloadable
    }
    fn current_active_state(&self) -> UnitActiveState {
        self.state
    }
    fn get_perpetual(&self) -> bool {
        false
    }
    fn collect_fds(&self) -> Vec<i32> {
        Vec::new()
    }
}

#[test]
fn test_unit_load() {
    let mut unit = Unit::new(String::from("config.service"), UnitType::UnitService, FakeSub::new());
    let load_stat = unit.load_unit(true, false);
    assert!(load_stat.is_ok());
    assert_eq!(unit.load_state, UnitLoadState::UnitLoaded);
    assert_eq!(unit.sub.loads, 1);
}

#[test]
fn mount_is_loaded_without_fragment() {
    let mut unit = Unit::new(String::from("-.mount"), UnitType::UnitMount, FakeSub::new());
    assert!(unit.load_unit(false, false).is_ok());
    assert_eq!(unit.sub.loads, 0);
}

#[test]
fn masked_unit_fails_to_load_and_start() {
    let mut unit = Unit::new(String::from("mask.service"), UnitType::UnitService, FakeSub::new());
    assert_eq!(
        unit.load_unit(true, true),
        Err(UnitActionError::LoadError(UnitLoadState::UnitMasked))
    );
    assert_eq!(unit.start(true, true), Err(UnitActionError::EInval));
    assert_eq!(unit.sub.starts, 0);
    assert!(unit.load_unit(true, false).is_ok());
    assert_eq!(unit.start(true, true), Ok(()));
}

#[test]
fn test_service_unit_start() {
    let mut u = Unit::new(String::from("config.service"), UnitType::UnitService, FakeSub::new());
    assert!(u.load_unit(true, false).is_ok());
    assert!(u.start(true, true).is_ok());
    assert_eq!(u.current_active_state(), UnitActiveState::UnitActive);
    assert_eq!(u.start(true, true), Err(UnitActionError::EAlready));
    assert_eq!(u.reload(), (Ok(()), true));
    assert!(u.stop(false).is_ok());
    assert_eq!(u.stop(false), Err(UnitActionError::EAlready));
    assert_eq!(u.reload().0, Err(UnitActionError::ENoExec));
}

#[test]
fn unit_start_limit() {
    let mut u = Unit::new(String::from("burst.service"), UnitType::UnitService, FakeSub::new());
    u.config.start_limit_interval = 10_000_000;
    u.config.start_limit_burst = 3;
    let results: Vec<StartLimitResult> = (0..4u64).map(|k| u.test_start_limit(100 + k)).collect();
    assert_eq!(
        results,
        vec![
            StartLimitResult::StartLimitNotHit,
            StartLimitResult::StartLimitNotHit,
            StartLimitResult::StartLimitNotHit,
            StartLimitResult::StartLimitHit
        ]
    );
}

#[test]
fn unit_kill_needs_cgroup() {
    let mut u = Unit::new(String::from("k.service"), UnitType::UnitService, FakeSub::new());
    let p = u.kill_context(KillMode::ControlGroup, KillOperation::KillKill, Some(5), None);
    assert!(!p.kill_cgroup);
    u.cgroup_path = String::from("system.slice/k.service");
    let q = u.kill_context(KillMode::ControlGroup, KillOperation::KillKill, Some(5), None);
    assert!(q.kill_cgroup);
    u.set_ignore_on_isolate(true);
    assert!(u.ignore_on_isolate());
    assert!(u.default_dependencies());
}

#[test]
fn manager_test_service_unit_load() {
    let mut db = UnitDb::new();
    let unit_name = String::from("config.service");
    let id = db.units_insert(unit_name.clone(), UnitType::UnitService).unwrap();
    assert_eq!(db.units_get(&unit_name), Some(id));
    assert_eq!(db.unit_type(id), UnitType::UnitService);
}

#[test]
fn manager_test_units_load() {
    let mut db = UnitDb::new();
    let unit_name_lists = vec!["config.service".to_string()];
    for u_name in unit_name_lists.iter() {
        let id = db.units_insert(u_name.clone(), UnitType::UnitService).unwrap();
        assert_eq!(db.units_get(u_name), Some(id));
    }
}

#[test]
fn test_target_unit_load() {
    let mut db = UnitDb::new();
    let u_name = String::from("testsunit.target");
    let t = db.units_insert(u_name.clone(), UnitType::UnitTarget).unwrap();
    let s = db.units_insert(String::from("config.service"), UnitType::UnitService).unwrap();
    assert!(db.dep_insert(t, UnitRelations::UnitRequires, s, UNIT_DEPENDENCY_FILE).is_ok());
    assert_eq!(db.dep_gets(t, UnitRelations::UnitRequires), vec![s]);
    assert_eq!(db.units_get(&u_name), Some(t));
}

#[test]
fn unit_manager_test_service_unit_load() {
    let mut db = UnitDb::new();
    let unit_name = String::from("config.service");
    assert_eq!(db.units_insert(unit_name.clone(), UnitType::UnitService), Ok(0));
    assert_eq!(db.units_insert(unit_name.clone(), UnitType::UnitService), Ok(0));
    assert_eq!(
        db.units_insert(unit_name.clone(), UnitType::UnitSocket),
        Err(UnitDbError::TypeMismatch)
    );
    assert_eq!(db.len(), 1);
}

#[test]
fn unit_manager_test_units_load() {
    let mut db = UnitDb::new();
    let names = ["config.service", "b.socket", "c.target"];
    for (k, n) in names.iter().enumerate() {
        let t = sysmaster_core::unit_base::unit_name_to_type(n);
        assert_eq!(db.units_insert(n.to_string(), t), Ok(k as u64));
    }
    assert_eq!(db.units_get(&String::from("b.socket")), Some(1));
    assert_eq!(db.units_get(&String::from("d.mount")), None);
}

#[test]
fn test_service_unit_start_conflicts() {
    let mut db = UnitDb::new();
    let c = db.units_insert(String::from("conflict.service"), UnitType::UnitService).unwrap();
    let o = db.units_insert(String::from("other.service"), UnitType::UnitService).unwrap();
    assert!(db.dep_insert(c, UnitRelations::UnitConflicts, o, UNIT_DEPENDENCY_FILE).is_ok());
    assert!(start_unit_check(false, false).is_ok());
    assert_eq!(db.dep_gets(o, UnitRelations::UnitConflictedBy), vec![c]);
}

#[test]
fn db_watches_pids() {
    let mut db = UnitDb::new();
    let a = db.units_insert(String::from("a.service"), UnitType::UnitService).unwrap();
    let b = db.units_insert(String::from("b.service"), UnitType::UnitService).unwrap();
    assert!(db.child_add_watch_pid(a, 300).is_ok());
    assert!(db.child_add_watch_pid(b, 300).is_err());
    assert_eq!(db.get_unit_by_pid(300), Some(a));
    db.child_unwatch_pid(a, 300);
    assert_eq!(db.get_unit_by_pid(300), None);
}

#[test]
fn socket_accept_rules() {
    let stream = SocketPort { p_type: PortType::Socket, sa_can_accept: true };
    let dgram = SocketPort { p_type: PortType::Socket, sa_can_accept: false };
    let fifo = SocketPort { p_type: PortType::Fifo, sa_can_accept: false };
    assert!(SocketLoad::new(false, vec![stream]).can_accept());
    assert!(!SocketLoad::new(true, vec![stream]).can_accept());
    assert!(SocketLoad::new(true, vec![stream, dgram]).can_accept());
    assert!(SocketLoad::new(true, vec![fifo]).no_accept_socket());
    assert!(!SocketLoad::new(true, vec![]).no_accept_socket());
    assert!(SocketLoad::new(true, vec![]).socket_verify().is_ok());
}

#[test]
fn related_unit_names() {
    assert_eq!(related_unit_name("foo.socket", UnitType::UnitService).unwrap(), "foo.service");
    assert_eq!(related_unit_name("a.b.socket", UnitType::UnitService).unwrap(), "a.b.service");
    assert_eq!(related_unit_name("plain", UnitType::UnitTarget).unwrap(), "plain.target");
    assert_eq!(related_unit_name(".hidden", UnitType::UnitMount).unwrap(), ".hidden.mount");
    assert!(related_unit_name("foo.socket", UnitType::UnitTypeInvalid).is_none());
    assert_eq!(unit_type_suffix(UnitType::UnitSocket), "socket");
    assert_eq!(unit_type_suffix(UnitType::UnitTypeInvalid), "");
}

#[test]
fn socket_defaults() {
    assert!(socket_default_dependencies(false).is_empty());
    let d = socket_default_dependencies(true);
    assert_eq!(d.len(), 5);
    assert_eq!(d[0].0, UnitRelations::UnitAfter);
    assert_eq!(d[0].1, "sockets.target");
    assert_eq!(d[4].0, UnitRelations::UnitConflicts);
    assert_eq!(d[4].1, "shutdown.target");
}

#[test]
fn service_config_commands() {
    let mut s = SectionService::new();
    s.service_type = ServiceType::Notify;
    s.exec_start = Some(vec![ExecCommand::new(String::from("/bin/true"), vec![String::from("-x")])]);
    let mut data = ServiceConfigData::new(s);
    let cmds = data.get_exec_cmds(ServiceCommand::Start).unwrap();
    assert_eq!(cmds.len(), 1);
    assert_eq!(cmds[0].path, "/bin/true");
    assert_eq!(cmds[0].argv, vec![String::from("-x")]);
    assert!(data.get_exec_cmds(ServiceCommand::Stop).is_none());
    data.set_notify_access(NotifyAccess::Main);
    assert_eq!(data.service.notify_access, Some(NotifyAccess::Main));
    assert_eq!(data.service.service_type, ServiceType::Notify);
}

#[test]
fn unit_identity_and_main_pid_guess() {
    let mut u = Unit::new(String::from("g.service"), UnitType::UnitService, FakeSub::new());
    assert_eq!(u.id(), "g.service");
    assert_eq!(u.get_description(), None);
    u.config.description = String::from("A service");
    assert_eq!(u.get_description(), Some(String::from("A service")));
    assert_eq!(u.get_documentation(), None);
    assert_eq!(u.guess_main_pid(&vec![5], &vec![true]), Err(UnitActionError::ENoent));
    u.cgroup_path = String::from("system.slice/g.service");
    assert_eq!(u.cg_path(), "system.slice/g.service");
    assert_eq!(u.guess_main_pid(&vec![0, 7, 9], &vec![true, false, true]), Ok(9));
    assert_eq!(u.guess_main_pid(&vec![7], &vec![false]), Ok(0));
}

#[test]
fn manager_pid_and_job_queries() {


    let mut m = UnitManager::new();
    let id = m.add_unit(String::from("p.service"), UnitType::UnitService, &UnitConfig::new()).unwrap();
    assert!(m.child_watch_pid(id, 55).is_ok());
    assert_eq!(m.get_unit_by_pid(55), Some(id));
    m.child_unwatch_pid(id, 55);
    assert_eq!(m.get_unit_by_pid(55), None);
    assert!(!m.load_unit_success(&String::from("p.service")));
    m.set_state(&String::from("p.service"), UnitLoadState::UnitLoaded, UnitActiveState::UnitActive);
    assert!(m.load_unit_success(&String::from("p.service")));
    assert!(m.stop_unit(&String::from("p.service"), false).is_ok());
    assert!(m.has_stop_job(id));
}

#[test]
fn sockets_that_trigger_a_service() {
    let mut m = UnitManager::new();
    let cfg = UnitConfig::new();
    let svc = m.add_unit(String::from("web.service"), UnitType::UnitService, &cfg).unwrap();
    let sock = m.add_unit(String::from("web.socket"), UnitType::UnitSocket, &cfg).unwrap();
    let tgt = m.add_unit(String::from("web.target"), UnitType::UnitTarget, &cfg).unwrap();
    assert!(m.unit_add_dependency(sock, UnitRelations::UnitTriggers, svc, UNIT_DEPENDENCY_FILE).is_ok());
    assert!(m.unit_add_dependency(tgt, UnitRelations::UnitTriggers, svc, UNIT_DEPENDENCY_FILE).is_ok());
    let mut trig = m.units_to_trigger(svc);
    trig.sort();
    assert_eq!(trig, vec![sock, tgt]);
    let mut db = UnitDb::new();
    let s = db.units_insert(String::from("a.service"), UnitType::UnitService).unwrap();
    let k = db.units_insert(String::from("a.socket"), UnitType::UnitSocket).unwrap();
    let t = db.units_insert(String::from("a.timer.target"), UnitType::UnitTarget).unwrap();
    assert!(db.dep_insert(s, UnitRelations::UnitTriggeredBy, k, UNIT_DEPENDENCY_FILE).is_ok());
    assert!(db.dep_insert(s, UnitRelations::UnitTriggeredBy, t, UNIT_DEPENDENCY_FILE).is_ok());
    assert_eq!(db.trigger_sockets(s), vec![k]);
}
