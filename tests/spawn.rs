use sysmaster_core::errors::UnitActionError;
use sysmaster_core::service_config::{SectionService, ServiceType};
use sysmaster_core::spawn::service_exec_params;
use sysmaster_core::unit_base::UnitType;
use sysmaster_core::unit_db::UnitDb;
use sysmaster_core::fd_shift::FdOp;
use sysmaster_core::spawn::{
    child_steps, ChildStep,
    applies_credentials, build_run_args, exec_environment, expand_arg, fds_to_close, shifted_fd,
    ExecEnvParams, EXEC_PASS_FDS, EXEC_SOFT_WATCHDOG,
};

fn env(pairs: &[(&str, &str)]) -> Vec<(String, String)> {
    pairs.iter().map(|(k, v)| (k.to_string(), v.to_string())).collect()
}

#[test]
fn environment_of_plain_child() {
    let p = ExecEnvParams {
        main_pid: None,
        user: None,
        notify_socket: None,
        n_fds: 0,
        flags: 0,
        watchdog_usec: 0,
        self_pid: 77,
    };
    assert_eq!(
        exec_environment(&p),
        vec!["PATH=/usr/local/sbin:/usr/local/bin:/usr/sbin:/usr/bin:/sbin:/bin".to_string()]
    );
}

#[test]
fn environment_with_everything() {
    let p = ExecEnvParams {
        main_pid: Some(1234),
        user: Some("daemon".to_string()),
        notify_socket: Some("/run/sysmaster/notify".to_string()),
        n_fds: 2,
        flags: EXEC_PASS_FDS | EXEC_SOFT_WATCHDOG,
        watchdog_usec: 30_000_000,
        self_pid: 4321,
    };
    let e = exec_environment(&p);
    assert_eq!(
        e[1..].to_vec(),
        vec![
            "MAINPID=1234",
            "LOGNAME=daemon",
            "USER=daemon",
            "NOTIFY_SOCKET=/run/sysmaster/notify",
            "LISTEN_PID=4321",
            "LISTEN_FDS=2",
            "WATCHDOG_PID=4321",
            "WATCHDOG_USEC=30000000",
        ]
    );
}

#[test]
fn watchdog_needs_flag_and_interval() {
    let mut p = ExecEnvParams {
        main_pid: Some(0),
        user: None,
        notify_socket: None,
        n_fds: 0,
        flags: EXEC_SOFT_WATCHDOG,
        watchdog_usec: 0,
        self_pid: 9,
    };
    assert_eq!(exec_environment(&p).len(), 2);
    assert_eq!(exec_environment(&p)[1], "MAINPID=0");
    p.watchdog_usec = 5;
    p.flags = 0;
    assert_eq!(exec_environment(&p).len(), 2);
}

#[test]
fn expands_variables() {
    let e = env(&[("FOO", "bar"), ("A_B", "x y"), ("FOO", "second")]);
    assert_eq!(expand_arg("$FOO", &e), Some("bar".to_string()));
    assert_eq!(expand_arg("--opt=${A_B}!", &e), Some("--opt=x y!".to_string()));
    assert_eq!(expand_arg("pre$FOO/$A_B", &e), Some("prebar/$A_B".to_string()));
    assert_eq!(expand_arg("plain", &e), Some("plain".to_string()));
    assert_eq!(expand_arg("$lower", &e), Some("$lower".to_string()));
    assert_eq!(expand_arg("${FOO", &e), Some("${FOO".to_string()));
    assert_eq!(expand_arg("$", &e), Some("$".to_string()));
    assert_eq!(expand_arg("$MISSING", &e), None);
    assert_eq!(expand_arg("a${FOOX}b", &e), None);
}

#[test]
fn run_args_drop_unset_variables() {
    let e = env(&[("PORT", "8080")]);
    let argv = vec!["-p".to_string(), "$PORT".to_string(), "$UNSET".to_string(), "-v".to_string()];
    assert_eq!(
        build_run_args("/usr/bin/server", &argv, &e),
        vec!["/usr/bin/server", "-p", "8080", "-v"]
    );
}

#[test]
fn close_all_but_kept_fds() {
    let open = vec![0, 1, 2, 3, 5, 7, 9, 11];
    let mut closed = fds_to_close(&open, &vec![7, 9], 11);
    closed.sort();
    assert_eq!(closed, vec![3, 5]);
    assert_eq!(shifted_fd(0), 3);
    assert_eq!(shifted_fd(1), 4);
}

#[test]
fn credentials() {
    assert!(!applies_credentials(None, None));
    assert!(!applies_credentials(Some(0), Some(0)));
    assert!(!applies_credentials(Some(0), None));
    assert!(!applies_credentials(Some(1000), None));
    assert!(applies_credentials(Some(1000), Some(1000)));
}

fn simulate(open: &[i32], ops: &[FdOp]) -> std::collections::BTreeMap<i32, i32> {
    let mut t: std::collections::BTreeMap<i32, i32> = open.iter().map(|fd| (*fd, *fd)).collect();
    for op in ops {
        match *op {
            FdOp::Dup2 { from, to } => {
                if let Some(origin) = t.get(&from).copied() {
                    t.insert(to, origin);
                }
            }
            FdOp::Close(fd) => {
                t.remove(&fd);
            }
        }
    }
    t
}

#[test]
fn kept_fds_land_on_three_and_four() {
    let keep = vec![7, 9];
    let ops = sysmaster_core::fd_shift::shift_plan(&keep);
    let t = simulate(&[0, 1, 2, 7, 9], &ops);
    let expected: std::collections::BTreeMap<i32, i32> =
        vec![(0, 0), (1, 1), (2, 2), (3, 7), (4, 9)].into_iter().collect();
    assert_eq!(t, expected);
}

#[test]
fn shifting_handles_overlap() {
    let keep = vec![4, 3, 10];
    let ops = sysmaster_core::fd_shift::shift_plan(&keep);
    let t = simulate(&[0, 1, 2, 3, 4, 10], &ops);
    let expected: std::collections::BTreeMap<i32, i32> =
        vec![(0, 0), (1, 1), (2, 2), (3, 4), (4, 3), (5, 10)].into_iter().collect();
    assert_eq!(t, expected);
    assert!(sysmaster_core::fd_shift::shift_plan(&vec![]).is_empty());
}

#[test]
fn child_step_order() {
    let all = child_steps(Some(1000), Some(100), true, Some(0o022));
    assert_eq!(
        all,
        vec![
            ChildStep::ResetSignalMask,
            ChildStep::SetGroup(100),
            ChildStep::ExportUser,
            ChildStep::SetUser(1000),
            ChildStep::ChangeDirectory,
            ChildStep::SetUmask(0o022),
            ChildStep::BuildEnvironment,
            ChildStep::CloseFds,
            ChildStep::ShiftFds,
            ChildStep::SetFdFlags,
            ChildStep::Exec,
        ]
    );
    let root = child_steps(Some(0), Some(0), false, None);
    assert_eq!(
        root,
        vec![
            ChildStep::ResetSignalMask,
            ChildStep::BuildEnvironment,
            ChildStep::CloseFds,
            ChildStep::ShiftFds,
            ChildStep::SetFdFlags,
            ChildStep::Exec,
        ]
    );
    assert_eq!(child_steps(Some(1000), None, false, None)[1], ChildStep::BuildEnvironment);
    assert_eq!(child_steps(None, Some(5), false, None)[1], ChildStep::BuildEnvironment);
}

#[test]
fn service_params_and_spawn_watch() {
    let mut svc = SectionService::new();
    let sock = "/run/sysmaster/notify".to_string();
    let p = service_exec_params(&svc, 0, Some(12), &sock, 3, 40);
    assert_eq!((p.notify_socket.clone(), p.n_fds, p.main_pid), (None, 0, Some(12)));
    svc.service_type = ServiceType::Notify;
    let p = service_exec_params(&svc, EXEC_PASS_FDS, None, &sock, 3, 40);
    assert_eq!((p.notify_socket.clone(), p.n_fds), (Some(sock.clone()), 3));
    assert!(exec_environment(&p).contains(&"NOTIFY_SOCKET=/run/sysmaster/notify".to_string()));
    svc.service_type = ServiceType::Simple;
    svc.watchdog_usec = 5;
    assert!(service_exec_params(&svc, 0, None, &sock, 0, 1).notify_socket.is_some());
}

#[test]
fn spawned_pid_is_watched() {
    let mut db = UnitDb::new();
    let a = db.units_insert("a.service".to_string(), UnitType::UnitService).unwrap();
    let b = db.units_insert("b.service".to_string(), UnitType::UnitService).unwrap();
    assert_eq!(db.watch_spawned(a, Ok(100)), Ok(100));
    assert_eq!(db.get_unit_by_pid(100), Some(a));
    assert_eq!(db.watch_spawned(b, Err(())), Err(UnitActionError::Spawn));
    assert_eq!(db.watch_spawned(b, Ok(100)), Err(UnitActionError::Spawn));
    assert_eq!(db.get_unit_by_pid(100), Some(a));
}
