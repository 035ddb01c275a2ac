use sysmaster_core::errors::UnitActionError;
use sysmaster_core::service_pid::ServicePid;

#[test]
fn main_pid_replacement_returns_old() {
    let mut p = ServicePid::new();
    assert_eq!(p.main_alive(true), Err(UnitActionError::EAgain));
    assert_eq!(p.set_main(0), Err(UnitActionError::EInval));
    assert_eq!(p.set_main(10), Ok(None));
    assert_eq!(p.set_main(10), Ok(None));
    assert_eq!(p.set_main(11), Ok(Some(10)));
    assert_eq!(p.main, Some(11));
    assert_eq!(p.main_alive(false), Ok(false));
    assert_eq!(p.main_alive(true), Ok(true));
    assert_eq!(p.unwatch_main(), Some(11));
    assert_eq!(p.main_alive(true), Ok(false));
}

#[test]
fn control_pid() {
    let mut p = ServicePid::new();
    assert_eq!(p.set_control(5), None);
    assert_eq!(p.set_control(6), Some(5));
    assert_eq!(p.unwatch_control(), Some(6));
    assert_eq!(p.control, None);
    assert_eq!(p.unwatch_control(), None);
}
