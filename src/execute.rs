use vstd::prelude::*;
use crate::errors::ExecCmdErrno;

verus! {

/// Relies on http's `StatusCode::OK`, whose `as_u16` is 200.
#[verifier::external_body]
fn status_ok() -> (r: u16)
    ensures
        r == 200,
{
    http::StatusCode::OK.as_u16()
}

/// Relies on http's `StatusCode::INTERNAL_SERVER_ERROR`, whose `as_u16` is 500.
#[verifier::external_body]
fn status_internal_error() -> (r: u16)
    ensures
        r == 500,
{
    http::StatusCode::INTERNAL_SERVER_ERROR.as_u16()
}

/// The answer to a command: an HTTP-style status and a message.
pub struct CommandResponse {
    pub status: i32,
    pub message: String,
}

/// The verbs on a unit.
#[derive(Clone, Copy, Debug, PartialEq, Eq, Structural)]
pub enum UnitAction {
    Status,
    Start,
    Stop,
}

/// The verbs on the host.
#[derive(Clone, Copy, Debug, PartialEq, Eq, Structural)]
pub enum SysAction {
    Hibernate,
    Suspend,
    Halt,
    Poweroff,
    Shutdown,
    Reboot,
}

/// What the manager offers to the command layer.
pub trait ExecuterAction {
    /// start the unit
    fn start(&self, unit_name: &str) -> Result<(), ExecCmdErrno>;

    /// stop the unit
    fn stop(&self, unit_name: &str) -> Result<(), ExecCmdErrno>;

    /// the status of the unit
    fn status(&self, unit_name: &str) -> Result<String, ExecCmdErrno>;

    /// suspend the host
    fn suspend(&self) -> Result<i32, ExecCmdErrno>;

    /// power off the host
    fn poweroff(&self) -> Result<i32, ExecCmdErrno>;

    /// reboot the host
    fn reboot(&self) -> Result<i32, ExecCmdErrno>;

    /// halt the host
    fn halt(&self) -> Result<i32, ExecCmdErrno>;

    /// disable the unit file
    fn disable(&self, unit_name: &str) -> Result<(), ExecCmdErrno>;

    /// enable the unit file
    fn enable(&self, unit_name: &str) -> Result<(), ExecCmdErrno>;
}

/// How a failure message names the verb.
pub open spec fn action_words(a: UnitAction) -> Seq<char> {
    match a {
        UnitAction::Status => "get status of "@,
        UnitAction::Start => "start "@,
        UnitAction::Stop => "stop "@,
    }
}

/// The message of an error number.
pub open spec fn errno_message(e: ExecCmdErrno) -> Seq<char> {
    match e {
        ExecCmdErrno::Input => "Invalid input"@,
        ExecCmdErrno::NotExisted => "No such file or directory"@,
        ExecCmdErrno::Internal => "Unexpected internal error"@,
        ExecCmdErrno::NotSupported => "Unsupported action"@,
    }
}

/// `status` and `message` answer a unit verb whose outcome was `ret`.
pub open spec fn unit_response(
    action: UnitAction,
    unitname: Seq<char>,
    ret: Result<Seq<char>, ExecCmdErrno>,
    status: i32,
    message: Seq<char>,
) -> bool {
    match ret {
        Ok(m) => status == 200 && message == m,
        Err(e) => status == 500 && message == "Failed to "@ + action_words(action) + unitname + ": "@
            + errno_message(e),
    }
}

/// The response to a unit verb: 200 with the returned text, or 500 with
/// "Failed to <verb> <unit>: <error message>".
pub fn unit_command_response(
    action: UnitAction,
    unitname: &str,
    ret: Result<String, ExecCmdErrno>,
) -> (r: CommandResponse)
    ensures
        unit_response(
            action,
            unitname@,
            match ret {
                Ok(m) => Ok(m@),
                Err(e) => Err(e),
            },
            r.status,
            r.message@,
        ),
{
    match ret {
        Ok(m) => CommandResponse { status: status_ok() as i32, message: m },
        Err(e) => {
            let action_str = match action {
                UnitAction::Status => String::from_str("get status of "),
                UnitAction::Start => String::from_str("start "),
                UnitAction::Stop => String::from_str("stop "),
            };
            let mut message = String::from_str("Failed to ");
            message.append(action_str.as_str());
            message.append(unitname);
            message.append(": ");
            let text = e.message();
            message.append(text.as_str());
            CommandResponse { status: status_internal_error() as i32, message }
        },
    }
}

/// The response to a host or unit-file verb: 200 with no message where it
/// succeeded, else 500 with "error.".
pub fn plain_command_response(ok: bool) -> (r: CommandResponse)
    ensures
        ok ==> r.status == 200 && r.message@.len() == 0,
        !ok ==> r.status == 500 && r.message@ == "error."@,
{
    if ok {
        CommandResponse { status: status_ok() as i32, message: String::new() }
    } else {
        CommandResponse { status: status_internal_error() as i32, message: String::from_str("error.") }
    }
}

/// Runs a unit verb on the manager and answers it: the response is the
/// one for the manager's outcome, with an empty message for a start or
/// stop that succeeded.
pub fn execute_unit_command<T: ExecuterAction>(action: UnitAction, unitname: &str, manager: &T) -> (r:
    CommandResponse)
    ensures
        exists|ret: Result<Seq<char>, ExecCmdErrno>| #[trigger]
            unit_response(action, unitname@, ret, r.status, r.message@),
        action != UnitAction::Status && r.status == 200 ==> r.message@.len() == 0,
{
    let ret = match action {
        UnitAction::Status => manager.status(unitname),
        UnitAction::Start => match manager.start(unitname) {
            Ok(()) => Ok(String::new()),
            Err(e) => Err(e),
        },
        UnitAction::Stop => match manager.stop(unitname) {
            Ok(()) => Ok(String::new()),
            Err(e) => Err(e),
        },
    };
    let ghost rv: Result<Seq<char>, ExecCmdErrno> = match &ret {
        Ok(m) => Ok(m@),
        Err(e) => Err(*e),
    };
    let r = unit_command_response(action, unitname, ret);
    proof {
        assert(unit_response(action, unitname@, rv, r.status, r.message@));
    }
    r
}

/// The verbs on unit files.
#[derive(Clone, Copy, Debug, PartialEq, Eq, Structural)]
pub enum UnitFileAction {
    Enable,
    Disable,
}

/// Runs a unit-file verb on the manager and answers it.
pub fn execute_unit_file_command<T: ExecuterAction>(action: UnitFileAction, unitname: &str, manager: &T) -> (r:
    CommandResponse)
    ensures
        (r.status == 200 && r.message@.len() == 0) || (r.status == 500 && r.message@ == "error."@),
{
    let ret = match action {
        UnitFileAction::Enable => manager.enable(unitname),
        UnitFileAction::Disable => manager.disable(unitname),
    };
    plain_command_response(ret.is_ok())
}

/// Runs a host verb on the manager and answers it; hibernate suspends and
/// shutdown powers off.
pub fn execute_sys_command<T: ExecuterAction>(action: SysAction, manager: &T) -> (r: CommandResponse)
    ensures
        (r.status == 200 && r.message@.len() == 0) || (r.status == 500 && r.message@ == "error."@),
{
    let ret = match action {
        SysAction::Hibernate => manager.suspend(),
        SysAction::Suspend => manager.suspend(),
        SysAction::Halt => manager.halt(),
        SysAction::Poweroff => manager.poweroff(),
        SysAction::Shutdown => manager.poweroff(),
        SysAction::Reboot => manager.reboot(),
    };
    plain_command_response(ret.is_ok())
}

} // verus!
