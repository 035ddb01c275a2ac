use vstd::prelude::*;
use vstd::string::StrSliceExecFns;
use crate::lifecycle::KillMode;
use crate::relation::UnitRelations;

verus! {

/// How a service signals that it started.
#[derive(Clone, Copy, Debug, PartialEq, Eq, Structural)]
pub enum ServiceType {
    Simple,
    Forking,
    Oneshot,
    Notify,
    Idle,
}

/// Which processes of a service may send notifications.
#[derive(Clone, Copy, Debug, PartialEq, Eq, Structural)]
pub enum NotifyAccess {
    NoAccess,
    All,
    Main,
    Exec,
}

/// The command lists of a service.
#[derive(Clone, Copy, Debug, PartialEq, Eq, Structural)]
pub enum ServiceCommand {
    Condition,
    StartPre,
    Start,
    StartPost,
    Reload,
    Stop,
    StopPost,
}

/// A command line: the program and its arguments.
pub struct ExecCommand {
    pub path: String,
    pub argv: Vec<String>,
}

/// The views of strings.
pub open spec fn strings_view(v: Seq<String>) -> Seq<Seq<char>> {
    v.map_values(|s: String| s@)
}

impl View for ExecCommand {
    type V = (Seq<char>, Seq<Seq<char>>);

    open spec fn view(&self) -> (Seq<char>, Seq<Seq<char>>) {
        (self.path@, strings_view(self.argv@))
    }
}

/// The views of command lines.
pub open spec fn commands_view(v: Seq<ExecCommand>) -> Seq<(Seq<char>, Seq<Seq<char>>)> {
    v.map_values(|c: ExecCommand| c@)
}

/// The views of an optional command list.
pub open spec fn opt_commands_view(v: Option<Vec<ExecCommand>>) -> Option<
    Seq<(Seq<char>, Seq<Seq<char>>)>,
> {
    match v {
        Some(c) => Some(commands_view(c@)),
        None => None,
    }
}

fn copy_strings(v: &Vec<String>) -> (r: Vec<String>)
    ensures
        strings_view(r@) == strings_view(v@),
{
    let mut r: Vec<String> = Vec::new();
    let mut i: usize = 0;
    while i < v.len()
        invariant
            i <= v@.len(),
            r@.len() == i,
            forall|k: int| 0 <= k < i ==> #[trigger] r@[k]@ == v@[k]@,
        decreases v@.len() - i,
    {
        r.push(v[i].clone());
        i = i + 1;
    }
    proof {
        assert(strings_view(r@) =~= strings_view(v@));
    }
    r
}

impl ExecCommand {
    /// A command line of `path` with `argv`.
    pub fn new(path: String, argv: Vec<String>) -> (c: ExecCommand)
        ensures
            c.path@ == path@,
            c.argv@ == argv@,
    {
        ExecCommand { path, argv }
    }

    /// A copy of the command line.
    pub fn copy(&self) -> (c: ExecCommand)
        ensures
            c@ == self@,
    {
        ExecCommand { path: self.path.clone(), argv: copy_strings(&self.argv) }
    }
}

fn copy_commands(v: &Option<Vec<ExecCommand>>) -> (r: Option<Vec<ExecCommand>>)
    ensures
        opt_commands_view(r) == opt_commands_view(*v),
{
    match v {
        None => None,
        Some(cmds) => {
            let mut r: Vec<ExecCommand> = Vec::new();
            let mut i: usize = 0;
            while i < cmds.len()
                invariant
                    i <= cmds@.len(),
                    r@.len() == i,
                    forall|k: int| 0 <= k < i ==> #[trigger] r@[k]@ == cmds@[k]@,
                decreases cmds@.len() - i,
            {
                r.push(cmds[i].copy());
                i = i + 1;
            }
            proof {
                assert(commands_view(r@) =~= commands_view(cmds@));
            }
            Some(r)
        },
    }
}

/// The `[Service]` section of a service unit.
pub struct SectionService {
    pub service_type: ServiceType,
    pub notify_access: Option<NotifyAccess>,
    pub exec_condition: Option<Vec<ExecCommand>>,
    pub exec_start_pre: Option<Vec<ExecCommand>>,
    pub exec_start: Option<Vec<ExecCommand>>,
    pub exec_start_post: Option<Vec<ExecCommand>>,
    pub exec_reload: Option<Vec<ExecCommand>>,
    pub exec_stop: Option<Vec<ExecCommand>>,
    pub exec_stop_post: Option<Vec<ExecCommand>>,
    pub environment: Option<Vec<String>>,
    pub sockets: Option<Vec<String>>,
    pub kill_mode: KillMode,
    pub remain_after_exit: bool,
    /// Microseconds that a start may take; 0 for no limit.
    pub timeout_start_usec: u64,
    /// Microseconds of the watchdog; 0 for none.
    pub watchdog_usec: u64,
}

impl SectionService {
    /// A simple service with no commands.
    pub fn new() -> (s: SectionService)
        ensures
            s.service_type == ServiceType::Simple,
            s.notify_access is None,
            s.exec_condition is None,
            s.exec_start_pre is None,
            s.exec_start is None,
            s.exec_start_post is None,
            s.exec_reload is None,
            s.exec_stop is None,
            s.exec_stop_post is None,
            s.environment is None,
            s.sockets is None,
            s.kill_mode == KillMode::ControlGroup,
            !s.remain_after_exit,
            s.timeout_start_usec == 0,
            s.watchdog_usec == 0,
    {
        SectionService {
            service_type: ServiceType::Simple,
            notify_access: None,
            exec_condition: None,
            exec_start_pre: None,
            exec_start: None,
            exec_start_post: None,
            exec_reload: None,
            exec_stop: None,
            exec_stop_post: None,
            environment: None,
            sockets: None,
            kill_mode: KillMode::ControlGroup,
            remain_after_exit: false,
            timeout_start_usec: 0,
            watchdog_usec: 0,
        }
    }
}

/// The parsed configuration of a service unit.
pub struct ServiceConfigData {
    pub service: SectionService,
}

impl ServiceConfigData {
    /// The configuration holding `service`.
    pub fn new(service: SectionService) -> (d: ServiceConfigData)
        ensures
            d.service == service,
    {
        ServiceConfigData { service }
    }

    /// Sets who may notify; everything else stays.
    pub fn set_notify_access(&mut self, v: NotifyAccess)
        ensures
            final(self).service == (SectionService { notify_access: Some(v), ..old(self).service }),
    {
        self.service.notify_access = Some(v);
    }

    /// A copy of the command list of kind `cmd_type`.
    pub fn get_exec_cmds(&self, cmd_type: ServiceCommand) -> (r: Option<Vec<ExecCommand>>)
        ensures
            opt_commands_view(r) == opt_commands_view(
                match cmd_type {
                    ServiceCommand::Condition => self.service.exec_condition,
                    ServiceCommand::StartPre => self.service.exec_start_pre,
                    ServiceCommand::Start => self.service.exec_start,
                    ServiceCommand::StartPost => self.service.exec_start_post,
                    ServiceCommand::Reload => self.service.exec_reload,
                    ServiceCommand::Stop => self.service.exec_stop,
                    ServiceCommand::StopPost => self.service.exec_stop_post,
                },
            ),
    {
        match cmd_type {
            ServiceCommand::Condition => copy_commands(&self.service.exec_condition),
            ServiceCommand::StartPre => copy_commands(&self.service.exec_start_pre),
            ServiceCommand::Start => copy_commands(&self.service.exec_start),
            ServiceCommand::StartPost => copy_commands(&self.service.exec_start_post),
            ServiceCommand::Reload => copy_commands(&self.service.exec_reload),
            ServiceCommand::Stop => copy_commands(&self.service.exec_stop),
            ServiceCommand::StopPost => copy_commands(&self.service.exec_stop_post),
        }
    }
}

/// Why a service definition is refused.
#[derive(Clone, Copy, Debug, PartialEq, Eq, Structural)]
pub enum ServiceVerifyError {
    /// No `ExecStart=` and `RemainAfterExit=` is off.
    NoExecStart,
    /// No `ExecStart=` for a service that is not oneshot.
    NoExecStartNotOneshot,
    /// Several `ExecStart=` for a service that is not oneshot.
    MultipleExecStart,
}

/// The start-command rules of a service section.
pub open spec fn spec_service_verify(s: SectionService) -> Result<(), ServiceVerifyError> {
    if !s.remain_after_exit && s.exec_start is None {
        Err(ServiceVerifyError::NoExecStart)
    } else if s.service_type != ServiceType::Oneshot && s.exec_start is None {
        Err(ServiceVerifyError::NoExecStartNotOneshot)
    } else if s.service_type != ServiceType::Oneshot && s.exec_start->Some_0@.len() > 1 {
        Err(ServiceVerifyError::MultipleExecStart)
    } else {
        Ok(())
    }
}

impl ServiceConfigData {
    /// Checks the start commands: one is needed unless the service remains
    /// after exit, and a service that is not oneshot needs exactly one.
    pub fn service_verify(&self) -> (r: Result<(), ServiceVerifyError>)
        ensures
            r == spec_service_verify(self.service),
    {
        let s = &self.service;
        match &s.exec_start {
            None => {
                if !s.remain_after_exit {
                    return Err(ServiceVerifyError::NoExecStart);
                }
                if s.service_type != ServiceType::Oneshot {
                    return Err(ServiceVerifyError::NoExecStartNotOneshot);
                }
                Ok(())
            },
            Some(cmds) => {
                if s.service_type != ServiceType::Oneshot && cmds.len() > 1 {
                    return Err(ServiceVerifyError::MultipleExecStart);
                }
                Ok(())
            },
        }
    }
}

/// The default dependencies of a service unit, where it has them: after
/// and requiring `sysinit.target`; after `basic.target`; before and
/// conflicting with `shutdown.target`.
pub fn service_default_dependencies(default_dependencies: bool) -> (r: Vec<(UnitRelations, String)>)
    ensures
        !default_dependencies ==> r@.len() == 0,
        default_dependencies ==> r@.len() == 5 && r@[0].0 == UnitRelations::UnitAfter && r@[0].1@
            == "sysinit.target"@ && r@[1].0 == UnitRelations::UnitRequires && r@[1].1@
            == "sysinit.target"@ && r@[2].0 == UnitRelations::UnitAfter && r@[2].1@
            == "basic.target"@ && r@[3].0 == UnitRelations::UnitBefore && r@[3].1@
            == "shutdown.target"@ && r@[4].0 == UnitRelations::UnitConflicts && r@[4].1@
            == "shutdown.target"@,
{
    let mut r: Vec<(UnitRelations, String)> = Vec::new();
    if !default_dependencies {
        return r;
    }
    r.push((UnitRelations::UnitAfter, String::from_str("sysinit.target")));
    r.push((UnitRelations::UnitRequires, String::from_str("sysinit.target")));
    r.push((UnitRelations::UnitAfter, String::from_str("basic.target")));
    r.push((UnitRelations::UnitBefore, String::from_str("shutdown.target")));
    r.push((UnitRelations::UnitConflicts, String::from_str("shutdown.target")));
    r
}

/// The edges that `Sockets=` adds, for each socket unit in order: wants
/// it, after it, triggered by it.
pub open spec fn socket_deps_spec(sockets: Seq<Seq<char>>) -> Seq<(UnitRelations, Seq<char>)>
    decreases sockets.len(),
{
    if sockets.len() == 0 {
        Seq::empty()
    } else {
        let s = sockets.last();
        socket_deps_spec(sockets.drop_last()) + seq![
            (UnitRelations::UnitWants, s),
            (UnitRelations::UnitAfter, s),
            (UnitRelations::UnitTriggeredBy, s),
        ]
    }
}

/// The views of dependency entries.
pub open spec fn dep_views(v: Seq<(UnitRelations, String)>) -> Seq<(UnitRelations, Seq<char>)> {
    v.map_values(|p: (UnitRelations, String)| (p.0, p.1@))
}

/// The edges that a service's `Sockets=` adds: for each socket unit, the
/// service wants it, is ordered after it and is triggered by it.
pub fn socket_dependencies(sockets: &Vec<String>) -> (r: Vec<(UnitRelations, String)>)
    ensures
        dep_views(r@) == socket_deps_spec(strings_view(sockets@)),
{
    let mut r: Vec<(UnitRelations, String)> = Vec::new();
    let mut i: usize = 0;
    while i < sockets.len()
        invariant
            i <= sockets@.len(),
            dep_views(r@) == socket_deps_spec(strings_view(sockets@.subrange(0, i as int))),
        decreases sockets@.len() - i,
    {
        let ghost prev = dep_views(r@);
        r.push((UnitRelations::UnitWants, sockets[i].clone()));
        r.push((UnitRelations::UnitAfter, sockets[i].clone()));
        r.push((UnitRelations::UnitTriggeredBy, sockets[i].clone()));
        proof {
            let next = strings_view(sockets@.subrange(0, i + 1));
            assert(next.drop_last() =~= strings_view(sockets@.subrange(0, i as int)));
            assert(next.last() == sockets@[i as int]@);
            assert(dep_views(r@) =~= prev + seq![
                (UnitRelations::UnitWants, sockets@[i as int]@),
                (UnitRelations::UnitAfter, sockets@[i as int]@),
                (UnitRelations::UnitTriggeredBy, sockets@[i as int]@),
            ]);
        }
        i = i + 1;
    }
    proof {
        assert(sockets@.subrange(0, sockets@.len() as int) =~= sockets@);
    }
    r
}

/// Whether a notification from `sender` reaches the service: never with
/// `NoAccess`; from the main pid with `Main`; from the main or control pid
/// with `Exec`; from any process of the unit with `All`.
pub fn notify_accepts(
    access: NotifyAccess,
    sender: i32,
    main_pid: Option<i32>,
    control_pid: Option<i32>,
    in_unit: bool,
) -> (r: bool)
    ensures
        r == match access {
            NotifyAccess::NoAccess => false,
            NotifyAccess::All => in_unit,
            NotifyAccess::Main => main_pid == Some(sender),
            NotifyAccess::Exec => main_pid == Some(sender) || control_pid == Some(sender),
        },
{
    let is_main = match main_pid {
        Some(m) => m == sender,
        None => false,
    };
    let is_control = match control_pid {
        Some(c) => c == sender,
        None => false,
    };
    match access {
        NotifyAccess::NoAccess => false,
        NotifyAccess::All => in_unit,
        NotifyAccess::Main => is_main,
        NotifyAccess::Exec => is_main || is_control,
    }
}

/// The characters with the Unicode `White_Space` property.
pub open spec fn white_space(c: char) -> bool {
    let u = c as u32;
    (0x9 <= u && u <= 0xd) || u == 0x20 || u == 0x85 || u == 0xa0 || u == 0x1680 || (0x2000 <= u
        && u <= 0x200a) || u == 0x2028 || u == 0x2029 || u == 0x202f || u == 0x205f || u == 0x3000
}

/// Whether `c` is white space.
pub fn is_white_space(c: char) -> (r: bool)
    ensures
        r == white_space(c),
{
    let u = c as u32;
    (0x9 <= u && u <= 0xd) || u == 0x20 || u == 0x85 || u == 0xa0 || u == 0x1680 || (0x2000 <= u
        && u <= 0x200a) || u == 0x2028 || u == 0x2029 || u == 0x202f || u == 0x205f || u == 0x3000
}

/// Leading white space removed.
pub open spec fn trim_start(s: Seq<char>) -> Seq<char>
    decreases s.len(),
{
    if s.len() > 0 && white_space(s[0]) {
        trim_start(s.drop_first())
    } else {
        s
    }
}

/// Trailing white space removed.
pub open spec fn trim_end(s: Seq<char>) -> Seq<char>
    decreases s.len(),
{
    if s.len() > 0 && white_space(s.last()) {
        trim_end(s.drop_last())
    } else {
        s
    }
}

/// Leading and trailing white space removed.
pub open spec fn trim(s: Seq<char>) -> Seq<char> {
    trim_end(trim_start(s))
}

/// `NAME=VALUE` with exactly one `=`, both sides trimmed.
pub open spec fn spec_parse_environment(s: Seq<char>) -> Option<(Seq<char>, Seq<char>)> {
    if exists|i: int| 0 <= i < s.len() && s[i] == '=' && forall|j: int| 0 <= j < s.len() && j != i ==> s[j] != '=' {
        let i = choose|i: int| 0 <= i < s.len() && s[i] == '=' && forall|j: int| 0 <= j < s.len() && j != i ==> s[j] != '=';
        Some((trim(s.subrange(0, i)), trim(s.subrange(i + 1, s.len() as int))))
    } else {
        None
    }
}

fn trimmed(s: &str) -> (r: String)
    ensures
        r@ == trim(s@),
{
    let n = s.unicode_len();
    let mut a: usize = 0;
    proof {
        assert(s@.subrange(0, n as int) =~= s@);
    }
    while a < n && is_white_space(s.get_char(a))
        invariant
            n == s@.len(),
            a <= n,
            trim_start(s@) == trim_start(s@.subrange(a as int, n as int)),
        decreases n - a,
    {
        proof {
            assert(s@.subrange(a as int, n as int).drop_first() =~= s@.subrange(a + 1, n as int));
        }
        a = a + 1;
    }
    let mut b: usize = n;
    proof {
        let t = s@.subrange(a as int, n as int);
        if t.len() > 0 {
            assert(t[0] == s@[a as int]);
        }
        assert(trim_start(t) == t);
        assert(t.subrange(0, (b - a) as int) =~= t);
    }
    while b > a && is_white_space(s.get_char(b - 1))
        invariant
            n == s@.len(),
            a <= b <= n,
            trim(s@) == trim_end(s@.subrange(a as int, b as int)),
        decreases b - a,
    {
        proof {
            assert(s@.subrange(a as int, b as int).drop_last() =~= s@.subrange(a as int, b - 1));
        }
        b = b - 1;
    }
    proof {
        let t = s@.subrange(a as int, b as int);
        if t.len() > 0 {
            assert(t.last() == s@[b - 1]);
        }
    }
    String::from_str(s.substring_char(a, b))
}

/// Parses one `Environment=` entry: `NAME=VALUE` with exactly one `=`;
/// white space around the name and the value is dropped.
pub fn parse_environment(env: &str) -> (r: Option<(String, String)>)
    ensures
        match r {
            Some((k, v)) => spec_parse_environment(env@) == Some((k@, v@)),
            None => spec_parse_environment(env@) is None,
        },
{
    let n = env.unicode_len();
    let mut first: usize = n;
    let mut count: usize = 0;
    let mut i: usize = 0;
    while i < n
        invariant
            n == env@.len(),
            i <= n,
            count <= i,
            count == 0 ==> first == n && forall|j: int| 0 <= j < i ==> env@[j] != '=',
            count >= 1 ==> first < i && env@[first as int] == '=',
            count == 1 ==> forall|j: int| 0 <= j < i && j != first ==> env@[j] != '=',
            count >= 2 ==> exists|j: int| 0 <= j < i && j != first && env@[j] == '=',
        decreases n - i,
    {
        if env.get_char(i) == '=' {
            if count == 0 {
                first = i;
            }
            count = count + 1;
        }
        i = i + 1;
    }
    if count != 1 {
        proof {
            if count == 0 {
                assert forall|x: int| 0 <= x < env@.len() && env@[x] == '=' implies !(forall|j: int|
                    0 <= j < env@.len() && j != x ==> env@[j] != '=') by {}
            } else {
                let j = choose|j: int| 0 <= j < n && j != first && env@[j] == '=';
                assert forall|x: int| 0 <= x < env@.len() && env@[x] == '=' implies !(forall|y: int|
                    0 <= y < env@.len() && y != x ==> env@[y] != '=') by {
                    if x == first {
                        assert(env@[j] == '=');
                    } else {
                        assert(env@[first as int] == '=');
                    }
                }
            }
        }
        return None;
    }
    proof {
        let x = choose|x: int| 0 <= x < env@.len() && env@[x] == '=' && forall|j: int| 0 <= j < env@.len() && j != x ==> env@[j] != '=';
        assert(x == first);
    }
    let k = trimmed(env.substring_char(0, first));
    let v = trimmed(env.substring_char(first + 1, n));
    Some((k, v))
}

} // verus!
