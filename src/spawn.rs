use vstd::prelude::*;
use vstd::string::StrSliceExecFns;
use crate::service_config::{SectionService, ServiceType};

verus! {

/// Pass the socket descriptors of the triggering units.
pub const EXEC_PASS_FDS: u32 = 1;
/// Export the watchdog variables.
pub const EXEC_SOFT_WATCHDOG: u32 = 2;
/// Connect stdin to the controlling terminal.
pub const EXEC_APPLY_TTY_STDIN: u32 = 4;

/// The character of a decimal digit.
pub open spec fn digit_char(d: nat) -> char {
    seq!['0', '1', '2', '3', '4', '5', '6', '7', '8', '9'][d as int]
}

/// The decimal digits of `n`, without leading zeros.
pub open spec fn decimal_chars(n: nat) -> Seq<char>
    decreases n,
{
    if n < 10 {
        seq![digit_char(n)]
    } else {
        decimal_chars(n / 10).push(digit_char(n % 10))
    }
}

/// Relies on std's `u64::to_string`, which writes the number in decimal.
#[verifier::external_body]
fn decimal_string(n: u64) -> (r: String)
    ensures
        r@ == decimal_chars(n as nat),
{
    n.to_string()
}

/// A number written in decimal.
pub fn decimal_string_of(n: u32) -> (r: String)
    ensures
        r@ == decimal_chars(n as nat),
{
    decimal_string(n as u64)
}

/// The search path that every child gets.
pub open spec fn default_path() -> Seq<char> {
    "PATH=/usr/local/sbin:/usr/local/bin:/usr/sbin:/usr/bin:/sbin:/bin"@
}

/// What a child's environment is built from.
pub struct ExecEnvParams {
    /// The service's main pid, where known.
    pub main_pid: Option<u32>,
    /// The user the child runs as, where one other than root is applied.
    pub user: Option<String>,
    /// The notify socket, for notify-type and watchdog units.
    pub notify_socket: Option<String>,
    /// How many descriptors are passed.
    pub n_fds: usize,
    /// The `EXEC_*` flags.
    pub flags: u32,
    /// The watchdog interval in microseconds; 0 for none.
    pub watchdog_usec: u64,
    /// The pid of the child itself.
    pub self_pid: u32,
}

/// The entry `e` where `cond` holds.
pub open spec fn opt_entry(cond: bool, e: Seq<char>) -> Seq<Seq<char>> {
    if cond {
        seq![e]
    } else {
        Seq::empty()
    }
}

/// `LOGNAME` and `USER` for a user.
pub open spec fn user_entries(user: Option<String>) -> Seq<Seq<char>> {
    match user {
        Some(u) => seq!["LOGNAME="@ + u@, "USER="@ + u@],
        None => Seq::empty(),
    }
}

/// The soft-watchdog flag is set and there is an interval.
pub open spec fn soft_watchdog(p: ExecEnvParams) -> bool {
    p.flags & EXEC_SOFT_WATCHDOG != 0 && p.watchdog_usec > 0
}

/// The environment of a child, in this order: `PATH`; `MAINPID` where
/// known; `LOGNAME` and `USER` for a non-root user; `NOTIFY_SOCKET` where
/// given; `LISTEN_PID` and `LISTEN_FDS` where descriptors are passed;
/// `WATCHDOG_PID` and `WATCHDOG_USEC` with the soft-watchdog flag and an
/// interval.
pub open spec fn spec_exec_environment(p: ExecEnvParams) -> Seq<Seq<char>> {
    seq![default_path()] + (match p.main_pid {
        Some(m) => seq!["MAINPID="@ + decimal_chars(m as nat)],
        None => Seq::empty(),
    }) + user_entries(p.user) + (match p.notify_socket {
        Some(s) => seq!["NOTIFY_SOCKET="@ + s@],
        None => Seq::empty(),
    }) + (if p.n_fds > 0 {
        seq![
            "LISTEN_PID="@ + decimal_chars(p.self_pid as nat),
            "LISTEN_FDS="@ + decimal_chars(p.n_fds as nat),
        ]
    } else {
        Seq::empty()
    }) + (if soft_watchdog(p) {
        seq![
            "WATCHDOG_PID="@ + decimal_chars(p.self_pid as nat),
            "WATCHDOG_USEC="@ + decimal_chars(p.watchdog_usec as nat),
        ]
    } else {
        Seq::empty()
    })
}

/// The views of strings.
pub open spec fn views_of(v: Seq<String>) -> Seq<Seq<char>> {
    v.map_values(|s: String| s@)
}

/// The environment parameters of a command that a service starts: its
/// main pid where known, the notify socket for a notify-type service or
/// one with a watchdog, the socket descriptors of the triggering units
/// where `EXEC_PASS_FDS` is set, and the service's watchdog interval.
pub fn service_exec_params(
    svc: &SectionService,
    flags: u32,
    main_pid: Option<u32>,
    notify_socket: &String,
    n_socket_fds: usize,
    self_pid: u32,
) -> (p: ExecEnvParams)
    ensures
        p.main_pid == main_pid,
        p.flags == flags,
        p.watchdog_usec == svc.watchdog_usec,
        p.self_pid == self_pid,
        p.user is None,
        p.notify_socket is Some <==> (svc.service_type == ServiceType::Notify || svc.watchdog_usec > 0),
        p.notify_socket matches Some(s) ==> s@ == notify_socket@,
        p.n_fds == (if flags & EXEC_PASS_FDS != 0 {
            n_socket_fds
        } else {
            0
        }),
{
    let notify = if svc.service_type == ServiceType::Notify || svc.watchdog_usec > 0 {
        Some(notify_socket.clone())
    } else {
        None
    };
    let n_fds = if flags & EXEC_PASS_FDS != 0 {
        n_socket_fds
    } else {
        0
    };
    ExecEnvParams {
        main_pid,
        user: None,
        notify_socket: notify,
        n_fds,
        flags,
        watchdog_usec: svc.watchdog_usec,
        self_pid,
    }
}

fn entry(name: &str, value: &str) -> (r: String)
    ensures
        r@ == name@ + value@,
{
    let mut s = String::from_str(name);
    s.append(value);
    s
}

fn push_entry(out: &mut Vec<String>, e: String)
    ensures
        views_of(final(out)@) == views_of(old(out)@).push(e@),
{
    out.push(e);
    proof {
        assert(views_of(out@) =~= views_of(old(out)@).push(e@));
    }
}

/// Builds the environment of a child.
pub fn exec_environment(p: &ExecEnvParams) -> (r: Vec<String>)
    ensures
        views_of(r@) == spec_exec_environment(*p),
{
    let mut out: Vec<String> = Vec::new();
    push_entry(&mut out, String::from_str("PATH=/usr/local/sbin:/usr/local/bin:/usr/sbin:/usr/bin:/sbin:/bin"));
    let ghost a = views_of(out@);
    if let Some(m) = p.main_pid {
        let d = decimal_string(m as u64);
        push_entry(&mut out, entry("MAINPID=", d.as_str()));
    }
    let ghost b = views_of(out@);
    match &p.user {
        Some(u) => {
            push_entry(&mut out, entry("LOGNAME=", u.as_str()));
            push_entry(&mut out, entry("USER=", u.as_str()));
        },
        None => {},
    }
    let ghost c = views_of(out@);
    match &p.notify_socket {
        Some(s) => {
            push_entry(&mut out, entry("NOTIFY_SOCKET=", s.as_str()));
        },
        None => {},
    }
    let ghost d = views_of(out@);
    if p.n_fds > 0 {
        let pid = decimal_string(p.self_pid as u64);
        push_entry(&mut out, entry("LISTEN_PID=", pid.as_str()));
        let n = decimal_string(p.n_fds as u64);
        push_entry(&mut out, entry("LISTEN_FDS=", n.as_str()));
    }
    let ghost e = views_of(out@);
    if p.flags & EXEC_SOFT_WATCHDOG != 0 && p.watchdog_usec > 0 {
        let pid = decimal_string(p.self_pid as u64);
        push_entry(&mut out, entry("WATCHDOG_PID=", pid.as_str()));
        let usec = decimal_string(p.watchdog_usec);
        push_entry(&mut out, entry("WATCHDOG_USEC=", usec.as_str()));
    }
    proof {
        assert(a =~= seq![default_path()]);
        assert(b =~= a + (match p.main_pid {
            Some(m) => seq!["MAINPID="@ + decimal_chars(m as nat)],
            None => Seq::<Seq<char>>::empty(),
        }));
        assert(c =~= b + user_entries(p.user));
        assert(d =~= c + (match p.notify_socket {
            Some(s) => seq!["NOTIFY_SOCKET="@ + s@],
            None => Seq::<Seq<char>>::empty(),
        }));
        assert(e =~= d + (if p.n_fds > 0 {
            seq![
                "LISTEN_PID="@ + decimal_chars(p.self_pid as nat),
                "LISTEN_FDS="@ + decimal_chars(p.n_fds as nat),
            ]
        } else {
            Seq::<Seq<char>>::empty()
        }));
        assert(views_of(out@) =~= e + (if soft_watchdog(*p) {
            seq![
                "WATCHDOG_PID="@ + decimal_chars(p.self_pid as nat),
                "WATCHDOG_USEC="@ + decimal_chars(p.watchdog_usec as nat),
            ]
        } else {
            Seq::<Seq<char>>::empty()
        }));
    }
    out
}

/// A character that may appear in a variable name.
pub open spec fn name_char(c: char) -> bool {
    ('A' <= c && c <= 'Z') || c == '_'
}

/// The end of the run of name characters starting at `j`.
pub open spec fn run_end(s: Seq<char>, j: int) -> int
    decreases s.len() - j,
{
    if 0 <= j < s.len() && name_char(s[j]) {
        run_end(s, j + 1)
    } else {
        j
    }
}

/// The variable reference starting at `i`, as (end, name start, name end):
/// `$NAME`, or else `${NAME}`.
pub open spec fn var_ref_at(s: Seq<char>, i: int) -> Option<(int, int, int)> {
    if 0 <= i && i + 1 < s.len() && s[i] == '$' {
        if name_char(s[i + 1]) {
            Some((run_end(s, i + 1), i + 1, run_end(s, i + 1)))
        } else if s[i + 1] == '{' && i + 2 < s.len() && name_char(s[i + 2]) && run_end(s, i + 2)
            < s.len() && s[run_end(s, i + 2)] == '}' {
            Some((run_end(s, i + 2) + 1, i + 2, run_end(s, i + 2)))
        } else {
            None
        }
    } else {
        None
    }
}

/// The leftmost variable reference at or after `i`, as (start, end, name
/// start, name end).
pub open spec fn first_ref(s: Seq<char>, i: int) -> Option<(int, int, int, int)>
    decreases s.len() - i,
{
    if i < 0 || i >= s.len() {
        None
    } else {
        match var_ref_at(s, i) {
            Some((e, a, b)) => Some((i, e, a, b)),
            None => first_ref(s, i + 1),
        }
    }
}

/// The value of the first entry named `k`.
pub open spec fn env_lookup(env: Seq<(Seq<char>, Seq<char>)>, k: Seq<char>) -> Option<Seq<char>>
    decreases env.len(),
{
    if env.len() == 0 {
        None
    } else if env[0].0 == k {
        Some(env[0].1)
    } else {
        env_lookup(env.drop_first(), k)
    }
}

/// An argument with its first variable reference replaced by the value;
/// `None` where the variable is unset, and the argument itself where it
/// refers to none.
pub open spec fn expand_arg_spec(s: Seq<char>, env: Seq<(Seq<char>, Seq<char>)>) -> Option<Seq<char>> {
    match first_ref(s, 0) {
        None => Some(s),
        Some((st, e, a, b)) => match env_lookup(env, s.subrange(a, b)) {
            Some(v) => Some(s.subrange(0, st) + v + s.subrange(e, s.len() as int)),
            None => None,
        },
    }
}

/// The arguments after expansion, those with an unset variable dropped.
pub open spec fn expand_args_spec(args: Seq<Seq<char>>, env: Seq<(Seq<char>, Seq<char>)>) -> Seq<Seq<char>>
    decreases args.len(),
{
    if args.len() == 0 {
        Seq::empty()
    } else {
        let rest = expand_args_spec(args.drop_last(), env);
        match expand_arg_spec(args.last(), env) {
            Some(a) => rest.push(a),
            None => rest,
        }
    }
}

/// The views of environment entries.
pub open spec fn env_views(env: Seq<(String, String)>) -> Seq<(Seq<char>, Seq<char>)> {
    env.map_values(|p: (String, String)| (p.0@, p.1@))
}

fn is_name_char(c: char) -> (r: bool)
    ensures
        r == name_char(c),
{
    ('A' <= c && c <= 'Z') || c == '_'
}

fn run_end_exec(s: &str, n: usize, j: usize) -> (r: usize)
    requires
        n == s@.len(),
        j <= n,
    ensures
        r == run_end(s@, j as int),
        j <= r <= n,
{
    let mut k = j;
    while k < n && is_name_char(s.get_char(k))
        invariant
            n == s@.len(),
            j <= k <= n,
            run_end(s@, j as int) == run_end(s@, k as int),
        decreases n - k,
    {
        k = k + 1;
    }
    k
}

fn var_ref_exec(s: &str, n: usize, i: usize) -> (r: Option<(usize, usize, usize)>)
    requires
        n == s@.len(),
        i < n,
    ensures
        match r {
            Some((e, a, b)) => var_ref_at(s@, i as int) == Some((e as int, a as int, b as int))
                && a <= b <= n && e <= n,
            None => var_ref_at(s@, i as int) is None,
        },
{
    if i + 1 >= n || s.get_char(i) != '$' {
        return None;
    }
    let c = s.get_char(i + 1);
    if is_name_char(c) {
        let e = run_end_exec(s, n, i + 1);
        return Some((e, i + 1, e));
    }
    if c == '{' && i + 2 < n && is_name_char(s.get_char(i + 2)) {
        let e = run_end_exec(s, n, i + 2);
        if e < n && s.get_char(e) == '}' {
            return Some((e + 1, i + 2, e));
        }
    }
    None
}

fn first_ref_exec(s: &str) -> (r: Option<(usize, usize, usize, usize)>)
    ensures
        match r {
            Some((st, e, a, b)) => first_ref(s@, 0) == Some((st as int, e as int, a as int, b as int))
                && st <= e <= s@.len() && a <= b <= s@.len(),
            None => first_ref(s@, 0) is None,
        },
{
    let n = s.unicode_len();
    let mut i: usize = 0;
    while i < n
        invariant
            n == s@.len(),
            i <= n,
            first_ref(s@, 0) == first_ref(s@, i as int),
        decreases n - i,
    {
        match var_ref_exec(s, n, i) {
            Some((e, a, b)) => {
                proof {
                    lemma_ref_end(s@, i as int);
                }
                return Some((i, e, a, b));
            },
            None => {},
        }
        i = i + 1;
    }
    None
}

proof fn lemma_run_end_ge(s: Seq<char>, j: int)
    requires
        0 <= j,
    ensures
        j <= run_end(s, j),
    decreases s.len() - j,
{
    if 0 <= j < s.len() && name_char(s[j]) {
        lemma_run_end_ge(s, j + 1);
    }
}

proof fn lemma_ref_end(s: Seq<char>, i: int)
    requires
        0 <= i,
        var_ref_at(s, i) is Some,
    ensures
        i <= var_ref_at(s, i)->Some_0.0,
{
    if name_char(s[i + 1]) {
        lemma_run_end_ge(s, i + 1);
    } else {
        lemma_run_end_ge(s, i + 2);
    }
}

fn env_get(env: &Vec<(String, String)>, k: &String) -> (r: Option<String>)
    ensures
        match r {
            Some(v) => env_lookup(env_views(env@), k@) == Some(v@),
            None => env_lookup(env_views(env@), k@) is None,
        },
{
    let ghost ev = env_views(env@);
    let mut i: usize = 0;
    proof {
        assert(ev.subrange(0, ev.len() as int) =~= ev);
    }
    while i < env.len()
        invariant
            i <= env@.len(),
            ev == env_views(env@),
            env_lookup(ev, k@) == env_lookup(ev.subrange(i as int, ev.len() as int), k@),
        decreases env@.len() - i,
    {
        let ghost rest = ev.subrange(i as int, ev.len() as int);
        proof {
            assert(rest.drop_first() =~= ev.subrange(i + 1, ev.len() as int));
            assert(rest[0] == (env@[i as int].0@, env@[i as int].1@));
        }
        if env[i].0 == *k {
            return Some(env[i].1.clone());
        }
        i = i + 1;
    }
    None
}

/// Expands the first `$NAME` or `${NAME}` of an argument (names are upper
/// case letters and `_`) with the first matching entry of `env`; `None`
/// where the variable is unset, so that the argument is dropped.
pub fn expand_arg(arg: &str, env: &Vec<(String, String)>) -> (r: Option<String>)
    ensures
        match r {
            Some(v) => expand_arg_spec(arg@, env_views(env@)) == Some(v@),
            None => expand_arg_spec(arg@, env_views(env@)) is None,
        },
{
    match first_ref_exec(arg) {
        None => Some(String::from_str(arg)),
        Some((st, e, a, b)) => {
            let n = arg.unicode_len();
            let name = String::from_str(arg.substring_char(a, b));
            match env_get(env, &name) {
                None => None,
                Some(v) => {
                    let mut out = String::from_str(arg.substring_char(0, st));
                    out.append(v.as_str());
                    out.append(arg.substring_char(e, n));
                    Some(out)
                },
            }
        },
    }
}

/// The argument vector of a command: the program path, then each argument
/// expanded, those naming an unset variable left out.
pub fn build_run_args(path: &str, argv: &Vec<String>, env: &Vec<(String, String)>) -> (r: Vec<String>)
    ensures
        views_of(r@) == seq![path@] + expand_args_spec(views_of(argv@), env_views(env@)),
{
    let mut out: Vec<String> = Vec::new();
    push_entry(&mut out, String::from_str(path));
    let mut i: usize = 0;
    while i < argv.len()
        invariant
            i <= argv@.len(),
            views_of(out@) == seq![path@] + expand_args_spec(
                views_of(argv@.subrange(0, i as int)),
                env_views(env@),
            ),
        decreases argv@.len() - i,
    {
        let ghost pre = views_of(argv@.subrange(0, i as int));
        let ghost next = views_of(argv@.subrange(0, i + 1));
        proof {
            assert(next.drop_last() =~= pre);
            assert(next.last() == argv@[i as int]@);
        }
        match expand_arg(argv[i].as_str(), env) {
            Some(a) => {
                push_entry(&mut out, a);
                proof {
                    assert(seq![path@] + expand_args_spec(next, env_views(env@)) =~= (seq![path@]
                        + expand_args_spec(pre, env_views(env@))).push(a@));
                }
            },
            None => {},
        }
        i = i + 1;
    }
    proof {
        assert(argv@.subrange(0, argv@.len() as int) =~= argv@);
    }
    out
}

/// Whether descriptor `fd` of the child is closed before exec: every open
/// descriptor from 3 up that is not kept and is not the one reading the
/// descriptor directory.
pub open spec fn closes(fd: i32, keep: Seq<i32>, dir_fd: i32) -> bool {
    fd >= 3 && !keep.contains(fd) && fd != dir_fd
}

/// The open descriptors to close, in the order given.
pub fn fds_to_close(open: &Vec<i32>, keep: &Vec<i32>, dir_fd: i32) -> (r: Vec<i32>)
    ensures
        forall|fd: i32| r@.contains(fd) <==> (open@.contains(fd) && closes(fd, keep@, dir_fd)),
{
    let mut out: Vec<i32> = Vec::new();
    let mut i: usize = 0;
    while i < open.len()
        invariant
            i <= open@.len(),
            forall|fd: i32|
                out@.contains(fd) <==> (exists|j: int| 0 <= j < i && #[trigger] open@[j] == fd)
                    && closes(fd, keep@, dir_fd),
        decreases open@.len() - i,
    {
        let fd = open[i];
        let mut kept = false;
        let mut k: usize = 0;
        while k < keep.len()
            invariant
                k <= keep@.len(),
                kept == exists|j: int| 0 <= j < k && keep@[j] == fd,
            decreases keep@.len() - k,
        {
            if keep[k] == fd {
                kept = true;
            }
            k = k + 1;
        }
        let ghost prev = out@;
        if fd >= 3 && !kept && fd != dir_fd {
            out.push(fd);
        }
        proof {
            assert(kept == keep@.contains(fd));
            assert forall|x: i32|
                out@.contains(x) <==> (exists|j: int| 0 <= j < i + 1 && #[trigger] open@[j] == x)
                    && closes(x, keep@, dir_fd) by {
                if out@.contains(x) {
                    let m = choose|m: int| 0 <= m < out@.len() && out@[m] == x;
                    if m < prev.len() {
                        assert(prev[m] == x);
                        assert(prev.contains(x));
                    }
                }
                if (exists|j: int| 0 <= j < i + 1 && #[trigger] open@[j] == x) && closes(x, keep@, dir_fd) {
                    let j = choose|j: int| 0 <= j < i + 1 && #[trigger] open@[j] == x;
                    if j < i {
                        assert(prev.contains(x));
                        let m = choose|m: int| 0 <= m < prev.len() && prev[m] == x;
                        assert(out@[m] == x);
                    } else {
                        assert(out@[out@.len() - 1] == x);
                    }
                }
            }
        }
        i = i + 1;
    }
    proof {
        assert forall|fd: i32| open@.contains(fd) <==> exists|j: int| 0 <= j < open@.len() && #[trigger] open@[j] == fd by {
            if open@.contains(fd) {
                let j = choose|j: int| 0 <= j < open@.len() && open@[j] == fd;
            }
        }
    }
    out
}

/// The descriptor that the `i`-th kept descriptor ends up on.
pub fn shifted_fd(i: usize) -> (r: i32)
    requires
        i < 0x7fff_fff0,
    ensures
        r == i + 3,
{
    (i + 3) as i32
}

/// Whether the child changes its credentials: both a user and a group are
/// set and they are not both root.
pub fn applies_credentials(uid: Option<u32>, gid: Option<u32>) -> (r: bool)
    ensures
        r == (uid is Some && gid is Some && !(uid == Some(0u32) && gid == Some(0u32))),
{
    if uid.is_none() || gid.is_none() {
        return false;
    }
    match (uid, gid) {
        (Some(0u32), Some(0u32)) => false,
        _ => true,
    }
}

/// Descriptor flags with `bit` set (`on`) or cleared.
pub fn with_flag(flags: i32, bit: i32, on: bool) -> (r: i32)
    ensures
        r == (if on {
            flags | bit
        } else {
            flags & !bit
        }),
{
    if on {
        flags | bit
    } else {
        flags & !bit
    }
}

/// Whether `bit` is set in `flags`.
pub fn has_flag(flags: i32, bit: i32) -> (r: bool)
    ensures
        r == (flags & bit == bit),
{
    flags & bit == bit
}

/// One step of the child between fork and exec.
#[derive(Clone, Copy, Debug, PartialEq, Eq, Structural)]
pub enum ChildStep {
    /// Empty the signal mask.
    ResetSignalMask,
    /// `setresgid` to the group.
    SetGroup(u32),
    /// Export `LOGNAME` and `USER` for the user.
    ExportUser,
    /// `setresuid` to the user.
    SetUser(u32),
    /// Change to the working directory.
    ChangeDirectory,
    /// Apply the umask.
    SetUmask(u32),
    /// Load environment files, then the context's and the parameters'
    /// variables.
    BuildEnvironment,
    /// Close every descriptor that is not kept.
    CloseFds,
    /// Move the kept descriptors to 3, 4, ...
    ShiftFds,
    /// Set the kept descriptors' blocking mode and clear close-on-exec.
    SetFdFlags,
    /// `execve` the command.
    Exec,
}

/// The step `s` where `cond` holds.
pub open spec fn step_if(cond: bool, s: ChildStep) -> Seq<ChildStep> {
    if cond {
        seq![s]
    } else {
        Seq::empty()
    }
}

/// The steps of the child, in their strict order. Credentials change only
/// where `applies_credentials` says so (user and group both set, not both
/// root): the group first, then the user
/// (after exporting its name).
pub open spec fn spec_child_steps(
    uid: Option<u32>,
    gid: Option<u32>,
    has_working_directory: bool,
    umask: Option<u32>,
) -> Seq<ChildStep> {
    let creds = uid is Some && gid is Some && !(uid == Some(0u32) && gid == Some(0u32));
    seq![ChildStep::ResetSignalMask] + step_if(creds && gid is Some, ChildStep::SetGroup(gid->Some_0))
        + step_if(creds && uid is Some, ChildStep::ExportUser) + step_if(
        creds && uid is Some,
        ChildStep::SetUser(uid->Some_0),
    ) + step_if(has_working_directory, ChildStep::ChangeDirectory) + step_if(
        umask is Some,
        ChildStep::SetUmask(umask->Some_0),
    ) + seq![
        ChildStep::BuildEnvironment,
        ChildStep::CloseFds,
        ChildStep::ShiftFds,
        ChildStep::SetFdFlags,
        ChildStep::Exec,
    ]
}

fn push_step(out: &mut Vec<ChildStep>, cond: bool, s: ChildStep)
    ensures
        final(out)@ == old(out)@ + step_if(cond, s),
{
    if cond {
        out.push(s);
        proof {
            assert(out@ =~= old(out)@ + step_if(cond, s));
        }
    } else {
        proof {
            assert(out@ =~= old(out)@ + step_if(cond, s));
        }
    }
}

/// The steps that the child takes between fork and exec.
pub fn child_steps(uid: Option<u32>, gid: Option<u32>, has_working_directory: bool, umask: Option<u32>) -> (r:
    Vec<ChildStep>)
    ensures
        r@ == spec_child_steps(uid, gid, has_working_directory, umask),
{
    let creds = applies_credentials(uid, gid);
    let mut out: Vec<ChildStep> = Vec::new();
    out.push(ChildStep::ResetSignalMask);
    let ghost a = out@;
    match gid {
        Some(g) => push_step(&mut out, creds, ChildStep::SetGroup(g)),
        None => push_step(&mut out, false, ChildStep::SetGroup(0)),
    }
    let ghost b = out@;
    match uid {
        Some(u) => {
            push_step(&mut out, creds, ChildStep::ExportUser);
            push_step(&mut out, creds, ChildStep::SetUser(u));
        },
        None => {
            push_step(&mut out, false, ChildStep::ExportUser);
            push_step(&mut out, false, ChildStep::SetUser(0));
        },
    }
    let ghost c = out@;
    push_step(&mut out, has_working_directory, ChildStep::ChangeDirectory);
    match umask {
        Some(m) => push_step(&mut out, true, ChildStep::SetUmask(m)),
        None => push_step(&mut out, false, ChildStep::SetUmask(0)),
    }
    let ghost d = out@;
    out.push(ChildStep::BuildEnvironment);
    out.push(ChildStep::CloseFds);
    out.push(ChildStep::ShiftFds);
    out.push(ChildStep::SetFdFlags);
    out.push(ChildStep::Exec);
    proof {
        let creds_s = uid is Some && gid is Some && !(uid == Some(0u32) && gid == Some(0u32));
        assert(creds == creds_s);
        assert(b == a + step_if(creds_s && gid is Some, ChildStep::SetGroup(gid->Some_0))) by {
            if gid is None {
                assert(step_if(false, ChildStep::SetGroup(0)) =~= step_if(creds_s && gid is Some, ChildStep::SetGroup(gid->Some_0)));
            }
        }
        assert(c == b + step_if(creds_s && uid is Some, ChildStep::ExportUser) + step_if(creds_s && uid is Some, ChildStep::SetUser(uid->Some_0))) by {
            if uid is None {
                assert(step_if(false, ChildStep::ExportUser) =~= Seq::<ChildStep>::empty());
                assert(step_if(false, ChildStep::SetUser(0)) =~= Seq::<ChildStep>::empty());
                assert(step_if(creds_s && uid is Some, ChildStep::SetUser(uid->Some_0)) =~= Seq::<ChildStep>::empty());
                assert(c =~= b + Seq::<ChildStep>::empty() + Seq::<ChildStep>::empty());
            } else {
                assert(c =~= b + step_if(creds_s && uid is Some, ChildStep::ExportUser) + step_if(creds_s && uid is Some, ChildStep::SetUser(uid->Some_0)));
            }
        }
        assert(d == c + step_if(has_working_directory, ChildStep::ChangeDirectory) + step_if(umask is Some, ChildStep::SetUmask(umask->Some_0))) by {
            if umask is None {
                assert(step_if(false, ChildStep::SetUmask(0)) =~= step_if(umask is Some, ChildStep::SetUmask(umask->Some_0)));
            }
            assert(d =~= c + step_if(has_working_directory, ChildStep::ChangeDirectory) + step_if(umask is Some, ChildStep::SetUmask(umask->Some_0)));
        }
        assert(out@ =~= spec_child_steps(uid, gid, has_working_directory, umask));
    }
    out
}

} // verus!
