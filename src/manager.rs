use vstd::prelude::*;
use vstd::string::StrSliceExecFns;
use crate::unit_base::UnitActiveState;
use crate::unit_config::UnitEmergencyAction;
use crate::start_limit::StartLimitResult;
use crate::job::JobResult;
use crate::spawn::{decimal_chars, decimal_string_of};

verus! {

/// The process-wide state that the main loop acts on.
#[derive(Clone, Copy, Debug, PartialEq, Eq, Structural)]
pub enum ManagerState {
    Running,
    Exit,
    Reboot,
    PowerOff,
}

/// The target that an emergency action starts.
#[derive(Clone, Copy, Debug, PartialEq, Eq, Structural)]
pub enum SpecialTarget {
    RebootTarget,
    PoweroffTarget,
    ExitTarget,
}

impl SpecialTarget {
    /// The unit name of the target.
    pub fn name(&self) -> (r: String)
        ensures
            r@ == special_target_name(*self),
            *self == SpecialTarget::RebootTarget ==> r@ == "reboot.target"@,
            *self == SpecialTarget::PoweroffTarget ==> r@ == "poweroff.target"@,
            *self == SpecialTarget::ExitTarget ==> r@ == "exit.target"@,
    {
        match *self {
            SpecialTarget::RebootTarget => String::from_str("reboot.target"),
            SpecialTarget::PoweroffTarget => String::from_str("poweroff.target"),
            SpecialTarget::ExitTarget => String::from_str("exit.target"),
        }
    }
}

/// The unit name of a special target.
pub open spec fn special_target_name(t: SpecialTarget) -> Seq<char> {
    match t {
        SpecialTarget::RebootTarget => "reboot.target"@,
        SpecialTarget::PoweroffTarget => "poweroff.target"@,
        SpecialTarget::ExitTarget => "exit.target"@,
    }
}

/// The target that an emergency action starts, if it starts one.
pub open spec fn action_target(action: UnitEmergencyAction) -> Option<SpecialTarget> {
    match action {
        UnitEmergencyAction::Reboot => Some(SpecialTarget::RebootTarget),
        UnitEmergencyAction::Poweroff => Some(SpecialTarget::PoweroffTarget),
        UnitEmergencyAction::Exit => Some(SpecialTarget::ExitTarget),
        _ => None,
    }
}

/// The target that an emergency action starts, if it starts one.
pub fn emergency_target(action: UnitEmergencyAction) -> (r: Option<SpecialTarget>)
    ensures
        r == action_target(action),
{
    match action {
        UnitEmergencyAction::Reboot => Some(SpecialTarget::RebootTarget),
        UnitEmergencyAction::Poweroff => Some(SpecialTarget::PoweroffTarget),
        UnitEmergencyAction::Exit => Some(SpecialTarget::ExitTarget),
        _ => None,
    }
}

/// How an immediate reboot or poweroff calls `reboot(2)`.
#[derive(Clone, Copy, Debug, PartialEq, Eq, Structural)]
pub enum RebootMode {
    Autoboot,
    PowerOff,
}

/// What the manager does for an emergency action.
#[derive(Clone, Copy, Debug, PartialEq, Eq, Structural)]
pub enum EmergencyStep {
    Nothing,
    /// Start the target through the job engine.
    StartTarget(SpecialTarget),
    /// Set the process-wide state for the main loop.
    SetState(ManagerState),
    /// Sync the disks and call `reboot(2)` at once.
    SyncAndReboot(RebootMode),
}

/// The step that an emergency action takes for the status of its target.
pub open spec fn spec_emergency_step(
    action: UnitEmergencyAction,
    target_active_or_activating: bool,
    target_has_start_job: bool,
) -> EmergencyStep {
    match action {
        UnitEmergencyAction::NoAction => EmergencyStep::Nothing,
        UnitEmergencyAction::Reboot => if target_active_or_activating || target_has_start_job {
            EmergencyStep::Nothing
        } else {
            EmergencyStep::StartTarget(SpecialTarget::RebootTarget)
        },
        UnitEmergencyAction::Poweroff => if target_active_or_activating || target_has_start_job {
            EmergencyStep::Nothing
        } else {
            EmergencyStep::StartTarget(SpecialTarget::PoweroffTarget)
        },
        UnitEmergencyAction::Exit => if target_active_or_activating || target_has_start_job {
            EmergencyStep::Nothing
        } else {
            EmergencyStep::StartTarget(SpecialTarget::ExitTarget)
        },
        UnitEmergencyAction::RebootForce => EmergencyStep::SetState(ManagerState::Reboot),
        UnitEmergencyAction::PoweroffForce => EmergencyStep::SetState(ManagerState::PowerOff),
        UnitEmergencyAction::ExitForce => EmergencyStep::SetState(ManagerState::Exit),
        UnitEmergencyAction::RebootImmediate => EmergencyStep::SyncAndReboot(RebootMode::Autoboot),
        UnitEmergencyAction::PoweroffImmediate => EmergencyStep::SyncAndReboot(RebootMode::PowerOff),
    }
}

/// The step for an emergency action. The variants that start a target do
/// nothing where that target is already active or activating or has a
/// pending start job; the forced variants set the manager state; the
/// immediate ones reboot or power off at once.
pub fn emergency_step(
    action: UnitEmergencyAction,
    target_active_or_activating: bool,
    target_has_start_job: bool,
) -> (s: EmergencyStep)
    ensures
        s == spec_emergency_step(action, target_active_or_activating, target_has_start_job),
{
    let busy = target_active_or_activating || target_has_start_job;
    match action {
        UnitEmergencyAction::NoAction => EmergencyStep::Nothing,
        UnitEmergencyAction::Reboot => if busy {
            EmergencyStep::Nothing
        } else {
            EmergencyStep::StartTarget(SpecialTarget::RebootTarget)
        },
        UnitEmergencyAction::Poweroff => if busy {
            EmergencyStep::Nothing
        } else {
            EmergencyStep::StartTarget(SpecialTarget::PoweroffTarget)
        },
        UnitEmergencyAction::Exit => if busy {
            EmergencyStep::Nothing
        } else {
            EmergencyStep::StartTarget(SpecialTarget::ExitTarget)
        },
        UnitEmergencyAction::RebootForce => EmergencyStep::SetState(ManagerState::Reboot),
        UnitEmergencyAction::PoweroffForce => EmergencyStep::SetState(ManagerState::PowerOff),
        UnitEmergencyAction::ExitForce => EmergencyStep::SetState(ManagerState::Exit),
        UnitEmergencyAction::RebootImmediate => EmergencyStep::SyncAndReboot(RebootMode::Autoboot),
        UnitEmergencyAction::PoweroffImmediate => EmergencyStep::SyncAndReboot(RebootMode::PowerOff),
    }
}

/// Which of a unit's emergency actions a state change `os -> ns` dispatches.
pub struct StateChangeActions {
    /// The unit's `FailureAction`: it entered `Failed`.
    pub failure: bool,
    /// The unit's `SuccessAction`: it became inactive from a state other
    /// than inactive or failed.
    pub success: bool,
}

/// The emergency actions that a published state change dispatches.
pub fn state_change_actions(os: UnitActiveState, ns: UnitActiveState) -> (r: StateChangeActions)
    ensures
        r.failure == (os != UnitActiveState::UnitFailed && ns == UnitActiveState::UnitFailed),
        r.success == (!(os == UnitActiveState::UnitInactive || os == UnitActiveState::UnitFailed)
            && ns == UnitActiveState::UnitInactive),
{
    StateChangeActions {
        failure: os != UnitActiveState::UnitFailed && ns == UnitActiveState::UnitFailed,
        success: !os.is_inactive_or_failed() && ns == UnitActiveState::UnitInactive,
    }
}

/// A start-limit record dispatches the unit's `StartLimitAction` when hit.
pub fn start_limit_action_due(res: StartLimitResult) -> (r: bool)
    ensures
        r == (res == StartLimitResult::StartLimitHit),
{
    res == StartLimitResult::StartLimitHit
}

/// A job result dispatches the unit's `JobTimeoutAction` on a timeout.
pub fn job_timeout_action_due(res: JobResult) -> (r: bool)
    ensures
        r == (res == JobResult::TimeOut),
{
    res == JobResult::TimeOut
}

/// Whether any of the given units is active or activating.
pub fn relation_active_or_pending(states: &Vec<UnitActiveState>) -> (r: bool)
    ensures
        r == exists|i: int|
            0 <= i < states@.len() && (#[trigger] states@[i] == UnitActiveState::UnitActive
                || states@[i] == UnitActiveState::UnitReloading || states@[i]
                == UnitActiveState::UnitActivating),
{
    let mut i: usize = 0;
    while i < states.len()
        invariant
            i <= states@.len(),
            forall|j: int|
                0 <= j < i ==> !(#[trigger] states@[j] == UnitActiveState::UnitActive
                    || states@[j] == UnitActiveState::UnitReloading || states@[j]
                    == UnitActiveState::UnitActivating),
        decreases states@.len() - i,
    {
        if states[i].is_active_or_activating() {
            return true;
        }
        i = i + 1;
    }
    false
}

/// A start job may run once every unit it is ordered after is active.
pub fn start_ready(after_states: &Vec<UnitActiveState>) -> (r: bool)
    ensures
        r == forall|i: int|
            0 <= i < after_states@.len() ==> #[trigger] after_states@[i]
                == UnitActiveState::UnitActive,
{
    let mut i: usize = 0;
    while i < after_states.len()
        invariant
            i <= after_states@.len(),
            forall|j: int| 0 <= j < i ==> #[trigger] after_states@[j] == UnitActiveState::UnitActive,
        decreases after_states@.len() - i,
    {
        if after_states[i] != UnitActiveState::UnitActive {
            return false;
        }
        i = i + 1;
    }
    true
}

/// A stop job may run once every unit ordered after its unit is inactive
/// or failed.
pub fn stop_ready(before_states: &Vec<UnitActiveState>) -> (r: bool)
    ensures
        r == forall|i: int|
            0 <= i < before_states@.len() ==> (#[trigger] before_states@[i]
                == UnitActiveState::UnitInactive || before_states@[i]
                == UnitActiveState::UnitFailed),
{
    let mut i: usize = 0;
    while i < before_states.len()
        invariant
            i <= before_states@.len(),
            forall|j: int|
                0 <= j < i ==> (#[trigger] before_states@[j] == UnitActiveState::UnitInactive
                    || before_states@[j] == UnitActiveState::UnitFailed),
        decreases before_states@.len() - i,
    {
        if !before_states[i].is_inactive_or_failed() {
            return false;
        }
        i = i + 1;
    }
    true
}

/// A reload job on a unit that cannot reload is skipped with result
/// `Unsupported`, never failed; otherwise it runs.
pub fn reload_job_skip(can_reload: bool) -> (r: Option<JobResult>)
    ensures
        r == (if can_reload {
            None
        } else {
            Some(JobResult::Unsupported)
        }),
{
    if can_reload {
        None
    } else {
        Some(JobResult::Unsupported)
    }
}

/// An unmask removes the unit's link only where it points at `/dev/null`.
pub fn should_unmask(link_target: &str) -> (r: bool)
    ensures
        r == (link_target@ == "/dev/null"@),
{
    let t = String::from_str(link_target);
    let null = String::from_str("/dev/null");
    t == null
}

/// The steps of bringing up the runtime: the crash handler is installed
/// only where the journal's debug switch is on; the manager always becomes
/// the reaper of orphaned children.
pub struct RuntimeSteps {
    pub install_crash_handler: bool,
    pub set_child_reaper: bool,
}

/// The steps of bringing up the runtime for the given debug switch.
pub fn initialize_runtime(switch: bool) -> (r: RuntimeSteps)
    ensures
        r.install_crash_handler == switch,
        r.set_child_reaper,
{
    RuntimeSteps { install_crash_handler: switch, set_child_reaper: true }
}

/// Whether a unit can be collected: inactive (or failed), with no pending
/// job and nothing referring to it.
pub fn can_collect(active: UnitActiveState, has_job: bool, inbound_refs: usize) -> (r: bool)
    ensures
        r == ((active == UnitActiveState::UnitInactive || active == UnitActiveState::UnitFailed)
            && !has_job && inbound_refs == 0),
{
    active.is_inactive_or_failed() && !has_job && inbound_refs == 0
}

/// The exit code of a status query: 3 for a failed or inactive unit, else 0.
pub fn status_error_code(active: UnitActiveState) -> (r: i32)
    ensures
        r == (if active == UnitActiveState::UnitFailed || active == UnitActiveState::UnitInactive {
            3i32
        } else {
            0i32
        }),
{
    if active.is_inactive_or_failed() {
        3
    } else {
        0
    }
}

/// The cgroup line of a status report: the path, or a note where the unit
/// has none.
pub fn cgroup_path_text(path: &str) -> (r: String)
    ensures
        path@.len() == 0 ==> r@ == "Empty cgroup path"@,
        path@.len() > 0 ==> r@ == path@,
{
    if path.unicode_len() == 0 {
        String::from_str("Empty cgroup path")
    } else {
        String::from_str(path)
    }
}

/// The header row of the unit listing.
pub fn unit_list_header() -> (r: Vec<String>)
    ensures
        r@.len() == 5,
        r@[0]@ == "UNIT"@,
        r@[1]@ == "LOAD"@,
        r@[2]@ == "ACTIVE"@,
        r@[3]@ == "SUB"@,
        r@[4]@ == "DESCRIPTION"@,
{
    let mut r: Vec<String> = Vec::new();
    r.push(String::from_str("UNIT"));
    r.push(String::from_str("LOAD"));
    r.push(String::from_str("ACTIVE"));
    r.push(String::from_str("SUB"));
    r.push(String::from_str("DESCRIPTION"));
    r
}

/// One row of the unit listing: the name, whether it loaded, the
/// activation state, the sub-unit's state and the description (the name
/// where there is none). The second value says whether the row is shown
/// as failed.
pub fn unit_list_row(
    name: &str,
    loaded: bool,
    active: UnitActiveState,
    sub_state: &str,
    description: Option<&str>,
) -> (r: (Vec<String>, bool))
    ensures
        r.0@.len() == 5,
        r.0@[0]@ == name@,
        r.0@[1]@ == (if loaded {
            "true"@
        } else {
            "false"@
        }),
        r.0@[2]@ == crate::unit_base::active_name(active),
        r.0@[3]@ == sub_state@,
        r.0@[4]@ == (match description {
            Some(d) => d@,
            None => name@,
        }),
        r.1 == (active == UnitActiveState::UnitFailed),
{
    let mut row: Vec<String> = Vec::new();
    row.push(String::from_str(name));
    row.push(if loaded {
        String::from_str("true")
    } else {
        String::from_str("false")
    });
    row.push(active.name());
    row.push(String::from_str(sub_state));
    row.push(
        match description {
            Some(d) => String::from_str(d),
            None => String::from_str(name),
        },
    );
    (row, active == UnitActiveState::UnitFailed)
}

/// Each pid with its command line, one per line.
pub open spec fn pid_lines(pids: Seq<u32>, cmdlines: Seq<Seq<char>>) -> Seq<char>
    decreases pids.len(),
{
    if pids.len() == 0 {
        Seq::empty()
    } else if pids.len() == 1 {
        decimal_chars(pids[0] as nat) + " "@ + cmdlines[0]
    } else {
        pid_lines(pids.drop_last(), cmdlines.drop_last()) + "\n"@ + decimal_chars(pids.last() as nat)
            + " "@ + cmdlines.last()
    }
}

/// The process lines of a status report: each pid with its command line,
/// one per line; a note where the unit has no process.
pub fn status_pids_text(pids: &Vec<u32>, cmdlines: &Vec<String>) -> (r: String)
    requires
        pids@.len() == cmdlines@.len(),
    ensures
        pids@.len() == 0 ==> r@ == "No process"@,
        pids@.len() > 0 ==> r@ == pid_lines(pids@, cmdlines@.map_values(|c: String| c@)),
{
    if pids.len() == 0 {
        return String::from_str("No process");
    }
    let ghost cv = cmdlines@.map_values(|c: String| c@);
    let mut res = String::new();
    let mut i: usize = 0;
    while i < pids.len()
        invariant
            i <= pids@.len(),
            pids@.len() == cmdlines@.len(),
            cv == cmdlines@.map_values(|c: String| c@),
            res@ == pid_lines(pids@.subrange(0, i as int), cv.subrange(0, i as int)),
        decreases pids@.len() - i,
    {
        let ghost before = res@;
        if i > 0 {
            res.append("\n");
        }
        let d = decimal_string_of(pids[i]);
        res.append(d.as_str());
        res.append(" ");
        res.append(cmdlines[i].as_str());
        proof {
            let ps = pids@.subrange(0, i + 1);
            let cs = cv.subrange(0, i + 1);
            assert(ps.drop_last() =~= pids@.subrange(0, i as int));
            assert(cs.drop_last() =~= cv.subrange(0, i as int));
            if i == 0 {
                assert(before =~= Seq::<char>::empty());
                assert(res@ =~= pid_lines(ps, cs));
            } else {
                assert(res@ =~= pid_lines(ps, cs));
            }
        }
        i = i + 1;
    }
    proof {
        assert(pids@.subrange(0, pids@.len() as int) =~= pids@);
        assert(cv.subrange(0, cv.len() as int) =~= cv);
    }
    res
}

} // verus!
