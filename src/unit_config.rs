use vstd::prelude::*;

verus! {

/// What the manager does when a unit triggers an emergency action.
#[derive(Clone, Copy, Debug, PartialEq, Eq, Structural)]
pub enum UnitEmergencyAction {
    NoAction,
    Reboot,
    RebootForce,
    RebootImmediate,
    Poweroff,
    PoweroffForce,
    PoweroffImmediate,
    Exit,
    ExitForce,
}

/// The parsed `[Unit]` section of a unit definition.
pub struct UnitConfig {
    pub description: String,
    pub documentation: String,
    pub default_dependencies: bool,
    pub ignore_on_isolate: bool,
    pub refuse_manual_start: bool,
    pub refuse_manual_stop: bool,
    pub allow_isolate: bool,
    /// Window of the start-rate limit, in microseconds.
    pub start_limit_interval: u64,
    pub start_limit_burst: u32,
    pub success_action: UnitEmergencyAction,
    pub failure_action: UnitEmergencyAction,
    pub start_limit_action: UnitEmergencyAction,
    pub job_timeout_action: UnitEmergencyAction,
    pub condition_file_not_empty: String,
    pub condition_needs_update: String,
    pub condition_path_exists: String,
    pub condition_path_is_read_write: String,
    pub condition_user: String,
    pub condition_ac_power: String,
    pub condition_first_boot: String,
    pub condition_capability: String,
    pub assert_path_exists: String,
}

impl UnitConfig {
    /// The defaults of a unit without settings: default dependencies on,
    /// no emergency actions, a start limit of 5 starts in 10 seconds.
    pub fn new() -> (c: UnitConfig)
        ensures
            c.description@.len() == 0,
            c.documentation@.len() == 0,
            c.default_dependencies,
            !c.ignore_on_isolate,
            !c.refuse_manual_start,
            !c.refuse_manual_stop,
            !c.allow_isolate,
            c.start_limit_interval == 10_000_000,
            c.start_limit_burst == 5,
            c.success_action == UnitEmergencyAction::NoAction,
            c.failure_action == UnitEmergencyAction::NoAction,
            c.start_limit_action == UnitEmergencyAction::NoAction,
            c.job_timeout_action == UnitEmergencyAction::NoAction,
            c.condition_file_not_empty@.len() == 0,
            c.condition_needs_update@.len() == 0,
            c.condition_path_exists@.len() == 0,
            c.condition_path_is_read_write@.len() == 0,
            c.condition_user@.len() == 0,
            c.condition_ac_power@.len() == 0,
            c.condition_first_boot@.len() == 0,
            c.condition_capability@.len() == 0,
            c.assert_path_exists@.len() == 0,
    {
        UnitConfig {
            description: String::new(),
            documentation: String::new(),
            default_dependencies: true,
            ignore_on_isolate: false,
            refuse_manual_start: false,
            refuse_manual_stop: false,
            allow_isolate: false,
            start_limit_interval: 10_000_000,
            start_limit_burst: 5,
            success_action: UnitEmergencyAction::NoAction,
            failure_action: UnitEmergencyAction::NoAction,
            start_limit_action: UnitEmergencyAction::NoAction,
            job_timeout_action: UnitEmergencyAction::NoAction,
            condition_file_not_empty: String::new(),
            condition_needs_update: String::new(),
            condition_path_exists: String::new(),
            condition_path_is_read_write: String::new(),
            condition_user: String::new(),
            condition_ac_power: String::new(),
            condition_first_boot: String::new(),
            condition_capability: String::new(),
            assert_path_exists: String::new(),
        }
    }
}

} // verus!
