use vstd::prelude::*;
use vstd::string::StrSliceExecFns;
use crate::unit_base::{UnitType, UnitLoadState, UnitActiveState, KillOperation};
use crate::unit_config::{UnitConfig, UnitEmergencyAction};
use crate::errors::UnitActionError;
use crate::lifecycle::{
    start_check, stop_check, reload_check, reload_outcome, load_outcome,
    kill_plan, KillMode, KillPlan, known_pids,
};
use crate::start_limit::{RateLimit, StartLimitResult};
use crate::unit_base::spec_kill_signal;

verus! {

/// The type-specific behaviour of a unit (service, socket, target, ...).
pub trait UnitSubClass {
    /// Loads the type-specific section of the unit's definition.
    fn load(&mut self) -> Result<(), UnitActionError>;

    /// Starts the unit.
    fn start(&mut self) -> Result<(), UnitActionError>;

    /// Stops the unit.
    fn stop(&mut self, force: bool) -> Result<(), UnitActionError>;

    /// Reloads the unit.
    fn reload(&mut self) -> Result<(), UnitActionError>;

    /// Whether the unit can reload.
    fn can_reload(&self) -> bool;

    /// The unit's activation state.
    fn current_active_state(&self) -> UnitActiveState;

    /// Whether the unit exists regardless of activation.
    fn get_perpetual(&self) -> bool;

    /// The descriptors that the unit passes to the units it triggers.
    fn collect_fds(&self) -> Vec<i32>;
}

/// One unit: its id, type, load state and `[Unit]` settings, its start-rate
/// limiter and cgroup, and the sub-unit that carries its type's behaviour.
pub struct Unit<S> {
    pub id: String,
    pub unit_type: UnitType,
    pub load_state: UnitLoadState,
    pub config: UnitConfig,
    pub start_limit: RateLimit,
    /// Empty until the unit was first started.
    pub cgroup_path: String,
    pub sub: S,
}

impl<S: UnitSubClass> Unit<S> {
    /// A unit that is not loaded yet, with default settings.
    pub fn new(id: String, unit_type: UnitType, sub: S) -> (u: Unit<S>)
        ensures
            u.id@ == id@,
            u.unit_type == unit_type,
            u.load_state == UnitLoadState::UnitStub,
            u.cgroup_path@.len() == 0,
            u.start_limit.begin is None,
            u.start_limit.num == 0,
            u.start_limit.wf(),
    {
        let config = UnitConfig::new();
        let start_limit = RateLimit::new(config.start_limit_interval, config.start_limit_burst);
        Unit {
            id,
            unit_type,
            load_state: UnitLoadState::UnitStub,
            config,
            start_limit,
            cgroup_path: String::new(),
            sub,
        }
    }

    /// The unit's activation state, as its sub-unit reports it.
    pub fn current_active_state(&self) -> UnitActiveState {
        self.sub.current_active_state()
    }

    /// Loads the unit: a mount is loaded directly; otherwise the load state
    /// follows from whether the fragment was found or masked and from the
    /// sub-unit's answer, which is only asked for a found, unmasked
    /// fragment.
    pub fn load_unit(&mut self, fragment_found: bool, masked: bool) -> (r: Result<(), UnitActionError>)
        ensures
            final(self).id == old(self).id,
            old(self).unit_type == UnitType::UnitMount ==> r is Ok && final(self).load_state
                == UnitLoadState::UnitLoaded,
            old(self).unit_type != UnitType::UnitMount && masked ==> r == Err::<(), UnitActionError>(
                UnitActionError::LoadError(UnitLoadState::UnitMasked),
            ) && final(self).load_state == UnitLoadState::UnitMasked,
            old(self).unit_type != UnitType::UnitMount && !masked && !fragment_found ==> r == Err::<
                (),
                UnitActionError,
            >(UnitActionError::LoadError(UnitLoadState::UnitNotFound)) && final(self).load_state
                == UnitLoadState::UnitNotFound,
            r is Ok <==> final(self).load_state == UnitLoadState::UnitLoaded,
            r is Err ==> r == Err::<(), UnitActionError>(UnitActionError::LoadError(final(self).load_state)),
    {
        let needs_sub = self.unit_type != UnitType::UnitMount && !masked && fragment_found;
        let sub_ok = if needs_sub {
            self.sub.load().is_ok()
        } else {
            true
        };
        let state = load_outcome(self.unit_type, fragment_found, masked, sub_ok);
        self.load_state = state;
        if state == UnitLoadState::UnitLoaded {
            Ok(())
        } else {
            Err(UnitActionError::LoadError(state))
        }
    }

    /// Starts the unit after the precondition ladder of `start_check`
    /// passed for its current state; then the sub-unit decides.
    pub fn start(&mut self, conditions_ok: bool, asserts_ok: bool) -> (r: Result<(), UnitActionError>)
        ensures
            final(self).load_state == old(self).load_state,
            final(self).id == old(self).id,
            old(self).load_state != UnitLoadState::UnitLoaded ==> r is Err,
    {
        let active = self.sub.current_active_state();
        match start_check(active, self.load_state, conditions_ok, asserts_ok) {
            Err(e) => Err(e),
            Ok(()) => self.sub.start(),
        }
    }

    /// Stops the unit after `stop_check` passed; then the sub-unit decides.
    pub fn stop(&mut self, force: bool) -> (r: Result<(), UnitActionError>)
        ensures
            final(self).load_state == old(self).load_state,
            final(self).id == old(self).id,
    {
        let active = self.sub.current_active_state();
        match stop_check(active, force) {
            Err(e) => Err(e),
            Ok(()) => self.sub.stop(force),
        }
    }

    /// Reloads the unit after `reload_check` passed; a sub-unit answer of
    /// `EOpNotSupp` counts as success. The second value says whether a
    /// success notification (old state to the same state) is due.
    pub fn reload(&mut self) -> (r: (Result<(), UnitActionError>, bool))
        ensures
            final(self).load_state == old(self).load_state,
            final(self).id == old(self).id,
            r.1 ==> r.0 is Ok,
    {
        let can = self.sub.can_reload();
        let active = self.sub.current_active_state();
        match reload_check(can, active) {
            Err(e) => (Err(e), false),
            Ok(()) => {
                let sub = self.sub.reload();
                reload_outcome(sub)
            },
        }
    }

    /// Consults the start-rate limiter at `now`, after taking the unit's
    /// configured interval and burst where both are set.
    pub fn test_start_limit(&mut self, now: u64) -> (r: StartLimitResult)
        requires
            old(self).start_limit.wf(),
        ensures
            final(self).start_limit.wf(),
            final(self).id == old(self).id,
            (final(self).start_limit, r == StartLimitResult::StartLimitNotHit) == crate::start_limit::spec_below(
                crate::start_limit::spec_init(
                    old(self).start_limit,
                    old(self).config.start_limit_interval,
                    old(self).config.start_limit_burst,
                ),
                now,
            ),
    {
        self.start_limit.init_from_config(self.config.start_limit_interval, self.config.start_limit_burst);
        self.start_limit.test_start_limit(now)
    }

    /// Plans the kill of the unit's processes; the cgroup counts only once
    /// the unit has one.
    pub fn kill_context(
        &self,
        mode: KillMode,
        op: KillOperation,
        main_pid: Option<i32>,
        ctrl_pid: Option<i32>,
    ) -> (p: KillPlan)
        ensures
            p.signal == spec_kill_signal(op),
            p.send_cont == (p.signal != crate::unit_base::Signal::SigKill && p.signal
                != crate::unit_base::Signal::SigCont),
            p.pids@ == known_pids(main_pid, ctrl_pid),
            p.kill_cgroup == (self.cgroup_path@.len() > 0 && (mode == KillMode::ControlGroup || (
            mode == KillMode::Mixed && op == KillOperation::KillKill))),
    {
        let has_cgroup = self.cgroup_path.as_str().unicode_len() > 0;
        kill_plan(mode, op, main_pid, ctrl_pid, has_cgroup)
    }

    /// The unit's name.
    pub fn id(&self) -> (r: &String)
        ensures
            r == &self.id,
    {
        &self.id
    }

    /// The unit's description, where it has one.
    pub fn get_description(&self) -> (r: Option<String>)
        ensures
            self.config.description@.len() == 0 ==> r is None,
            self.config.description@.len() > 0 ==> r is Some && r->Some_0@ == self.config.description@,
    {
        if self.config.description.as_str().unicode_len() == 0 {
            None
        } else {
            Some(self.config.description.clone())
        }
    }

    /// The unit's documentation, where it has one.
    pub fn get_documentation(&self) -> (r: Option<String>)
        ensures
            self.config.documentation@.len() == 0 ==> r is None,
            self.config.documentation@.len() > 0 ==> r is Some && r->Some_0@ == self.config.documentation@,
    {
        if self.config.documentation.as_str().unicode_len() == 0 {
            None
        } else {
            Some(self.config.documentation.clone())
        }
    }

    /// The unit's cgroup path (empty before its first start).
    pub fn cg_path(&self) -> (r: &String)
        ensures
            r == &self.cgroup_path,
    {
        &self.cgroup_path
    }

    /// Guesses the main pid from the processes of the unit's cgroup
    /// (`pids`, with `my_child[i]` telling whether `pids[i]` is a child of
    /// the manager): the first such child other than pid 0, or 0 where there
    /// is none. A unit without a cgroup has nothing to guess from.
    pub fn guess_main_pid(&self, pids: &Vec<i32>, my_child: &Vec<bool>) -> (r: Result<i32, UnitActionError>)
        requires
            pids@.len() == my_child@.len(),
        ensures
            self.cgroup_path@.len() == 0 ==> r == Err::<i32, UnitActionError>(UnitActionError::ENoent),
            self.cgroup_path@.len() > 0 ==> r is Ok,
            r is Ok && r->Ok_0 != 0 ==> exists|i: int|
                0 <= i < pids@.len() && pids@[i] == r->Ok_0 && my_child@[i] && forall|j: int|
                    0 <= j < i ==> !(#[trigger] my_child@[j] && pids@[j] != 0),
            r is Ok && r->Ok_0 == 0 ==> forall|j: int|
                0 <= j < pids@.len() ==> !(#[trigger] my_child@[j] && pids@[j] != 0),
    {
        if self.cgroup_path.as_str().unicode_len() == 0 {
            return Err(UnitActionError::ENoent);
        }
        let mut i: usize = 0;
        while i < pids.len()
            invariant
                i <= pids@.len(),
                pids@.len() == my_child@.len(),
                self.cgroup_path@.len() > 0,
                forall|j: int| 0 <= j < i ==> !(#[trigger] my_child@[j] && pids@[j] != 0),
            decreases pids@.len() - i,
        {
            if pids[i] != 0 && my_child[i] {
                return Ok(pids[i]);
            }
            i = i + 1;
        }
        Ok(0)
    }

    /// Whether the unit gets default dependencies.
    pub fn default_dependencies(&self) -> (r: bool)
        ensures
            r == self.config.default_dependencies,
    {
        self.config.default_dependencies
    }

    /// Whether isolating another target leaves this unit running.
    pub fn ignore_on_isolate(&self) -> (r: bool)
        ensures
            r == self.config.ignore_on_isolate,
    {
        self.config.ignore_on_isolate
    }

    /// Sets `IgnoreOnIsolate`.
    pub fn set_ignore_on_isolate(&mut self, ignore_on_isolate: bool)
        ensures
            final(self).config.ignore_on_isolate == ignore_on_isolate,
            final(self).id == old(self).id,
            final(self).load_state == old(self).load_state,
    {
        self.config.ignore_on_isolate = ignore_on_isolate;
    }

    /// The action when the unit succeeds.
    pub fn get_success_action(&self) -> (r: UnitEmergencyAction)
        ensures
            r == self.config.success_action,
    {
        self.config.success_action
    }

    /// The action when the unit fails.
    pub fn get_failure_action(&self) -> (r: UnitEmergencyAction)
        ensures
            r == self.config.failure_action,
    {
        self.config.failure_action
    }

    /// The action when the unit hits its start limit.
    pub fn get_start_limit_action(&self) -> (r: UnitEmergencyAction)
        ensures
            r == self.config.start_limit_action,
    {
        self.config.start_limit_action
    }

    /// The action when a job of the unit times out.
    pub fn get_job_timeout_action(&self) -> (r: UnitEmergencyAction)
        ensures
            r == self.config.job_timeout_action,
    {
        self.config.job_timeout_action
    }
}

} // verus!
