use vstd::prelude::*;
use crate::unit_base::{UnitType, UnitLoadState, UnitActiveState};
use crate::unit_config::UnitConfig;
use crate::errors::UnitActionError;
use crate::table::Table;
use crate::unit_db::{UnitDb, UnitDbError};
use crate::job::{
    JobQueue, JobKind, JobMode, JobResult, JobState, Job, Admitted, entailed_jobs, entails,
    spec_job_result, spec_job_merge,
};
use crate::relation::UnitRelationAtom;
use crate::dep_graph::{atom_reach, has_edge};
use crate::relation::UnitRelations;
use crate::lifecycle::{
    start_unit_check, stop_unit_check, restart_unit_check, spec_stop_unit_check,
    spec_restart_unit_check,
};
use crate::errors::MngErrno;
use crate::unit_base::active_name;
use crate::manager::{
    unit_list_header, unit_list_row, status_error_code, cgroup_path_text, status_pids_text,
    pid_lines,
    state_change_actions, StateChangeActions, EmergencyStep, emergency_step, emergency_target,
    spec_emergency_step, action_target, special_target_name, reload_job_skip,
};
use crate::unit_config::UnitEmergencyAction;

verus! {

/// The manager's public surface over the unit store and the job queue:
/// requests by unit name become jobs, and state changes finish them.
pub struct UnitManager {
    db: UnitDb,
    jobs: JobQueue,
    /// `RefuseManualStart` and `RefuseManualStop` of each unit, by name.
    policy: Table<(bool, bool)>,
    /// Load and activation state of each unit, by name.
    states: Table<(UnitLoadState, UnitActiveState)>,
}

/// `new` is `old` after the jobs that `kind` on `id` entails were queued,
/// then `kind` on `id` itself, which was admitted as `a`. Where no entailed
/// job falls on `id` itself, the job on `id` is the merge of `kind` into
/// the one pending before (or `kind` where there was none or they do not
/// merge), and `a` reports a merge exactly when they merged.
pub open spec fn request_queued(
    old: Map<u64, Job>,
    new: Map<u64, Job>,
    es: Seq<crate::dep_graph::DepEdge>,
    id: u64,
    kind: JobKind,
    a: Admitted,
) -> bool {
    &&& new.contains_key(id)
    &&& forall|u: u64| #[trigger] old.contains_key(u) ==> new.contains_key(u)
    &&& forall|d: u64, k: JobKind| #[trigger] entails(es, id, kind, JobMode::Replace, d, k) ==> new.contains_key(d)
    &&& (forall|k: JobKind| !entails(es, id, kind, JobMode::Replace, id, k)) ==> (
        if old.contains_key(id) && spec_job_merge(old[id].kind, kind) is Some {
            new[id].kind == spec_job_merge(old[id].kind, kind)->Some_0 && a == Admitted::Merged(old[id].id)
        } else {
            new[id].kind == kind && !(a is Merged)
        })
}

/// What a status query reports of a unit.
pub struct UnitStatus {
    pub name: String,
    pub description: Option<String>,
    /// Whether the unit loaded.
    pub load: bool,
    pub sub_state: String,
    pub active_state: String,
    pub cgroup: String,
    pub pids: String,
    /// 3 for a failed or inactive unit, else 0.
    pub error_code: i32,
}

/// The ids `0..n` whose type is `t`, in order.
pub open spec fn ids_of_type(types: Seq<UnitType>, t: UnitType, n: nat) -> Seq<u64>
    decreases n,
{
    if n == 0 {
        Seq::empty()
    } else {
        let prev = ids_of_type(types, t, (n - 1) as nat);
        if types[n - 1] == t {
            prev.push((n - 1) as u64)
        } else {
            prev
        }
    }
}

/// The order of the unit listing: services, sockets, targets, mounts,
/// each by id.
pub open spec fn listing_order(types: Seq<UnitType>) -> Seq<u64> {
    ids_of_type(types, UnitType::UnitService, types.len()) + ids_of_type(types, UnitType::UnitSocket, types.len())
        + ids_of_type(types, UnitType::UnitTarget, types.len()) + ids_of_type(types, UnitType::UnitMount, types.len())
}

/// The views of listing rows.
pub open spec fn rows_view(v: Seq<Vec<String>>) -> Seq<Seq<Seq<char>>> {
    v.map_values(|r: Vec<String>| r@.map_values(|c: String| c@))
}

/// The unit called `name` has id `id`.
pub open spec fn named(names: Seq<Seq<char>>, id: u64, name: Seq<char>) -> bool {
    id < names.len() && names[id as int] == name
}

/// Some unit is called `name`.
pub open spec fn known(names: Seq<Seq<char>>, name: Seq<char>) -> bool {
    exists|i: int| 0 <= i < names.len() && names[i] == name
}

impl UnitManager {
    /// The unit store.
    pub closed spec fn db(&self) -> UnitDb {
        self.db
    }

    /// The pending jobs.
    pub closed spec fn jobs(&self) -> JobQueue {
        self.jobs
    }

    /// The manual start/stop settings by name.
    pub closed spec fn policy(&self) -> Table<(bool, bool)> {
        self.policy
    }

    /// The recorded states by name.
    pub closed spec fn states(&self) -> Table<(UnitLoadState, UnitActiveState)> {
        self.states
    }

    /// All parts are well formed.
    pub open spec fn wf(&self) -> bool {
        self.db().wf() && self.jobs().wf() && self.policy().wf() && self.states().wf()
    }

    /// Whether a manual start of `name` is refused by its settings.
    pub open spec fn refuses_start(&self, name: Seq<char>) -> bool {
        self.policy()@.contains_key(name) && self.policy()@[name].0
    }

    /// Whether a manual stop of `name` is refused by its settings.
    pub open spec fn refuses_stop(&self, name: Seq<char>) -> bool {
        self.policy()@.contains_key(name) && self.policy()@[name].1
    }

    /// A manager without units or jobs.
    pub fn new() -> (m: UnitManager)
        ensures
            m.wf(),
            m.db().names().len() == 0,
    {
        UnitManager { db: UnitDb::new(), jobs: JobQueue::new(), policy: Table::new(), states: Table::new() }
    }

    /// Adds a unit with its settings; it starts as a stub, inactive.
    pub fn add_unit(&mut self, name: String, t: UnitType, config: &UnitConfig) -> (r: Result<
        u64,
        UnitDbError,
    >)
        requires
            old(self).wf(),
        ensures
            final(self).wf(),
            match r {
                Ok(i) => named(final(self).db().names(), i, name@) && final(self).db().types()[i as int] == t
                    && final(self).policy()@[name@] == (config.refuse_manual_start, config.refuse_manual_stop),
                Err(_) => final(self).db().names() == old(self).db().names(),
            },
    {
        let key = name.clone();
        let key2 = name.clone();
        match self.db.units_insert(name, t) {
            Err(e) => Err(e),
            Ok(id) => {
                self.policy.insert(key, (config.refuse_manual_start, config.refuse_manual_stop));
                self.states.insert(key2, (UnitLoadState::UnitStub, UnitActiveState::UnitInactive));
                Ok(id)
            },
        }
    }

    /// Records the load state and activation state of `name`.
    pub fn set_state(&mut self, name: &String, load: UnitLoadState, active: UnitActiveState)
        requires
            old(self).wf(),
        ensures
            final(self).wf(),
            final(self).db() == old(self).db(),
            final(self).jobs() == old(self).jobs(),
            final(self).policy() == old(self).policy(),
            final(self).states()@ == old(self).states()@.insert(name@, (load, active)),
    {
        self.states.insert(name.clone(), (load, active));
    }

    fn state_of(&self, name: &String) -> (r: (UnitLoadState, UnitActiveState))
        requires
            self.wf(),
        ensures
            self.states()@.contains_key(name@) ==> r == self.states()@[name@],
            !self.states()@.contains_key(name@) ==> r == (UnitLoadState::UnitStub, UnitActiveState::UnitInactive),
    {
        match self.states.get(name) {
            Some(s) => *s,
            None => (UnitLoadState::UnitStub, UnitActiveState::UnitInactive),
        }
    }

    fn policy_of(&self, name: &String) -> (r: (bool, bool))
        requires
            self.wf(),
        ensures
            r.0 == self.refuses_start(name@),
            r.1 == self.refuses_stop(name@),
    {
        match self.policy.get(name) {
            Some(p) => *p,
            None => (false, false),
        }
    }

    /// The load and activation state recorded for `name` (a stub, inactive,
    /// where none is).
    pub open spec fn recorded(&self, name: Seq<char>) -> (UnitLoadState, UnitActiveState) {
        if self.states()@.contains_key(name) {
            self.states()@[name]
        } else {
            (UnitLoadState::UnitStub, UnitActiveState::UnitInactive)
        }
    }

    /// The recorded load state of `name` says its definition cannot be
    /// used: masked, not found, broken or with a bad setting.
    pub open spec fn load_failed(&self, name: Seq<char>) -> bool {
        let l = self.recorded(name).0;
        l == UnitLoadState::UnitMasked || l == UnitLoadState::UnitNotFound || l
            == UnitLoadState::UnitError || l == UnitLoadState::UnitBadSetting
    }

    fn queue_request(&mut self, id: u64, kind: JobKind) -> (r: Result<Admitted, UnitActionError>)
        requires
            old(self).wf(),
        ensures
            final(self).wf(),
            final(self).db() == old(self).db(),
            final(self).policy() == old(self).policy(),
            final(self).states() == old(self).states(),
            r is Err ==> r == Err::<Admitted, UnitActionError>(UnitActionError::ETxn) && final(self).jobs()@.1
                == u64::MAX,
            r is Ok ==> request_queued(old(self).jobs()@.0, final(self).jobs()@.0, old(self).db().graph()@, id, kind, r->Ok_0),
    {
        let more = entailed_jobs(self.db.graph_ref(), id, kind, JobMode::Replace);
        let ghost j0 = self.jobs@.0;
        let mut i: usize = 0;
        while i < more.len()
            invariant
                self.wf(),
                i <= more@.len(),
                self.db() == old(self).db(),
                self.policy() == old(self).policy(),
                self.states() == old(self).states(),
                j0 == old(self).jobs()@.0,
                forall|u: u64| #[trigger] j0.contains_key(u) ==> self.jobs()@.0.contains_key(u),
                forall|j: int| 0 <= j < i ==> self.jobs()@.0.contains_key(#[trigger] more@[j].0),
                (forall|j: int| 0 <= j < i ==> (#[trigger] more@[j]).0 != id) ==> (self.jobs()@.0.contains_key(id)
                    == j0.contains_key(id) && (j0.contains_key(id) ==> self.jobs()@.0[id] == j0[id])),
            decreases more@.len() - i,
        {
            let (d, k) = more[i];
            let ghost before = self.jobs@.0;
            if self.jobs.submit(d, k, JobMode::Replace).is_err() {
                proof {
                    assert(self.jobs()@.1 == u64::MAX);
                }
                return Err(UnitActionError::ETxn);
            }
            proof {
                assert(self.jobs()@.0.contains_key(d));
                assert(self.jobs()@.0.dom() =~= before.dom().insert(d));
                if d != id {
                    assert(self.jobs()@.0.contains_key(id) == before.contains_key(id));
                    if before.contains_key(id) {
                        assert(self.jobs()@.0[id] == before[id]);
                    }
                }
            }
            i = i + 1;
        }
        let ghost mid = self.jobs@.0;
        match self.jobs.submit(id, kind, JobMode::Replace) {
            Err(_) => {
                proof {
                    assert(self.jobs()@.1 == u64::MAX);
                }
                Err(UnitActionError::ETxn)
            },
            Ok(a) => {
                proof {
                    assert(self.jobs()@.0.dom() =~= mid.dom().insert(id));
                    assert forall|d: u64, k: JobKind|
                        #[trigger] entails(old(self).db().graph()@, id, kind, JobMode::Replace, d, k)
                            implies self.jobs()@.0.contains_key(d) by {
                        assert(more@.contains((d, k)));
                        let j = choose|j: int| 0 <= j < more@.len() && more@[j] == (d, k);
                        assert(mid.contains_key(more@[j].0));
                    }
                    if forall|k: JobKind| !entails(old(self).db().graph()@, id, kind, JobMode::Replace, id, k) {
                        assert forall|j: int| 0 <= j < more@.len() implies (#[trigger] more@[j]).0 != id by {
                            let (d, k) = more@[j];
                            assert(more@.contains((d, k)));
                            assert(!entails(old(self).db().graph()@, id, kind, JobMode::Replace, id, k));
                        }
                    }
                }
                Ok(a)
            },
        }
    }

    /// Requests a start of `name`: an unknown unit gives `ENoent`; a manual
    /// start of a unit that refuses it `ERefuseManualStart`; a unit whose
    /// recorded load state is masked, not found, broken or badly set a
    /// `LoadError` naming it. Otherwise the jobs that the start entails are
    /// queued, then the start itself (merged into a pending job where the
    /// merge table allows); only running out of job ids stops that, with
    /// `ETxn`. A refusal changes nothing.
    pub fn start_unit(&mut self, name: &String, is_manual: bool) -> (r: Result<Admitted, UnitActionError>)
        requires
            old(self).wf(),
        ensures
            final(self).wf(),
            final(self).db() == old(self).db(),
            !known(old(self).db().names(), name@) ==> r == Err::<Admitted, UnitActionError>(UnitActionError::ENoent),
            known(old(self).db().names(), name@) && is_manual && old(self).refuses_start(name@) ==> r
                == Err::<Admitted, UnitActionError>(UnitActionError::ERefuseManualStart),
            known(old(self).db().names(), name@) && !(is_manual && old(self).refuses_start(name@))
                && old(self).load_failed(name@) ==> r == Err::<Admitted, UnitActionError>(
                UnitActionError::LoadError(old(self).recorded(name@).0),
            ),
            r is Err && r != Err::<Admitted, UnitActionError>(UnitActionError::ETxn) ==> *final(self) == *old(self),
            r == Err::<Admitted, UnitActionError>(UnitActionError::ETxn) ==> final(self).jobs()@.1 == u64::MAX,
            r is Ok ==> exists|id: u64| #[trigger]
                named(old(self).db().names(), id, name@) && request_queued(
                    old(self).jobs()@.0,
                    final(self).jobs()@.0,
                    old(self).db().graph()@,
                    id,
                    JobKind::Start,
                    r->Ok_0,
                ),
            r is Err ==> (r == Err::<Admitted, UnitActionError>(UnitActionError::ENoent) && !known(old(self).db().names(), name@))
                || (r == Err::<Admitted, UnitActionError>(UnitActionError::ERefuseManualStart) && known(old(self).db().names(), name@)
                && is_manual && old(self).refuses_start(name@)) || (r == Err::<Admitted, UnitActionError>(
                UnitActionError::LoadError(old(self).recorded(name@).0),
            ) && known(old(self).db().names(), name@) && old(self).load_failed(name@)) || (r == Err::<Admitted, UnitActionError>(
                UnitActionError::ETxn,
            ) && final(self).jobs()@.1 == u64::MAX),
    {
        let id = match self.db.units_get(name) {
            None => {
                return Err(UnitActionError::ENoent);
            },
            Some(id) => id,
        };
        let (refuse_start, _) = self.policy_of(name);
        if start_unit_check(is_manual, refuse_start).is_err() {
            return Err(UnitActionError::ERefuseManualStart);
        }
        let (load, _) = self.state_of(name);
        if load == UnitLoadState::UnitMasked || load == UnitLoadState::UnitNotFound || load
            == UnitLoadState::UnitError || load == UnitLoadState::UnitBadSetting {
            return Err(UnitActionError::LoadError(load));
        }
        {
                let r = self.queue_request(id, JobKind::Start);
                proof {
                    assert(named(old(self).db().names(), id, name@));
                }
                r
            }
    }

    /// Starts `name` in isolate mode: checked as `start_unit` checks; then a
    /// start job on it, and a stop job on every active unit (`active[i]`,
    /// `ignore[i]` its `IgnoreOnIsolate`) that it does not pull in,
    /// transitively, and that does not ignore isolation. Only running out of
    /// job ids stops that, with `ETxn`.
    pub fn isolate_unit(
        &mut self,
        name: &String,
        is_manual: bool,
        active: &Vec<u64>,
        ignore: &Vec<bool>,
    ) -> (r: Result<(), UnitActionError>)
        requires
            old(self).wf(),
            active@.len() == ignore@.len(),
        ensures
            final(self).wf(),
            final(self).db() == old(self).db(),
            !known(old(self).db().names(), name@) ==> r == Err::<(), UnitActionError>(UnitActionError::ENoent),
            known(old(self).db().names(), name@) && is_manual && old(self).refuses_start(name@) ==> r
                == Err::<(), UnitActionError>(UnitActionError::ERefuseManualStart),
            known(old(self).db().names(), name@) && !(is_manual && old(self).refuses_start(name@))
                && old(self).load_failed(name@) ==> r == Err::<(), UnitActionError>(
                UnitActionError::LoadError(old(self).recorded(name@).0),
            ),
            r is Err && r != Err::<(), UnitActionError>(UnitActionError::ETxn) ==> *final(self) == *old(self),
            r == Err::<(), UnitActionError>(UnitActionError::ETxn) ==> final(self).jobs()@.1 == u64::MAX,
            r is Ok ==> exists|id: u64| #[trigger]
                named(old(self).db().names(), id, name@) && final(self).jobs()@.0.contains_key(id)
                    && forall|i: int|
                    0 <= i < active@.len() && !ignore@[i] && !atom_reach(
                        old(self).db().graph()@,
                        UnitRelationAtom::UnitAtomPullInStart,
                        id,
                        #[trigger] active@[i],
                    ) ==> final(self).jobs()@.0.contains_key(active@[i])
                        && final(self).jobs()@.0[active@[i]].kind == JobKind::Stop,
            r is Err ==> (r == Err::<(), UnitActionError>(UnitActionError::ENoent) && !known(old(self).db().names(), name@))
                || (r == Err::<(), UnitActionError>(UnitActionError::ERefuseManualStart) && known(old(self).db().names(), name@)
                && is_manual && old(self).refuses_start(name@)) || (r == Err::<(), UnitActionError>(
                UnitActionError::LoadError(old(self).recorded(name@).0),
            ) && known(old(self).db().names(), name@) && old(self).load_failed(name@)) || (r == Err::<(), UnitActionError>(
                UnitActionError::ETxn,
            ) && final(self).jobs()@.1 == u64::MAX),
    {
        let id = match self.db.units_get(name) {
            None => {
                return Err(UnitActionError::ENoent);
            },
            Some(id) => id,
        };
        let (refuse_start, _) = self.policy_of(name);
        if start_unit_check(is_manual, refuse_start).is_err() {
            return Err(UnitActionError::ERefuseManualStart);
        }
        let (load, _) = self.state_of(name);
        if load == UnitLoadState::UnitMasked || load == UnitLoadState::UnitNotFound || load
            == UnitLoadState::UnitError || load == UnitLoadState::UnitBadSetting {
            return Err(UnitActionError::LoadError(load));
        }
        match self.jobs.isolate_start(self.db.graph_ref(), id, active, ignore) {
            Err(_) => Err(UnitActionError::ETxn),
            Ok(()) => {
                proof {
                    assert(named(old(self).db().names(), id, name@));
                }
                Ok(())
            },
        }
    }

    /// Requests a stop of `name`: an unknown unit gives `ENoent`; otherwise
    /// `stop_unit_check` decides on the recorded states and settings, and a
    /// stop job is queued with the jobs it entails; only running out of job
    /// ids stops that, with `ETxn`. A refusal changes nothing.
    pub fn stop_unit(&mut self, name: &String, is_manual: bool) -> (r: Result<Admitted, UnitActionError>)
        requires
            old(self).wf(),
        ensures
            final(self).wf(),
            final(self).db() == old(self).db(),
            !known(old(self).db().names(), name@) ==> r == Err::<Admitted, UnitActionError>(UnitActionError::ENoent),
            known(old(self).db().names(), name@) && spec_stop_unit_check(
                is_manual,
                old(self).recorded(name@).0,
                old(self).recorded(name@).1,
                old(self).refuses_stop(name@),
            ) is Err ==> r == Err::<Admitted, UnitActionError>(
                spec_stop_unit_check(
                    is_manual,
                    old(self).recorded(name@).0,
                    old(self).recorded(name@).1,
                    old(self).refuses_stop(name@),
                )->Err_0,
            ),
            r is Err && r != Err::<Admitted, UnitActionError>(UnitActionError::ETxn) ==> *final(self) == *old(self),
            r == Err::<Admitted, UnitActionError>(UnitActionError::ETxn) ==> final(self).jobs()@.1 == u64::MAX,
            r is Ok ==> exists|id: u64| #[trigger]
                named(old(self).db().names(), id, name@) && request_queued(
                    old(self).jobs()@.0,
                    final(self).jobs()@.0,
                    old(self).db().graph()@,
                    id,
                    JobKind::Stop,
                    r->Ok_0,
                ),
            r is Err ==> (r == Err::<Admitted, UnitActionError>(UnitActionError::ENoent) && !known(old(self).db().names(), name@))
                || (known(old(self).db().names(), name@) && r == Err::<Admitted, UnitActionError>(
                spec_stop_unit_check(
                    is_manual,
                    old(self).recorded(name@).0,
                    old(self).recorded(name@).1,
                    old(self).refuses_stop(name@),
                )->Err_0,
            ) && spec_stop_unit_check(
                is_manual,
                old(self).recorded(name@).0,
                old(self).recorded(name@).1,
                old(self).refuses_stop(name@),
            ) is Err) || (r == Err::<Admitted, UnitActionError>(UnitActionError::ETxn) && final(self).jobs()@.1 == u64::MAX),
    {
        let id = match self.db.units_get(name) {
            None => {
                return Err(UnitActionError::ENoent);
            },
            Some(id) => id,
        };
        let (load, active) = self.state_of(name);
        let (_, refuse_stop) = self.policy_of(name);
        match stop_unit_check(is_manual, load, active, refuse_stop) {
            Err(e) => Err(e),
            Ok(()) => {
                let r = self.queue_request(id, JobKind::Stop);
                proof {
                    assert(named(old(self).db().names(), id, name@));
                }
                r
            },
        }
    }

    /// Requests a restart of `name`: an unknown unit gives `ENoent`;
    /// otherwise `restart_unit_check` decides on the unit's settings (a
    /// manual restart is refused where the unit refuses a manual stop, or
    /// else a manual start), and a restart job is queued with the jobs it
    /// entails; only running out of job ids stops that, with `ETxn`.
    pub fn restart_unit(&mut self, name: &String, is_manual: bool) -> (r: Result<Admitted, UnitActionError>)
        requires
            old(self).wf(),
        ensures
            final(self).wf(),
            final(self).db() == old(self).db(),
            !known(old(self).db().names(), name@) ==> r == Err::<Admitted, UnitActionError>(UnitActionError::ENoent),
            known(old(self).db().names(), name@) && spec_restart_unit_check(
                is_manual,
                old(self).refuses_stop(name@),
                old(self).refuses_start(name@),
            ) is Err ==> r == Err::<Admitted, UnitActionError>(
                spec_restart_unit_check(is_manual, old(self).refuses_stop(name@), old(self).refuses_start(name@))->Err_0,
            ),
            r is Err && r != Err::<Admitted, UnitActionError>(UnitActionError::ETxn) ==> *final(self) == *old(self),
            r == Err::<Admitted, UnitActionError>(UnitActionError::ETxn) ==> final(self).jobs()@.1 == u64::MAX,
            r is Ok ==> exists|id: u64| #[trigger]
                named(old(self).db().names(), id, name@) && request_queued(
                    old(self).jobs()@.0,
                    final(self).jobs()@.0,
                    old(self).db().graph()@,
                    id,
                    JobKind::Restart,
                    r->Ok_0,
                ),
            r is Err ==> (r == Err::<Admitted, UnitActionError>(UnitActionError::ENoent) && !known(old(self).db().names(), name@))
                || (known(old(self).db().names(), name@) && r == Err::<Admitted, UnitActionError>(
                spec_restart_unit_check(is_manual, old(self).refuses_stop(name@), old(self).refuses_start(name@))->Err_0,
            ) && spec_restart_unit_check(is_manual, old(self).refuses_stop(name@), old(self).refuses_start(name@)) is Err)
                || (r == Err::<Admitted, UnitActionError>(UnitActionError::ETxn) && final(self).jobs()@.1 == u64::MAX),
    {
        let id = match self.db.units_get(name) {
            None => {
                return Err(UnitActionError::ENoent);
            },
            Some(id) => id,
        };
        let (refuse_start, refuse_stop) = self.policy_of(name);
        match restart_unit_check(is_manual, refuse_stop, refuse_start) {
            Err(e) => Err(e),
            Ok(()) => {
                let r = self.queue_request(id, JobKind::Restart);
                proof {
                    assert(named(old(self).db().names(), id, name@));
                }
                r
            },
        }
    }

    /// Requests a reload of `name` and of the units it propagates reloads
    /// to: an unknown unit gives `ENoent`; otherwise the jobs are queued,
    /// and only running out of job ids stops that, with `ETxn`.
    pub fn reload(&mut self, name: &String) -> (r: Result<Admitted, UnitActionError>)
        requires
            old(self).wf(),
        ensures
            final(self).wf(),
            final(self).db() == old(self).db(),
            !known(old(self).db().names(), name@) ==> r == Err::<Admitted, UnitActionError>(UnitActionError::ENoent),
            r is Err && r != Err::<Admitted, UnitActionError>(UnitActionError::ETxn) ==> *final(self) == *old(self),
            r == Err::<Admitted, UnitActionError>(UnitActionError::ETxn) ==> final(self).jobs()@.1 == u64::MAX,
            r is Ok ==> exists|id: u64| #[trigger]
                named(old(self).db().names(), id, name@) && request_queued(
                    old(self).jobs()@.0,
                    final(self).jobs()@.0,
                    old(self).db().graph()@,
                    id,
                    JobKind::Reload,
                    r->Ok_0,
                ),
            r is Err ==> (r == Err::<Admitted, UnitActionError>(UnitActionError::ENoent) && !known(old(self).db().names(), name@))
                || (r == Err::<Admitted, UnitActionError>(UnitActionError::ETxn) && final(self).jobs()@.1 == u64::MAX),
    {
        let id = match self.db.units_get(name) {
            None => {
                return Err(UnitActionError::ENoent);
            },
            Some(id) => id,
        };
        {
                let r = self.queue_request(id, JobKind::Reload);
                proof {
                    assert(named(old(self).db().names(), id, name@));
                }
                r
            }
    }

    /// The ordering constraints of the job on `id` are met: a stop waits
    /// until every unit ordered after it (`id --Before--> d`) is inactive
    /// or failed; any other job waits until every unit it is ordered after
    /// (`id --After--> d`) is active, as recorded.
    pub open spec fn ordering_met(&self, id: u64) -> bool {
        let g = self.db().graph()@;
        let names = self.db().names();
        if self.jobs()@.0[id].kind == JobKind::Stop {
            forall|d: u64| #[trigger] has_edge(g, id, UnitRelations::UnitBefore, d) && d < names.len() ==> (
            self.recorded(names[d as int]).1 == UnitActiveState::UnitInactive || self.recorded(names[d as int]).1
                == UnitActiveState::UnitFailed)
        } else {
            forall|d: u64| #[trigger] has_edge(g, id, UnitRelations::UnitAfter, d) && d < names.len()
                ==> self.recorded(names[d as int]).1 == UnitActiveState::UnitActive
        }
    }

    /// Releases the waiting job on unit `id` where its ordering constraints
    /// are met: it becomes running and the caller invokes the unit's
    /// operation. Otherwise nothing changes.
    pub fn try_release(&mut self, id: u64) -> (r: bool)
        requires
            old(self).wf(),
        ensures
            final(self).wf(),
            final(self).db() == old(self).db(),
            final(self).states() == old(self).states(),
            final(self).jobs()@.1 == old(self).jobs()@.1,
            r == (old(self).jobs()@.0.contains_key(id) && old(self).jobs()@.0[id].state == JobState::Waiting
                && old(self).ordering_met(id)),
            r ==> final(self).jobs()@.0 == old(self).jobs()@.0.insert(
                id,
                Job { state: JobState::Running, ..old(self).jobs()@.0[id] },
            ),
            !r ==> final(self).jobs()@.0 == old(self).jobs()@.0,
    {
        let j = match self.jobs.job_of(id) {
            None => {
                return false;
            },
            Some(j) => j,
        };
        if j.state != JobState::Waiting {
            return false;
        }
        let is_stop = j.kind == JobKind::Stop;
        let rel = if is_stop {
            UnitRelations::UnitBefore
        } else {
            UnitRelations::UnitAfter
        };
        let deps = self.db.dep_gets(id, rel);
        let n = self.db.len();
        let ghost g = self.db().graph()@;
        let ghost names = self.db().names();
        let mut k: usize = 0;
        while k < deps.len()
            invariant
                self.wf(),
                self == old(self),
                self.jobs()@.0.contains_key(id) && self.jobs()@.0[id] == j,
                is_stop == (j.kind == JobKind::Stop),
                rel == (if is_stop { UnitRelations::UnitBefore } else { UnitRelations::UnitAfter }),
                k <= deps@.len(),
                n == names.len(),
                g == self.db().graph()@,
                names == self.db().names(),
                deps@.to_set() == crate::dep_graph::edge_targets(g, id, rel),
                forall|x: int| 0 <= x < k && deps@[x] < n ==> (if is_stop {
                    self.recorded(names[deps@[x] as int]).1 == UnitActiveState::UnitInactive
                        || self.recorded(names[deps@[x] as int]).1 == UnitActiveState::UnitFailed
                } else {
                    self.recorded(names[deps@[x] as int]).1 == UnitActiveState::UnitActive
                }),
            decreases deps@.len() - k,
        {
            let d = deps[k];
            if d < n as u64 {
                let name = self.db.name_of(d);
                let (_, active) = self.state_of(name);
                let ok = if is_stop {
                    active.is_inactive_or_failed()
                } else {
                    active == UnitActiveState::UnitActive
                };
                if !ok {
                    proof {
                        assert(deps@.to_set().contains(d));
                        assert(has_edge(g, id, rel, d));
                        assert(self.jobs()@.0[id] == j);
                        assert(name@ == names[d as int]);
                        if is_stop {
                            assert(!(self.recorded(names[d as int]).1 == UnitActiveState::UnitInactive
                                || self.recorded(names[d as int]).1 == UnitActiveState::UnitFailed));
                        } else {
                            assert(self.recorded(names[d as int]).1 != UnitActiveState::UnitActive);
                        }
                        assert(!self.ordering_met(id));
                    }
                    return false;
                }
            }
            k = k + 1;
        }
        proof {
            assert forall|d: u64| #[trigger] has_edge(g, id, rel, d) && d < names.len() implies (if is_stop {
                self.recorded(names[d as int]).1 == UnitActiveState::UnitInactive
                    || self.recorded(names[d as int]).1 == UnitActiveState::UnitFailed
            } else {
                self.recorded(names[d as int]).1 == UnitActiveState::UnitActive
            }) by {
                assert(crate::dep_graph::edge_targets(g, id, rel).contains(d));
                assert(deps@.to_set().contains(d));
                let x = choose|x: int| 0 <= x < deps@.len() && deps@[x] == d;
            }
        }
        self.jobs.set_running(id);
        true
    }

    /// Runs the reload job pending on unit `id`, given whether the unit can
    /// reload: one that cannot is skipped, leaving the queue with result
    /// `Unsupported`; one that can is marked running. Any other job, or
    /// none, is left alone.
    pub fn run_reload_job(&mut self, id: u64, can_reload: bool) -> (r: Option<JobResult>)
        requires
            old(self).wf(),
        ensures
            final(self).wf(),
            final(self).db() == old(self).db(),
            final(self).states() == old(self).states(),
            final(self).jobs()@.1 == old(self).jobs()@.1,
            !(old(self).jobs()@.0.contains_key(id) && old(self).jobs()@.0[id].kind == JobKind::Reload) ==> r is None
                && final(self).jobs()@.0 == old(self).jobs()@.0,
            old(self).jobs()@.0.contains_key(id) && old(self).jobs()@.0[id].kind == JobKind::Reload && !can_reload
                ==> r == Some(JobResult::Unsupported) && final(self).jobs()@.0 == old(self).jobs()@.0.remove(id),
            old(self).jobs()@.0.contains_key(id) && old(self).jobs()@.0[id].kind == JobKind::Reload && can_reload
                ==> r is None && final(self).jobs()@.0 == old(self).jobs()@.0.insert(
                id,
                Job { state: JobState::Running, ..old(self).jobs()@.0[id] },
            ),
    {
        match self.jobs.job_of(id) {
            Some(j) => {
                if j.kind != JobKind::Reload {
                    return None;
                }
                match reload_job_skip(can_reload) {
                    Some(res) => {
                        self.jobs.finish(id);
                        Some(res)
                    },
                    None => {
                        self.jobs.set_running(id);
                        None
                    },
                }
            },
            None => None,
        }
    }

    /// Takes a published state change `os -> ns` of unit `id` (called
    /// `name`): records it, finishes the unit's job where the change
    /// completes it, and says which emergency actions are due.
    pub fn unit_state_changed(
        &mut self,
        id: u64,
        name: &String,
        load: UnitLoadState,
        os: UnitActiveState,
        ns: UnitActiveState,
    ) -> (r: (Option<JobResult>, StateChangeActions))
        requires
            old(self).wf(),
        ensures
            final(self).wf(),
            final(self).db() == old(self).db(),
            final(self).states()@ == old(self).states()@.insert(name@, (load, ns)),
            r.0 == (if old(self).jobs()@.0.contains_key(id) {
                spec_job_result(old(self).jobs()@.0[id].kind, os, ns)
            } else {
                None
            }),
            final(self).policy() == old(self).policy(),
            final(self).jobs()@.1 == old(self).jobs()@.1,
            r.0 is Some ==> final(self).jobs()@.0 == old(self).jobs()@.0.remove(id),
            r.0 is None ==> final(self).jobs()@.0 == old(self).jobs()@.0,
            r.1.failure == (os != UnitActiveState::UnitFailed && ns == UnitActiveState::UnitFailed),
            r.1.success == (!(os == UnitActiveState::UnitInactive || os == UnitActiveState::UnitFailed)
                && ns == UnitActiveState::UnitInactive),
    {
        self.states.insert(name.clone(), (load, ns));
        let res = self.jobs.try_finish(id, os, ns);
        (res, state_change_actions(os, ns))
    }

    /// The target is active or activating, as last recorded.
    pub open spec fn target_busy(&self, name: Seq<char>) -> bool {
        self.states()@.contains_key(name) && (self.states()@[name].1 == UnitActiveState::UnitActive
            || self.states()@[name].1 == UnitActiveState::UnitReloading || self.states()@[name].1
            == UnitActiveState::UnitActivating)
    }

    /// The target has a pending start (or restart) job.
    pub open spec fn target_starting(&self, name: Seq<char>) -> bool {
        exists|id: u64|
            named(self.db().names(), id, name) && #[trigger] self.jobs()@.0.contains_key(id) && (
            self.jobs()@.0[id].kind == JobKind::Start || self.jobs()@.0[id].kind == JobKind::Restart)
    }

    fn target_status(&self, name: &String) -> (r: (bool, bool))
        requires
            self.wf(),
        ensures
            r.0 == self.target_busy(name@),
            r.1 == self.target_starting(name@),
    {
        let (_, active) = self.state_of(name);
        let busy = active.is_active_or_activating();
        let starting = match self.db.units_get(name) {
            None => false,
            Some(id) => match self.jobs.job_of(id) {
                Some(j) => {
                    let s = j.kind == JobKind::Start || j.kind == JobKind::Restart;
                    proof {
                        if !s {
                            assert forall|x: u64| named(self.db().names(), x, name@) implies x == id by {
                                if x != id {
                                    if x < id {
                                        assert(self.db().names()[x as int] != self.db().names()[id as int]);
                                    } else {
                                        assert(self.db().names()[id as int] != self.db().names()[x as int]);
                                    }
                                }
                            }
                        }
                    }
                    s
                },
                None => {
                    proof {
                        assert forall|x: u64| named(self.db().names(), x, name@) implies x == id by {
                            if x != id {
                                if x < id {
                                    assert(self.db().names()[x as int] != self.db().names()[id as int]);
                                } else {
                                    assert(self.db().names()[id as int] != self.db().names()[x as int]);
                                }
                            }
                        }
                    }
                    false
                },
            },
        };
        (busy, starting)
    }

    /// Carries out an emergency action as far as the manager does: the
    /// step is `emergency_step` for the status of the action's target, and
    /// a step that starts the target queues its start job. The forced and
    /// immediate steps are returned for the main loop to perform.
    pub fn unit_emergency_action(&mut self, action: UnitEmergencyAction) -> (r: EmergencyStep)
        requires
            old(self).wf(),
        ensures
            final(self).wf(),
            r == (match action_target(action) {
                Some(t) => spec_emergency_step(
                    action,
                    old(self).target_busy(special_target_name(t)),
                    old(self).target_starting(special_target_name(t)),
                ),
                None => spec_emergency_step(action, false, false),
            }),
            !(r is StartTarget) ==> *final(self) == *old(self),
            r matches EmergencyStep::StartTarget(t) ==> (exists|id: u64| #[trigger]
                named(old(self).db().names(), id, special_target_name(t)) && final(self).jobs()@.0.contains_key(id))
                || !known(old(self).db().names(), special_target_name(t)) || old(self).load_failed(
                special_target_name(t),
            ) || final(self).jobs()@.1 == u64::MAX,
    {
        let step = match emergency_target(action) {
            None => emergency_step(action, false, false),
            Some(t) => {
                let name = t.name();
                let (busy, starting) = self.target_status(&name);
                emergency_step(action, busy, starting)
            },
        };
        match step {
            EmergencyStep::StartTarget(t) => {
                let name = t.name();
                let ghost before = *self;
                let res = self.start_unit(&name, false);
                proof {
                    assert(before == *old(self));
                    if res is Ok {
                        let id = choose|id: u64| #[trigger] named(old(self).db().names(), id, name@) && request_queued(
                            old(self).jobs()@.0,
                            self.jobs()@.0,
                            old(self).db().graph()@,
                            id,
                            JobKind::Start,
                            res->Ok_0,
                        );
                        assert(self.jobs()@.0.contains_key(id));
                    }
                }
            },
            _ => {},
        }
        step
    }

    /// The listing row of unit `id`: name, whether it loaded, activation
    /// state, sub-unit state, description (the name where there is none).
    pub open spec fn listing_row(&self, id: u64, sub_states: Seq<String>, descriptions: Seq<Option<String>>) -> Seq<Seq<char>> {
        let n = self.db().names()[id as int];
        seq![
            n,
            if self.recorded(n).0 == UnitLoadState::UnitLoaded { "true"@ } else { "false"@ },
            active_name(self.recorded(n).1),
            sub_states[id as int]@,
            match descriptions[id as int] {
                Some(d) => d@,
                None => n,
            },
        ]
    }

    fn append_type_rows(
        &self,
        out: &mut Vec<Vec<String>>,
        t: UnitType,
        names: &Vec<String>,
        sub_states: &Vec<String>,
        descriptions: &Vec<Option<String>>,
    )
        requires
            self.wf(),
            names@.map_values(|c: String| c@) == self.db().names(),
            sub_states@.len() == self.db().names().len(),
            descriptions@.len() == self.db().names().len(),
        ensures
            rows_view(final(out)@) == rows_view(old(out)@) + ids_of_type(self.db().types(), t, self.db().types().len()).map_values(
                |id: u64| self.listing_row(id, sub_states@, descriptions@),
            ),
    {
        let n = self.db.len();
        let mut i: usize = 0;
        while i < n
            invariant
                self.wf(),
                n == self.db().names().len(),
                n == self.db().types().len(),
                i <= n,
                names@.map_values(|c: String| c@) == self.db().names(),
                sub_states@.len() == n,
                descriptions@.len() == n,
                rows_view(out@) == rows_view(old(out)@) + ids_of_type(self.db().types(), t, i as nat).map_values(
                    |id: u64| self.listing_row(id, sub_states@, descriptions@),
                ),
            decreases n - i,
        {
            let ghost before = rows_view(out@);
            let ghost ids = ids_of_type(self.db().types(), t, i as nat);
            if self.db.unit_type(i as u64) == t {
                let name = &names[i];
                proof {
                    assert(names@.map_values(|c: String| c@)[i as int] == name@);
                }
                let loaded = self.load_unit_success(name);
                let (_, active) = self.state_of(name);
                let desc: Option<&str> = match &descriptions[i] {
                    Some(d) => Some(d.as_str()),
                    None => None,
                };
                let (row, _) = unit_list_row(name.as_str(), loaded, active, sub_states[i].as_str(), desc);
                out.push(row);
                proof {
                    let rv = row@.map_values(|c: String| c@);
                    assert(rv =~= self.listing_row(i as u64, sub_states@, descriptions@));
                    assert(rows_view(out@) =~= before.push(rv));
                    assert(ids_of_type(self.db().types(), t, (i + 1) as nat) == ids.push(i as u64));
                    assert(ids.push(i as u64).map_values(|id: u64| self.listing_row(id, sub_states@, descriptions@))
                        =~= ids.map_values(|id: u64| self.listing_row(id, sub_states@, descriptions@)).push(rv));
                }
            } else {
                proof {
                    assert(ids_of_type(self.db().types(), t, (i + 1) as nat) == ids);
                }
            }
            i = i + 1;
        }
    }

    /// The unit listing: a header row, then a row per unit (see
    /// `listing_row`), services first, then sockets, targets and mounts, each
    /// by id. `names[id]`, `sub_states[id]` and `descriptions[id]` are the
    /// unit's name, its sub-unit's state and its description.
    pub fn get_all_units(&self, names: &Vec<String>, sub_states: &Vec<String>, descriptions: &Vec<Option<String>>) -> (r: Vec<Vec<String>>)
        requires
            self.wf(),
            names@.map_values(|c: String| c@) == self.db().names(),
            sub_states@.len() == self.db().names().len(),
            descriptions@.len() == self.db().names().len(),
        ensures
            rows_view(r@) == seq![seq!["UNIT"@, "LOAD"@, "ACTIVE"@, "SUB"@, "DESCRIPTION"@]] + listing_order(self.db().types()).map_values(
                |id: u64| self.listing_row(id, sub_states@, descriptions@),
            ),
    {
        let mut out: Vec<Vec<String>> = Vec::new();
        let header = unit_list_header();
        proof {
            assert(header@.map_values(|c: String| c@) =~= seq!["UNIT"@, "LOAD"@, "ACTIVE"@, "SUB"@, "DESCRIPTION"@]);
        }
        let ghost hv = header@.map_values(|c: String| c@);
        out.push(header);
        let ghost h = rows_view(out@);
        proof {
            assert(h[0] == hv);
            assert(h =~= seq![seq!["UNIT"@, "LOAD"@, "ACTIVE"@, "SUB"@, "DESCRIPTION"@]]);
        }
        self.append_type_rows(&mut out, UnitType::UnitService, names, sub_states, descriptions);
        self.append_type_rows(&mut out, UnitType::UnitSocket, names, sub_states, descriptions);
        self.append_type_rows(&mut out, UnitType::UnitTarget, names, sub_states, descriptions);
        self.append_type_rows(&mut out, UnitType::UnitMount, names, sub_states, descriptions);
        proof {
            let f = |id: u64| self.listing_row(id, sub_states@, descriptions@);
            let ty = self.db().types();
            let a = ids_of_type(ty, UnitType::UnitService, ty.len());
            let b = ids_of_type(ty, UnitType::UnitSocket, ty.len());
            let c = ids_of_type(ty, UnitType::UnitTarget, ty.len());
            let d = ids_of_type(ty, UnitType::UnitMount, ty.len());
            assert((a + b + c + d).map_values(f) =~= a.map_values(f) + b.map_values(f) + c.map_values(f) + d.map_values(f));
            assert(rows_view(out@) =~= h + (a + b + c + d).map_values(f));
        }
        out
    }

    /// The status of `name`; `NotExisted` for an unknown unit.
    /// `description`, `sub_state`, `cgroup_path`, `pids` and `cmdlines` are
    /// what its configuration, sub-unit and cgroup report.
    pub fn get_unit_status(
        &self,
        name: &String,
        description: Option<&str>,
        sub_state: &str,
        cgroup_path: &str,
        pids: &Vec<u32>,
        cmdlines: &Vec<String>,
    ) -> (r: Result<UnitStatus, MngErrno>)
        requires
            self.wf(),
            pids@.len() == cmdlines@.len(),
        ensures
            !known(self.db().names(), name@) ==> r == Err::<UnitStatus, MngErrno>(MngErrno::NotExisted),
            known(self.db().names(), name@) ==> (r matches Ok(st) && st.name@ == name@ && st.load == (
            self.recorded(name@).0 == UnitLoadState::UnitLoaded) && st.active_state@ == active_name(
                self.recorded(name@).1,
            ) && st.sub_state@ == sub_state@ && st.error_code == (if self.recorded(name@).1
                == UnitActiveState::UnitFailed || self.recorded(name@).1 == UnitActiveState::UnitInactive {
                3i32
            } else {
                0i32
            }) && st.cgroup@ == (if cgroup_path@.len() == 0 {
                "Empty cgroup path"@
            } else {
                cgroup_path@
            }) && st.pids@ == (if pids@.len() == 0 {
                "No process"@
            } else {
                pid_lines(pids@, cmdlines@.map_values(|c: String| c@))
            }) && (match description {
                Some(d) => st.description matches Some(x) && x@ == d@,
                None => st.description is None,
            })),
    {
        if self.db.units_get(name).is_none() {
            return Err(MngErrno::NotExisted);
        }
        let (_, active) = self.state_of(name);
        let desc = match description {
            Some(d) => Some(String::from_str(d)),
            None => None,
        };
        Ok(UnitStatus {
            name: name.clone(),
            description: desc,
            load: self.load_unit_success(name),
            sub_state: String::from_str(sub_state),
            active_state: active.name(),
            cgroup: cgroup_path_text(cgroup_path),
            pids: status_pids_text(pids, cmdlines),
            error_code: status_error_code(active),
        })
    }

    /// The units to re-trigger after a state change of unit `id`: those it
    /// is triggered by.
    pub fn units_to_trigger(&self, id: u64) -> (r: Vec<u64>)
        ensures
            forall|d: u64|
                r@.contains(d) <==> crate::dep_graph::atom_target(
                    self.db().graph()@,
                    id,
                    crate::relation::UnitRelationAtom::UnitAtomTriggeredBy,
                    d,
                ),
            r@.no_duplicates(),
    {
        self.db.dep_gets_atom(id, crate::relation::UnitRelationAtom::UnitAtomTriggeredBy)
    }

    /// The id of the unit called `name`.
    pub fn units_get(&self, name: &String) -> (r: Option<u64>)
        requires
            self.wf(),
        ensures
            match r {
                Some(i) => named(self.db().names(), i, name@),
                None => !known(self.db().names(), name@),
            },
    {
        self.db.units_get(name)
    }

    /// Whether unit `id` has a pending stop job.
    pub fn has_stop_job(&self, id: u64) -> (r: bool)
        ensures
            r == (self.jobs()@.0.contains_key(id) && self.jobs()@.0[id].kind == JobKind::Stop),
    {
        match self.jobs.job_of(id) {
            Some(j) => j.kind == JobKind::Stop,
            None => false,
        }
    }

    /// Whether `name` was loaded successfully, as last recorded.
    pub fn load_unit_success(&self, name: &String) -> (r: bool)
        requires
            self.wf(),
        ensures
            r == (self.states()@.contains_key(name@) && self.states()@[name@].0 == UnitLoadState::UnitLoaded),
    {
        let (load, _) = self.state_of(name);
        load == UnitLoadState::UnitLoaded
    }

    /// Binds `pid` to unit `id` (see `ChildWatch::child_add_watch_pid`).
    pub fn child_watch_pid(&mut self, id: u64, pid: i32) -> (r: Result<(), crate::child_watch::WatchError>)
        requires
            old(self).wf(),
        ensures
            final(self).wf(),
            final(self).db().names() == old(self).db().names(),
            r is Err <==> (old(self).db().watch()@.contains_key(pid) && old(self).db().watch()@[pid] != id),
            r is Ok ==> final(self).db().watch()@ == old(self).db().watch()@.insert(pid, id),
            r is Err ==> final(self).db().watch()@ == old(self).db().watch()@,
    {
        self.db.child_add_watch_pid(id, pid)
    }

    /// Drops the binding of `pid` where unit `id` holds it.
    pub fn child_unwatch_pid(&mut self, id: u64, pid: i32)
        requires
            old(self).wf(),
        ensures
            final(self).wf(),
            final(self).db().names() == old(self).db().names(),
            (old(self).db().watch()@.contains_key(pid) && old(self).db().watch()@[pid] == id) ==> final(self).db().watch()@
                == old(self).db().watch()@.remove(pid),
    {
        self.db.child_unwatch_pid(id, pid)
    }

    /// The unit that watches `pid`.
    pub fn get_unit_by_pid(&self, pid: i32) -> (r: Option<u64>)
        ensures
            r == (if self.db().watch()@.contains_key(pid) {
                Some(self.db().watch()@[pid])
            } else {
                None
            }),
    {
        self.db.get_unit_by_pid(pid)
    }

    /// The job pending on unit `id`.
    pub fn job_of(&self, id: u64) -> (r: Option<crate::job::Job>)
        ensures
            r == (if self.jobs()@.0.contains_key(id) {
                Some(self.jobs()@.0[id])
            } else {
                None
            }),
    {
        self.jobs.job_of(id)
    }

    /// Adds an edge between two units (see `DepGraph::dep_insert`).
    pub fn unit_add_dependency(
        &mut self,
        src: u64,
        rel: crate::relation::UnitRelations,
        dst: u64,
        mask: u8,
    ) -> (r: Result<(), crate::dep_graph::DepError>)
        requires
            old(self).wf(),
        ensures
            final(self).wf(),
            final(self).db().names() == old(self).db().names(),
            final(self).jobs() == old(self).jobs(),
            final(self).states() == old(self).states(),
            r.is_err() <==> crate::dep_graph::would_cycle(old(self).db().graph()@, src, rel, dst),
            r.is_err() ==> final(self).db().graph()@ == old(self).db().graph()@,
            r.is_ok() ==> crate::dep_graph::inserted(old(self).db().graph()@, final(self).db().graph()@, src, rel, dst, mask),
    {
        self.db.dep_insert(src, rel, dst, mask)
    }
}

} // verus!
