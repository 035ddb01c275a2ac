use vstd::prelude::*;
use std::collections::HashMap;
use crate::relation::UnitRelationAtom;
use crate::unit_base::UnitActiveState;
use crate::dep_graph::{DepGraph, atom_target, atom_reach};

verus! {

broadcast use vstd::std_specs::hash::group_hash_axioms;

/// What a job does to its unit.
#[derive(Clone, Copy, Debug, PartialEq, Eq, Structural)]
pub enum JobKind {
    Start,
    Stop,
    Reload,
    Restart,
    Verify,
    Nop,
}

/// How a transaction treats jobs already pending.
#[derive(Clone, Copy, Debug, PartialEq, Eq, Structural)]
pub enum JobMode {
    Replace,
    Fail,
    Isolate,
    IgnoreDeps,
    IgnoreRequirements,
    Flush,
}

/// Whether a job waits or has been handed to its unit.
#[derive(Clone, Copy, Debug, PartialEq, Eq, Structural)]
pub enum JobState {
    Waiting,
    Running,
}

/// How a job ended.
#[derive(Clone, Copy, Debug, PartialEq, Eq, Structural)]
pub enum JobResult {
    Done,
    Cancelled,
    TimeOut,
    Failed,
    Dependency,
    Skipped,
    Invalid,
    Assert,
    Unsupported,
    Collected,
    OnceBlocked,
    MergedInto,
}

/// A pending job.
#[derive(Clone, Copy, Debug, PartialEq, Eq, Structural)]
pub struct Job {
    pub id: u64,
    pub unit: u64,
    pub kind: JobKind,
    pub state: JobState,
}

/// Why a job was not admitted.
#[derive(Clone, Copy, Debug, PartialEq, Eq, Structural)]
pub enum JobError {
    /// A conflicting job is pending and the mode is `Fail`.
    ETxn,
    /// `Isolate` was asked for a job other than a start.
    EInval,
    /// No job id is left.
    EIdsExhausted,
}

/// How a job was admitted.
#[derive(Clone, Copy, Debug, PartialEq, Eq, Structural)]
pub enum Admitted {
    /// A new job with this id was queued.
    Created(u64),
    /// The request merged into the pending job with this id.
    Merged(u64),
    /// The pending job `cancelled` was replaced by the new job `id`.
    Replaced { id: u64, cancelled: u64 },
}

/// The kind that two jobs on one unit merge into, if they merge: equal
/// kinds merge, `Nop` merges into anything, `Stop` merges with nothing
/// else, a start absorbs a reload or verify, a restart absorbs a start,
/// reload or verify, and a reload absorbs a verify.
pub open spec fn spec_job_merge(a: JobKind, b: JobKind) -> Option<JobKind> {
    if a == b {
        Some(a)
    } else if a == JobKind::Nop {
        Some(b)
    } else if b == JobKind::Nop {
        Some(a)
    } else if a == JobKind::Stop || b == JobKind::Stop {
        None
    } else if a == JobKind::Restart || b == JobKind::Restart {
        Some(JobKind::Restart)
    } else if a == JobKind::Start || b == JobKind::Start {
        Some(JobKind::Start)
    } else {
        Some(JobKind::Reload)
    }
}

/// The kind that two jobs on one unit merge into, if they merge.
pub fn job_merge(a: JobKind, b: JobKind) -> (r: Option<JobKind>)
    ensures
        r == spec_job_merge(a, b),
{
    if a == b {
        Some(a)
    } else if a == JobKind::Nop {
        Some(b)
    } else if b == JobKind::Nop {
        Some(a)
    } else if a == JobKind::Stop || b == JobKind::Stop {
        None
    } else if a == JobKind::Restart || b == JobKind::Restart {
        Some(JobKind::Restart)
    } else if a == JobKind::Start || b == JobKind::Start {
        Some(JobKind::Start)
    } else {
        Some(JobKind::Reload)
    }
}

/// The deadline of a job started at `now` with a timeout of
/// `timeout_usec` microseconds; no deadline for a timeout of 0, and the
/// deadline saturates at the largest time.
pub fn job_deadline(now: u64, timeout_usec: u64) -> (r: Option<u64>)
    ensures
        timeout_usec == 0 ==> r is None,
        timeout_usec > 0 ==> r == Some(
            if now + timeout_usec > u64::MAX {
                u64::MAX
            } else {
                (now + timeout_usec) as u64
            },
        ),
{
    if timeout_usec == 0 {
        None
    } else {
        Some(now.saturating_add(timeout_usec))
    }
}

/// Whether a job with `deadline` has timed out at `now`.
pub fn job_timed_out(deadline: Option<u64>, now: u64) -> (r: bool)
    ensures
        r == match deadline {
            Some(d) => now >= d,
            None => false,
        },
{
    match deadline {
        Some(d) => now >= d,
        None => false,
    }
}

/// Merging is symmetric.
pub proof fn lemma_merge_symmetric(a: JobKind, b: JobKind)
    ensures
        spec_job_merge(a, b) == spec_job_merge(b, a),
{
}

/// The pending jobs (at most one per unit, keyed by unit) and the next id.
pub struct JobQueue {
    jobs: HashMap<u64, Job>,
    next_id: u64,
}

/// The queue and the result after a submission of `kind` on `unit`; in
/// `Flush` mode an admitted job is all that stays queued.
pub open spec fn spec_submit(
    jobs: Map<u64, Job>,
    next_id: u64,
    unit: u64,
    kind: JobKind,
    mode: JobMode,
) -> (Map<u64, Job>, u64, Result<Admitted, JobError>) {
    let (m, n, r) = spec_admit(jobs, next_id, unit, kind, mode);
    if mode == JobMode::Flush && r is Ok {
        (Map::empty().insert(unit, m[unit]), n, r)
    } else {
        (m, n, r)
    }
}

/// Admission of `kind` on `unit` against the job pending there.
pub open spec fn spec_admit(
    jobs: Map<u64, Job>,
    next_id: u64,
    unit: u64,
    kind: JobKind,
    mode: JobMode,
) -> (Map<u64, Job>, u64, Result<Admitted, JobError>) {
    if mode == JobMode::Isolate && kind != JobKind::Start {
        (jobs, next_id, Err(JobError::EInval))
    } else if jobs.contains_key(unit) && spec_job_merge(jobs[unit].kind, kind) is Some {
        let j = jobs[unit];
        (
            jobs.insert(unit, Job { kind: spec_job_merge(j.kind, kind)->Some_0, ..j }),
            next_id,
            Ok(Admitted::Merged(j.id)),
        )
    } else if jobs.contains_key(unit) && mode == JobMode::Fail {
        (jobs, next_id, Err(JobError::ETxn))
    } else if next_id == u64::MAX {
        (jobs, next_id, Err(JobError::EIdsExhausted))
    } else {
        let nj = Job { id: next_id, unit, kind, state: JobState::Waiting };
        (
            jobs.insert(unit, nj),
            (next_id + 1) as u64,
            if jobs.contains_key(unit) {
                Ok(Admitted::Replaced { id: next_id, cancelled: jobs[unit].id })
            } else {
                Ok(Admitted::Created(next_id))
            },
        )
    }
}

impl View for JobQueue {
    type V = (Map<u64, Job>, u64);

    closed spec fn view(&self) -> (Map<u64, Job>, u64) {
        (self.jobs@, self.next_id)
    }
}

impl JobQueue {
    /// Every job is stored under its own unit.
    pub open spec fn wf(&self) -> bool {
        forall|u: u64| #[trigger] self@.0.contains_key(u) ==> self@.0[u].unit == u
    }

    /// An empty queue.
    pub fn new() -> (q: JobQueue)
        ensures
            q.wf(),
            q@.0 == Map::<u64, Job>::empty(),
            q@.1 == 1,
    {
        JobQueue { jobs: HashMap::new(), next_id: 1 }
    }

    /// The job pending on `unit`.
    pub fn job_of(&self, unit: u64) -> (r: Option<Job>)
        ensures
            r == (if self@.0.contains_key(unit) {
                Some(self@.0[unit])
            } else {
                None
            }),
    {
        match self.jobs.get(&unit) {
            Some(j) => Some(*j),
            None => None,
        }
    }

    /// Admits `kind` on `unit` under `mode`: it merges into a pending job
    /// where the merge table allows; otherwise a pending job makes `Fail`
    /// reject the request unchanged, and other modes replace that job
    /// (cancelling it); with no pending job a new one is queued.
    pub fn submit(&mut self, unit: u64, kind: JobKind, mode: JobMode) -> (r: Result<
        Admitted,
        JobError,
    >)
        requires
            old(self).wf(),
        ensures
            final(self).wf(),
            (final(self)@.0, final(self)@.1, r) == spec_submit(
                old(self)@.0,
                old(self)@.1,
                unit,
                kind,
                mode,
            ),
    {
        if mode == JobMode::Isolate && kind != JobKind::Start {
            return Err(JobError::EInval);
        }
        let existing = self.job_of(unit);
        if let Some(j) = existing {
            if let Some(m) = job_merge(j.kind, kind) {
                self.jobs.insert(unit, Job { id: j.id, unit: j.unit, kind: m, state: j.state });
                if mode == JobMode::Flush {
                    self.keep_only(unit);
                }
                return Ok(Admitted::Merged(j.id));
            }
            if mode == JobMode::Fail {
                return Err(JobError::ETxn);
            }
        }
        if self.next_id == u64::MAX {
            return Err(JobError::EIdsExhausted);
        }
        let id = self.next_id;
        self.jobs.insert(unit, Job { id, unit, kind, state: JobState::Waiting });
        self.next_id = self.next_id + 1;
        if mode == JobMode::Flush {
            self.keep_only(unit);
        }
        match existing {
            Some(j) => Ok(Admitted::Replaced { id, cancelled: j.id }),
            None => Ok(Admitted::Created(id)),
        }
    }

    /// Cancels every pending job but the one on `unit`.
    fn keep_only(&mut self, unit: u64)
        requires
            old(self).wf(),
            old(self)@.0.contains_key(unit),
        ensures
            final(self).wf(),
            final(self)@.1 == old(self)@.1,
            final(self)@.0 == Map::<u64, Job>::empty().insert(unit, old(self)@.0[unit]),
    {
        let j = self.job_of(unit);
        let mut fresh: HashMap<u64, Job> = HashMap::new();
        match j {
            Some(job) => {
                fresh.insert(unit, job);
            },
            None => {},
        }
        self.jobs = fresh;
        proof {
            assert(self@.0 =~= Map::<u64, Job>::empty().insert(unit, old(self)@.0[unit]));
        }
    }

    /// Removes the job pending on `unit`, returning it.
    pub fn finish(&mut self, unit: u64) -> (r: Option<Job>)
        requires
            old(self).wf(),
        ensures
            final(self).wf(),
            final(self)@.1 == old(self)@.1,
            final(self)@.0 == old(self)@.0.remove(unit),
            r == (if old(self)@.0.contains_key(unit) {
                Some(old(self)@.0[unit])
            } else {
                None
            }),
    {
        self.jobs.remove(&unit)
    }

    /// Cancels the job pending on `unit`: it leaves the queue with result
    /// `Cancelled`, whether it was waiting or running.
    pub fn cancel(&mut self, unit: u64) -> (r: Option<(Job, JobResult)>)
        requires
            old(self).wf(),
        ensures
            final(self).wf(),
            final(self)@.1 == old(self)@.1,
            final(self)@.0 == old(self)@.0.remove(unit),
            r == (if old(self)@.0.contains_key(unit) {
                Some((old(self)@.0[unit], JobResult::Cancelled))
            } else {
                None
            }),
    {
        match self.jobs.remove(&unit) {
            Some(j) => Some((j, JobResult::Cancelled)),
            None => None,
        }
    }

    /// Marks the job pending on `unit` as running.
    pub fn set_running(&mut self, unit: u64) -> (r: bool)
        requires
            old(self).wf(),
        ensures
            final(self).wf(),
            final(self)@.1 == old(self)@.1,
            r == old(self)@.0.contains_key(unit),
            r ==> final(self)@.0 == old(self)@.0.insert(
                unit,
                Job { state: JobState::Running, ..old(self)@.0[unit] },
            ),
            !r ==> final(self)@.0 == old(self)@.0,
    {
        match self.job_of(unit) {
            Some(j) => {
                self.jobs.insert(unit, Job { id: j.id, unit: j.unit, kind: j.kind, state: JobState::Running });
                true
            },
            None => false,
        }
    }

    /// Isolation: queues a stop on every active unit (`active[i]`, with
    /// `ignore[i]` its `IgnoreOnIsolate`) that is not in `keep` and does not
    /// ignore isolation. Pending jobs on those units are replaced or merged.
    pub fn isolate(&mut self, active: &Vec<u64>, ignore: &Vec<bool>, keep: &Vec<u64>) -> (r: Result<
        (),
        JobError,
    >)
        requires
            old(self).wf(),
            active@.len() == ignore@.len(),
        ensures
            final(self).wf(),
            r is Ok ==> forall|i: int|
                0 <= i < active@.len() && !ignore@[i] && !keep@.contains(#[trigger] active@[i])
                    ==> final(self)@.0.contains_key(active@[i]) && final(self)@.0[active@[i]].kind
                    == JobKind::Stop,
            r is Ok ==> forall|u: u64| #[trigger]
                old(self)@.0.contains_key(u) ==> final(self)@.0.contains_key(u),
            r is Err ==> r == Err::<(), JobError>(JobError::EIdsExhausted) && final(self)@.1 == u64::MAX,
    {
        let mut i: usize = 0;
        while i < active.len()
            invariant
                self.wf(),
                i <= active@.len(),
                active@.len() == ignore@.len(),
                forall|k: int|
                    0 <= k < i && !ignore@[k] && !keep@.contains(#[trigger] active@[k])
                        ==> self@.0.contains_key(active@[k]) && self@.0[active@[k]].kind
                        == JobKind::Stop,
                forall|u: u64| #[trigger] old(self)@.0.contains_key(u) ==> self@.0.contains_key(u),
            decreases active@.len() - i,
        {
            let u = active[i];
            if !ignore[i] && !contains_u64(keep, u) {
                let r = self.submit(u, JobKind::Stop, JobMode::Replace);
                if r.is_err() {
                    proof {
                        assert(self@.1 == u64::MAX);
                    }
                    return Err(JobError::EIdsExhausted);
                }
            }
            i = i + 1;
        }
        Ok(())
    }
}

impl JobQueue {
    /// Starts `target` in isolate mode: a start job on it, and a stop job
    /// on every active unit (`active[i]`, `ignore[i]` its `IgnoreOnIsolate`)
    /// outside the units that `target` pulls in, transitively, through
    /// `Requires`, `Wants` and `BindsTo`, unless it ignores isolation.
    pub fn isolate_start(
        &mut self,
        g: &DepGraph,
        target: u64,
        active: &Vec<u64>,
        ignore: &Vec<bool>,
    ) -> (r: Result<(), JobError>)
        requires
            old(self).wf(),
            active@.len() == ignore@.len(),
        ensures
            final(self).wf(),
            r is Ok ==> final(self)@.0.contains_key(target),
            r is Ok ==> forall|i: int|
                0 <= i < active@.len() && !ignore@[i] && !atom_reach(
                    g@,
                    UnitRelationAtom::UnitAtomPullInStart,
                    target,
                    #[trigger] active@[i],
                ) ==> final(self)@.0.contains_key(active@[i]) && final(self)@.0[active@[i]].kind
                    == JobKind::Stop,
            r is Err ==> r == Err::<(), JobError>(JobError::EIdsExhausted) && final(self)@.1 == u64::MAX,
    {
        let keep = g.atom_closure(target, UnitRelationAtom::UnitAtomPullInStart);
        match self.submit(target, JobKind::Start, JobMode::Isolate) {
            Err(_) => {
                proof {
                    assert(self@.1 == u64::MAX);
                }
                Err(JobError::EIdsExhausted)
            },
            Ok(_) => {
                proof {
                    assert(self@.0.contains_key(target));
                }
                self.isolate(active, ignore, &keep)
            },
        }
    }
}

/// The result that a state change `os -> ns` of its unit gives a job of
/// kind `kind`, where the change completes it: a start (or restart, or
/// verify) is done once the unit is active, or inactive again after
/// activating, and failed if the unit failed; a stop is done once the unit
/// is inactive or failed; a reload is done once the unit is active again
/// and failed if it failed; a no-op is done at once.
pub open spec fn spec_job_result(kind: JobKind, os: UnitActiveState, ns: UnitActiveState) -> Option<
    JobResult,
> {
    match kind {
        JobKind::Start | JobKind::Restart | JobKind::Verify => if ns == UnitActiveState::UnitActive
            || (ns == UnitActiveState::UnitInactive && os == UnitActiveState::UnitActivating) {
            Some(JobResult::Done)
        } else if ns == UnitActiveState::UnitFailed {
            Some(JobResult::Failed)
        } else {
            None
        },
        JobKind::Stop => if ns == UnitActiveState::UnitInactive || ns == UnitActiveState::UnitFailed {
            Some(JobResult::Done)
        } else {
            None
        },
        JobKind::Reload => if ns == UnitActiveState::UnitActive {
            Some(JobResult::Done)
        } else if ns == UnitActiveState::UnitFailed {
            Some(JobResult::Failed)
        } else {
            None
        },
        JobKind::Nop => Some(JobResult::Done),
    }
}

/// The result that a state change gives a job of kind `kind`, if it
/// completes it.
pub fn job_result(kind: JobKind, os: UnitActiveState, ns: UnitActiveState) -> (r: Option<JobResult>)
    ensures
        r == spec_job_result(kind, os, ns),
{
    match kind {
        JobKind::Start | JobKind::Restart | JobKind::Verify => {
            if ns == UnitActiveState::UnitActive || (ns == UnitActiveState::UnitInactive && os
                == UnitActiveState::UnitActivating) {
                Some(JobResult::Done)
            } else if ns == UnitActiveState::UnitFailed {
                Some(JobResult::Failed)
            } else {
                None
            }
        },
        JobKind::Stop => {
            if ns == UnitActiveState::UnitInactive || ns == UnitActiveState::UnitFailed {
                Some(JobResult::Done)
            } else {
                None
            }
        },
        JobKind::Reload => {
            if ns == UnitActiveState::UnitActive {
                Some(JobResult::Done)
            } else if ns == UnitActiveState::UnitFailed {
                Some(JobResult::Failed)
            } else {
                None
            }
        },
        JobKind::Nop => Some(JobResult::Done),
    }
}

impl JobQueue {
    /// Handles a state change `os -> ns` of `unit`: where it completes the
    /// unit's pending job, the job leaves the queue and its result is
    /// returned; otherwise nothing changes.
    pub fn try_finish(&mut self, unit: u64, os: UnitActiveState, ns: UnitActiveState) -> (r: Option<
        JobResult,
    >)
        requires
            old(self).wf(),
        ensures
            final(self).wf(),
            final(self)@.1 == old(self)@.1,
            r == (if old(self)@.0.contains_key(unit) {
                spec_job_result(old(self)@.0[unit].kind, os, ns)
            } else {
                None
            }),
            r is Some ==> final(self)@.0 == old(self)@.0.remove(unit),
            r is None ==> final(self)@.0 == old(self)@.0,
    {
        match self.job_of(unit) {
            None => None,
            Some(j) => {
                let res = job_result(j.kind, os, ns);
                if res.is_some() {
                    self.jobs.remove(&unit);
                }
                res
            },
        }
    }
}

fn contains_u64(v: &Vec<u64>, x: u64) -> (r: bool)
    ensures
        r == v@.contains(x),
{
    let mut i: usize = 0;
    while i < v.len()
        invariant
            0 <= i <= v.len(),
            forall|k: int| 0 <= k < i ==> v@[k] != x,
        decreases v.len() - i,
    {
        if v[i] == x {
            return true;
        }
        i = i + 1;
    }
    false
}

/// Submitting a start on a unit twice leaves exactly one pending job on it,
/// and the second submission reports a merge into the first.
pub proof fn lemma_start_twice_merges(jobs: Map<u64, Job>, next_id: u64, unit: u64)
    ensures
        ({
            let (q1, n1, r1) = spec_submit(jobs, next_id, unit, JobKind::Start, JobMode::Replace);
            let (q2, n2, r2) = spec_submit(q1, n1, unit, JobKind::Start, JobMode::Replace);
            r1 is Ok ==> (r2 is Ok && r2->Ok_0 is Merged && q2.dom() == q1.dom() && n2 == n1
                && q2[unit].kind == q1[unit].kind)
        }),
{
    let (q1, n1, r1) = spec_submit(jobs, next_id, unit, JobKind::Start, JobMode::Replace);
    if r1 is Ok {
        assert(q1.contains_key(unit));
        let k = q1[unit].kind;
        assert(k == JobKind::Start || k == JobKind::Restart);
        let (q2, n2, r2) = spec_submit(q1, n1, unit, JobKind::Start, JobMode::Replace);
        assert(q2.dom() =~= q1.dom());
    }
}

/// The jobs that a request entails on the direct neighbours of its unit:
/// a start pulls in starts along `PullInStart` and stops along
/// `PullInStop`; a stop propagates along `PropagateStop`; a restart or
/// reload propagates along `PropagateRestart`.
pub fn entailed_jobs(g: &DepGraph, unit: u64, kind: JobKind, mode: JobMode) -> (r: Vec<(u64, JobKind)>)
    ensures
        forall|d: u64, k: JobKind| #[trigger] r@.contains((d, k)) <==> entails(g@, unit, kind, mode, d, k),
{
    let mut out: Vec<(u64, JobKind)> = Vec::new();
    if mode == JobMode::IgnoreDeps || mode == JobMode::IgnoreRequirements {
        return out;
    }
    if kind == JobKind::Start {
        let starts = g.dep_gets_atom(unit, UnitRelationAtom::UnitAtomPullInStart);
        append_with_kind(&mut out, &starts, JobKind::Start);
        let stops = g.dep_gets_atom(unit, UnitRelationAtom::UnitAtomPullInStop);
        append_with_kind(&mut out, &stops, JobKind::Stop);
    } else if kind == JobKind::Stop {
        let stops = g.dep_gets_atom(unit, UnitRelationAtom::UnitAtomPropagateStop);
        append_with_kind(&mut out, &stops, JobKind::Stop);
    } else if kind == JobKind::Restart || kind == JobKind::Reload {
        let others = g.dep_gets_atom(unit, UnitRelationAtom::UnitAtomPropagateRestart);
        append_with_kind(&mut out, &others, kind);
    }
    out
}

/// `d` gets a job of kind `k` when `kind` is requested on `src`.
pub open spec fn entails(
    es: Seq<crate::dep_graph::DepEdge>,
    src: u64,
    kind: JobKind,
    mode: JobMode,
    d: u64,
    k: JobKind,
) -> bool {
    if mode == JobMode::IgnoreDeps || mode == JobMode::IgnoreRequirements {
        false
    } else if kind == JobKind::Start {
        (k == JobKind::Start && atom_target(es, src, UnitRelationAtom::UnitAtomPullInStart, d)) || (k
            == JobKind::Stop && atom_target(es, src, UnitRelationAtom::UnitAtomPullInStop, d))
    } else if kind == JobKind::Stop {
        k == JobKind::Stop && atom_target(es, src, UnitRelationAtom::UnitAtomPropagateStop, d)
    } else if kind == JobKind::Restart || kind == JobKind::Reload {
        k == kind && atom_target(es, src, UnitRelationAtom::UnitAtomPropagateRestart, d)
    } else {
        false
    }
}

fn append_with_kind(out: &mut Vec<(u64, JobKind)>, units: &Vec<u64>, k: JobKind)
    ensures
        forall|d: u64, k2: JobKind| #[trigger] final(out)@.contains((d, k2)) <==> (old(out)@.contains(
            (d, k2),
        ) || (k2 == k && units@.contains(d))),
{
    let mut i: usize = 0;
    while i < units.len()
        invariant
            0 <= i <= units@.len(),
            forall|d: u64, k2: JobKind| #[trigger] out@.contains((d, k2)) <==> (old(out)@.contains(
                (d, k2),
            ) || (k2 == k && exists|j: int| 0 <= j < i && units@[j] == d)),
        decreases units@.len() - i,
    {
        let ghost prev = out@;
        out.push((units[i], k));
        proof {
            assert forall|d: u64, k2: JobKind| #[trigger] out@.contains((d, k2)) <==> (old(
                out,
            )@.contains((d, k2)) || (k2 == k && exists|j: int| 0 <= j < i + 1 && units@[j] == d)) by {
                if out@.contains((d, k2)) {
                    let x = choose|x: int| 0 <= x < out@.len() && out@[x] == (d, k2);
                    if x < prev.len() {
                        assert(prev[x] == (d, k2));
                        assert(prev.contains((d, k2)));
                    }
                }
                if old(out)@.contains((d, k2)) {
                    assert(prev.contains((d, k2)));
                    let x = choose|x: int| 0 <= x < prev.len() && prev[x] == (d, k2);
                    assert(out@[x] == (d, k2));
                }
                if k2 == k && exists|j: int| 0 <= j < i + 1 && units@[j] == d {
                    let j = choose|j: int| 0 <= j < i + 1 && units@[j] == d;
                    if j < i {
                        assert(prev.contains((d, k2)));
                        let x = choose|x: int| 0 <= x < prev.len() && prev[x] == (d, k2);
                        assert(out@[x] == (d, k2));
                    } else {
                        assert(out@[out@.len() - 1] == (d, k2));
                    }
                }
            }
        }
        i = i + 1;
    }
    proof {
        assert forall|d: u64| units@.contains(d) <==> exists|j: int| 0 <= j < units@.len() && units@[j] == d by {
            if units@.contains(d) {
                let j = choose|j: int| 0 <= j < units@.len() && units@[j] == d;
            }
        }
    }
}

} // verus!
