use vstd::prelude::*;
use std::collections::HashMap;

verus! {

broadcast use vstd::std_specs::hash::group_hash_axioms;

/// Why a pid could not be watched.
#[derive(Clone, Copy, Debug, PartialEq, Eq, Structural)]
pub enum WatchError {
    /// The pid is watched by another unit.
    WatchedByOther,
}

/// Which unit (by index) watches each child pid. A pid is watched by at
/// most one unit: the table is a map from pid to unit.
pub struct ChildWatch {
    pids: HashMap<i32, u64>,
}

impl View for ChildWatch {
    type V = Map<i32, u64>;

    closed spec fn view(&self) -> Map<i32, u64> {
        self.pids@
    }
}

impl ChildWatch {
    /// An empty table.
    pub fn new() -> (w: ChildWatch)
        ensures
            w@ == Map::<i32, u64>::empty(),
    {
        ChildWatch { pids: HashMap::new() }
    }

    /// Binds `pid` to `unit`. Fails, changing nothing, where another unit
    /// watches `pid`; a binding to `unit` itself stays as it is.
    pub fn child_add_watch_pid(&mut self, unit: u64, pid: i32) -> (r: Result<(), WatchError>)
        ensures
            r is Err <==> (old(self)@.contains_key(pid) && old(self)@[pid] != unit),
            r is Err ==> final(self)@ == old(self)@,
            r is Ok ==> final(self)@ == old(self)@.insert(pid, unit),
    {
        match self.pids.get(&pid) {
            Some(u) => {
                if *u != unit {
                    return Err(WatchError::WatchedByOther);
                }
                proof {
                    assert(old(self)@.insert(pid, unit) =~= old(self)@);
                }
                Ok(())
            },
            None => {
                self.pids.insert(pid, unit);
                Ok(())
            },
        }
    }

    /// Drops the binding of `pid` where `unit` holds it.
    pub fn child_unwatch_pid(&mut self, unit: u64, pid: i32)
        ensures
            (old(self)@.contains_key(pid) && old(self)@[pid] == unit) ==> final(self)@ == old(
                self,
            )@.remove(pid),
            !(old(self)@.contains_key(pid) && old(self)@[pid] == unit) ==> final(self)@ == old(
                self,
            )@,
    {
        let owned = match self.pids.get(&pid) {
            Some(u) => *u == unit,
            None => false,
        };
        if owned {
            self.pids.remove(&pid);
        }
    }

    /// The unit that watches `pid`.
    pub fn get_unit_by_pid(&self, pid: i32) -> (r: Option<u64>)
        ensures
            r == (if self@.contains_key(pid) {
                Some(self@[pid])
            } else {
                None
            }),
    {
        match self.pids.get(&pid) {
            Some(u) => Some(*u),
            None => None,
        }
    }

    /// Whether `pid` is watched by `unit`.
    pub fn same_unit_with_pid(&self, unit: u64, pid: i32) -> (r: bool)
        ensures
            r == (self@.contains_key(pid) && self@[pid] == unit),
    {
        match self.pids.get(&pid) {
            Some(u) => *u == unit,
            None => false,
        }
    }
}

/// A pid never ends up bound to two units: after `pid` was bound to `a`
/// (the table became `w0` with `pid` mapped to `a`), binding it to another
/// unit `b` meets the refusal condition of `child_add_watch_pid`, so the
/// second call fails and `pid` stays with `a` alone.
pub proof fn lemma_watch_unique(w0: Map<i32, u64>, pid: i32, a: u64, b: u64)
    requires
        a != b,
    ensures
        w0.insert(pid, a).contains_key(pid) && w0.insert(pid, a)[pid] != b,
        w0.insert(pid, a)[pid] == a,
{
}

} // verus!
