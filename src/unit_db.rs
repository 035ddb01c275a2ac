use vstd::prelude::*;
use crate::unit_base::UnitType;
use crate::relation::{UnitRelations, UnitRelationAtom};
use crate::dep_graph::{DepGraph, DepError, would_cycle, inserted, edge_targets, atom_target};
use crate::child_watch::{ChildWatch, WatchError};
use crate::errors::UnitActionError;

verus! {

/// Why a store operation failed.
#[derive(Clone, Copy, Debug, PartialEq, Eq, Structural)]
pub enum UnitDbError {
    /// The name is taken by a unit of another type.
    TypeMismatch,
}

/// The unit store: units by name (a unit's id is its position), the
/// dependency graph between them and the child-watch table.
pub struct UnitDb {
    names: Vec<String>,
    types: Vec<UnitType>,
    graph: DepGraph,
    watch: ChildWatch,
}

/// The views of unit names.
pub open spec fn name_views(s: Seq<String>) -> Seq<Seq<char>> {
    s.map_values(|n: String| n@)
}

impl UnitDb {
    /// The names of the units, by id.
    pub closed spec fn names(&self) -> Seq<Seq<char>> {
        name_views(self.names@)
    }

    /// The types of the units, by id.
    pub closed spec fn types(&self) -> Seq<UnitType> {
        self.types@
    }

    /// The dependency graph.
    pub closed spec fn graph(&self) -> DepGraph {
        self.graph
    }

    /// The child-watch table.
    pub closed spec fn watch(&self) -> ChildWatch {
        self.watch
    }

    /// Names are distinct, each unit has a type, and the graph is well formed.
    pub open spec fn wf(&self) -> bool {
        &&& self.names().len() == self.types().len()
        &&& forall|i: int, j: int|
            0 <= i < j < self.names().len() ==> #[trigger] self.names()[i] != #[trigger] self.names()[j]
        &&& self.graph().wf()
    }

    /// An empty store.
    pub fn new() -> (d: UnitDb)
        ensures
            d.wf(),
            d.names().len() == 0,
            d.graph()@.len() == 0,
            d.watch()@ == Map::<i32, u64>::empty(),
    {
        let d = UnitDb { names: Vec::new(), types: Vec::new(), graph: DepGraph::new(), watch: ChildWatch::new() };
        proof {
            assert(name_views(d.names@) =~= Seq::<Seq<char>>::empty());
        }
        d
    }

    /// The dependency graph.
    pub fn graph_ref(&self) -> (g: &DepGraph)
        ensures
            *g == self.graph(),
    {
        &self.graph
    }

    /// Number of units.
    pub fn len(&self) -> (n: usize)
        requires
            self.wf(),
        ensures
            n == self.names().len(),
    {
        self.names.len()
    }

    fn position(&self, name: &String) -> (r: Option<usize>)
        requires
            self.wf(),
        ensures
            match r {
                Some(i) => i < self.names().len() && self.names()[i as int] == name@,
                None => forall|i: int| 0 <= i < self.names().len() ==> self.names()[i] != name@,
            },
    {
        let mut i: usize = 0;
        while i < self.names.len()
            invariant
                i <= self.names@.len(),
                forall|j: int| 0 <= j < i ==> name_views(self.names@)[j] != name@,
            decreases self.names@.len() - i,
        {
            if self.names[i] == *name {
                return Some(i);
            }
            i = i + 1;
        }
        None
    }

    /// The id of the unit called `name`.
    pub fn units_get(&self, name: &String) -> (r: Option<u64>)
        requires
            self.wf(),
        ensures
            match r {
                Some(i) => i < self.names().len() && self.names()[i as int] == name@,
                None => forall|i: int| 0 <= i < self.names().len() ==> self.names()[i] != name@,
            },
    {
        match self.position(name) {
            Some(i) => Some(i as u64),
            None => None,
        }
    }

    /// The name of unit `id`.
    pub fn name_of(&self, id: u64) -> (r: &String)
        requires
            self.wf(),
            id < self.names().len(),
        ensures
            r@ == self.names()[id as int],
    {
        let n = self.names.len();
        assert(id < n);
        &self.names[id as usize]
    }

    /// The type of unit `id`.
    pub fn unit_type(&self, id: u64) -> (t: UnitType)
        requires
            self.wf(),
            id < self.names().len(),
        ensures
            t == self.types()[id as int],
    {
        let n = self.types.len();
        assert(id < n);
        self.types[id as usize]
    }

    /// The ids of all units, or of those of type `t`.
    pub fn units_get_all(&self, t: Option<UnitType>) -> (r: Vec<u64>)
        requires
            self.wf(),
        ensures
            forall|i: u64|
                r@.contains(i) <==> (i < self.names().len() && (t is None || t == Some(
                    self.types()[i as int],
                ))),
    {
        let mut out: Vec<u64> = Vec::new();
        let mut i: usize = 0;
        while i < self.types.len()
            invariant
                i <= self.types@.len(),
                self.wf(),
                forall|j: u64|
                    out@.contains(j) <==> (j < i && (t is None || t == Some(self.types()[j as int]))),
            decreases self.types@.len() - i,
        {
            let ghost prev = out@;
            let take = match t {
                None => true,
                Some(tt) => tt == self.types[i],
            };
            if take {
                out.push(i as u64);
            }
            proof {
                assert forall|j: u64|
                    out@.contains(j) <==> (j < i + 1 && (t is None || t == Some(self.types()[j as int]))) by {
                    if out@.contains(j) && j != i as u64 {
                        let m = choose|m: int| 0 <= m < out@.len() && out@[m] == j;
                        if m < prev.len() {
                            assert(prev[m] == j);
                            assert(prev.contains(j));
                        }
                    }
                    if j < i && (t is None || t == Some(self.types()[j as int])) {
                        assert(prev.contains(j));
                        let m = choose|m: int| 0 <= m < prev.len() && prev[m] == j;
                        assert(out@[m] == j);
                    }
                    if j == i as u64 && take {
                        assert(out@[out@.len() - 1] == j);
                    }
                    if j == i as u64 && out@.contains(j) && !take {
                        let m = choose|m: int| 0 <= m < out@.len() && out@[m] == j;
                        assert(prev[m] == j);
                        assert(prev.contains(j));
                    }
                }
            }
            i = i + 1;
        }
        out
    }

    /// Adds a unit called `name` of type `t`, returning its id. Where the
    /// name exists with the same type its id is returned and nothing
    /// changes; with another type the call fails and nothing changes.
    pub fn units_insert(&mut self, name: String, t: UnitType) -> (r: Result<u64, UnitDbError>)
        requires
            old(self).wf(),
        ensures
            final(self).wf(),
            final(self).graph() == old(self).graph(),
            final(self).watch() == old(self).watch(),
            match r {
                Ok(i) => i < final(self).names().len() && final(self).names()[i as int] == name@
                    && final(self).types()[i as int] == t,
                Err(_) => *final(self) == *old(self),
            },
            (exists|i: int| 0 <= i < old(self).names().len() && old(self).names()[i] == name@)
                ==> final(self).names() == old(self).names() && final(self).types() == old(self).types(),
            (r is Err) <==> (exists|i: int|
                0 <= i < old(self).names().len() && old(self).names()[i] == name@
                    && old(self).types()[i] != t),
            (forall|i: int| 0 <= i < old(self).names().len() ==> old(self).names()[i] != name@)
                ==> final(self).names() == old(self).names().push(name@) && final(self).types()
                == old(self).types().push(t),
    {
        match self.position(&name) {
            Some(i) => {
                proof {
                    assert forall|j: int|
                        0 <= j < self.names().len() && self.names()[j] == name@ implies j == i by {
                        if j != i {
                            if j < i {
                                assert(self.names()[j] != self.names()[i as int]);
                            } else {
                                assert(self.names()[i as int] != self.names()[j]);
                            }
                        }
                    }
                }
                if self.types[i] == t {
                    Ok(i as u64)
                } else {
                    Err(UnitDbError::TypeMismatch)
                }
            },
            None => {
                let ghost old_names = self.names@;
                let id = self.names.len() as u64;
                self.names.push(name);
                self.types.push(t);
                proof {
                    assert(name_views(self.names@) =~= name_views(old_names).push(name@));
                }
                Ok(id)
            },
        }
    }

    /// Inserts `src --rel--> dst` and its inverse between two units (see
    /// `DepGraph::dep_insert`).
    pub fn dep_insert(&mut self, src: u64, rel: UnitRelations, dst: u64, mask: u8) -> (r: Result<
        (),
        DepError,
    >)
        requires
            old(self).wf(),
        ensures
            final(self).wf(),
            final(self).names() == old(self).names(),
            final(self).types() == old(self).types(),
            final(self).watch() == old(self).watch(),
            r.is_err() <==> would_cycle(old(self).graph()@, src, rel, dst),
            r.is_err() ==> final(self).graph()@ == old(self).graph()@,
            r.is_ok() ==> inserted(old(self).graph()@, final(self).graph()@, src, rel, dst, mask),
    {
        self.graph.dep_insert(src, rel, dst, mask)
    }

    /// The units that `src` reaches by `rel`.
    pub fn dep_gets(&self, src: u64, rel: UnitRelations) -> (r: Vec<u64>)
        requires
            self.wf(),
        ensures
            r@.to_set() == edge_targets(self.graph()@, src, rel),
            r@.no_duplicates(),
    {
        self.graph.dep_gets(src, rel)
    }

    /// The units that `src` reaches by a relation carrying `atom`.
    pub fn dep_gets_atom(&self, src: u64, atom: UnitRelationAtom) -> (r: Vec<u64>)
        ensures
            forall|d: u64| r@.contains(d) <==> atom_target(self.graph()@, src, atom, d),
            r@.no_duplicates(),
    {
        self.graph.dep_gets_atom(src, atom)
    }

    /// Whether `src` reaches `dst` by a relation carrying `atom`.
    pub fn dep_is_dep_atom_with(&self, src: u64, atom: UnitRelationAtom, dst: u64) -> (r: bool)
        ensures
            r == atom_target(self.graph()@, src, atom, dst),
    {
        self.graph.dep_is_dep_atom_with(src, atom, dst)
    }

    /// The socket units that trigger unit `id`: those whose descriptors it
    /// is passed.
    pub fn trigger_sockets(&self, id: u64) -> (r: Vec<u64>)
        requires
            self.wf(),
        ensures
            forall|d: u64|
                r@.contains(d) <==> (crate::dep_graph::has_edge(self.graph()@, id, UnitRelations::UnitTriggeredBy, d)
                    && d < self.names().len() && self.types()[d as int] == UnitType::UnitSocket),
    {
        let deps = self.graph.dep_gets(id, UnitRelations::UnitTriggeredBy);
        let mut out: Vec<u64> = Vec::new();
        let mut i: usize = 0;
        let n = self.types.len();
        while i < deps.len()
            invariant
                i <= deps@.len(),
                n == self.types@.len(),
                self.wf(),
                deps@.to_set() == edge_targets(self.graph()@, id, UnitRelations::UnitTriggeredBy),
                forall|d: u64|
                    out@.contains(d) <==> (exists|j: int| 0 <= j < i && #[trigger] deps@[j] == d)
                        && d < self.names().len() && self.types()[d as int] == UnitType::UnitSocket,
            decreases deps@.len() - i,
        {
            let d = deps[i];
            let ghost prev = out@;
            if (d as usize as u64) == d && (d as usize) < n && self.types[d as usize] == UnitType::UnitSocket {
                out.push(d);
            }
            proof {
                assert forall|x: u64|
                    out@.contains(x) <==> (exists|j: int| 0 <= j < i + 1 && #[trigger] deps@[j] == x)
                        && x < self.names().len() && self.types()[x as int] == UnitType::UnitSocket by {
                    if out@.contains(x) {
                        let m = choose|m: int| 0 <= m < out@.len() && out@[m] == x;
                        if m < prev.len() {
                            assert(prev[m] == x);
                            assert(prev.contains(x));
                        }
                    }
                    if (exists|j: int| 0 <= j < i + 1 && #[trigger] deps@[j] == x) && x < self.names().len()
                        && self.types()[x as int] == UnitType::UnitSocket {
                        let j = choose|j: int| 0 <= j < i + 1 && #[trigger] deps@[j] == x;
                        if j < i {
                            assert(prev.contains(x));
                            let m = choose|m: int| 0 <= m < prev.len() && prev[m] == x;
                            assert(out@[m] == x);
                        } else {
                            assert(out@[out@.len() - 1] == x);
                        }
                    }
                }
            }
            i = i + 1;
        }
        proof {
            assert forall|d: u64| out@.contains(d) <==> (crate::dep_graph::has_edge(self.graph()@, id, UnitRelations::UnitTriggeredBy, d)
                && d < self.names().len() && self.types()[d as int] == UnitType::UnitSocket) by {
                assert(deps@.to_set().contains(d) == edge_targets(self.graph()@, id, UnitRelations::UnitTriggeredBy).contains(d));
                if deps@.contains(d) {
                    let j = choose|j: int| 0 <= j < deps@.len() && deps@[j] == d;
                }
            }
        }
        out
    }

    /// Binds `pid` to unit `id` (see `ChildWatch::child_add_watch_pid`).
    pub fn child_add_watch_pid(&mut self, id: u64, pid: i32) -> (r: Result<(), WatchError>)
        requires
            old(self).wf(),
        ensures
            final(self).wf(),
            final(self).names() == old(self).names(),
            final(self).types() == old(self).types(),
            final(self).graph() == old(self).graph(),
            r is Err <==> (old(self).watch()@.contains_key(pid) && old(self).watch()@[pid] != id),
            r is Err ==> final(self).watch()@ == old(self).watch()@,
            r is Ok ==> final(self).watch()@ == old(self).watch()@.insert(pid, id),
    {
        self.watch.child_add_watch_pid(id, pid)
    }

    /// Binds every pid of the unit's cgroup (`pids`) to unit `id`; a pid
    /// that another unit watches stays with it.
    pub fn child_watch_all_pids(&mut self, id: u64, pids: &Vec<i32>)
        requires
            old(self).wf(),
        ensures
            final(self).wf(),
            final(self).names() == old(self).names(),
            final(self).types() == old(self).types(),
            final(self).graph() == old(self).graph(),
            forall|p: i32| #[trigger] pids@.contains(p) ==> final(self).watch()@.contains_key(p),
            forall|p: i32|
                #[trigger] pids@.contains(p) && !(old(self).watch()@.contains_key(p) && old(self).watch()@[p] != id)
                    ==> final(self).watch()@[p] == id,
            forall|p: i32| #[trigger] old(self).watch()@.contains_key(p) ==> final(self).watch()@.contains_key(p)
                && (old(self).watch()@[p] != id ==> final(self).watch()@[p] == old(self).watch()@[p]),
            forall|p: i32|
                #[trigger] final(self).watch()@.contains_key(p) ==> old(self).watch()@.contains_key(p) || pids@.contains(p),
    {
        let mut i: usize = 0;
        while i < pids.len()
            invariant
                self.wf(),
                i <= pids@.len(),
                self.names() == old(self).names(),
                self.types() == old(self).types(),
                self.graph() == old(self).graph(),
                forall|j: int| 0 <= j < i ==> self.watch()@.contains_key(#[trigger] pids@[j]),
                forall|j: int|
                    0 <= j < i && !(old(self).watch()@.contains_key(#[trigger] pids@[j]) && old(self).watch()@[pids@[j]] != id)
                        ==> self.watch()@[pids@[j]] == id,
                forall|p: i32| #[trigger] old(self).watch()@.contains_key(p) ==> self.watch()@.contains_key(p)
                    && (old(self).watch()@[p] != id ==> self.watch()@[p] == old(self).watch()@[p]),
                forall|p: i32|
                    #[trigger] self.watch()@.contains_key(p) ==> old(self).watch()@.contains_key(p) || exists|j: int|
                        0 <= j < i && pids@[j] == p,
                forall|p: i32|
                    #[trigger] self.watch()@.contains_key(p) && self.watch()@[p] != id ==> old(self).watch()@.contains_key(p)
                        && old(self).watch()@[p] == self.watch()@[p],
            decreases pids@.len() - i,
        {
            let ghost before = self.watch()@;
            let _ = self.watch.child_add_watch_pid(id, pids[i]);
            proof {
                let p = pids@[i as int];
                assert(self.watch()@ == before || self.watch()@ == before.insert(p, id));
                assert forall|j: int|
                    0 <= j < i + 1 && !(old(self).watch()@.contains_key(#[trigger] pids@[j]) && old(self).watch()@[pids@[j]] != id)
                        implies self.watch()@[pids@[j]] == id by {
                    if j < i {
                        assert(before[pids@[j]] == id);
                    } else {
                        if before.contains_key(p) && before[p] != id {
                            assert(old(self).watch()@.contains_key(p) && old(self).watch()@[p] == before[p]);
                        }
                    }
                }
                assert forall|q: i32|
                    #[trigger] self.watch()@.contains_key(q) implies old(self).watch()@.contains_key(q) || exists|j: int|
                        0 <= j < i + 1 && pids@[j] == q by {
                    if q == p {
                        assert(pids@[i as int] == q);
                    } else {
                        assert(before.contains_key(q));
                        if !old(self).watch()@.contains_key(q) {
                            let j = choose|j: int| 0 <= j < i && pids@[j] == q;
                            assert(0 <= j < i + 1 && pids@[j] == q);
                        }
                    }
                }
            }
            i = i + 1;
        }
        proof {
            assert forall|p: i32| #[trigger] pids@.contains(p) implies self.watch()@.contains_key(p) by {
                let j = choose|j: int| 0 <= j < pids@.len() && pids@[j] == p;
                assert(self.watch()@.contains_key(pids@[j]));
            }
            assert forall|p: i32|
                #[trigger] pids@.contains(p) && !(old(self).watch()@.contains_key(p) && old(self).watch()@[p] != id)
                    implies self.watch()@[p] == id by {
                let j = choose|j: int| 0 <= j < pids@.len() && pids@[j] == p;
                assert(pids@[j] == p);
            }
            assert forall|p: i32|
                #[trigger] self.watch()@.contains_key(p) implies old(self).watch()@.contains_key(p) || pids@.contains(p) by {
                if !old(self).watch()@.contains_key(p) {
                    let j = choose|j: int| 0 <= j < pids@.len() && pids@[j] == p;
                    assert(pids@[j] == p);
                }
            }
        }
    }

    /// Takes the outcome of spawning a command of unit `id`: a spawned pid is
    /// watched by the unit and returned; a failed spawn gives `Spawn` and
    /// changes nothing, as does a pid that another unit already watches.
    pub fn watch_spawned(&mut self, id: u64, spawned: Result<i32, ()>) -> (r: Result<i32, UnitActionError>)
        requires
            old(self).wf(),
        ensures
            final(self).wf(),
            final(self).names() == old(self).names(),
            final(self).types() == old(self).types(),
            final(self).graph() == old(self).graph(),
            spawned is Err ==> r == Err::<i32, UnitActionError>(UnitActionError::Spawn) && final(self).watch()@
                == old(self).watch()@,
            spawned matches Ok(pid) ==> if old(self).watch()@.contains_key(pid) && old(self).watch()@[pid] != id {
                r == Err::<i32, UnitActionError>(UnitActionError::Spawn) && final(self).watch()@ == old(self).watch()@
            } else {
                r == Ok::<i32, UnitActionError>(pid) && final(self).watch()@ == old(self).watch()@.insert(pid, id)
            },
    {
        match spawned {
            Err(()) => Err(UnitActionError::Spawn),
            Ok(pid) => match self.watch.child_add_watch_pid(id, pid) {
                Ok(()) => Ok(pid),
                Err(_) => Err(UnitActionError::Spawn),
            },
        }
    }

    /// Drops the binding of `pid` where unit `id` holds it.
    pub fn child_unwatch_pid(&mut self, id: u64, pid: i32)
        requires
            old(self).wf(),
        ensures
            final(self).wf(),
            final(self).names() == old(self).names(),
            final(self).types() == old(self).types(),
            final(self).graph() == old(self).graph(),
            (old(self).watch()@.contains_key(pid) && old(self).watch()@[pid] == id) ==> final(self).watch()@ == old(self).watch()@.remove(pid),
            !(old(self).watch()@.contains_key(pid) && old(self).watch()@[pid] == id) ==> final(self).watch()@ == old(self).watch()@,
    {
        self.watch.child_unwatch_pid(id, pid)
    }

    /// Handles a reaped child: the unit that watched `pid` loses the binding
    /// and is returned, so that its sub-unit hears of the exit; an unclaimed
    /// pid changes nothing.
    pub fn reap_pid(&mut self, pid: i32) -> (r: Option<u64>)
        requires
            old(self).wf(),
        ensures
            final(self).wf(),
            final(self).names() == old(self).names(),
            final(self).types() == old(self).types(),
            final(self).graph() == old(self).graph(),
            r == (if old(self).watch()@.contains_key(pid) {
                Some(old(self).watch()@[pid])
            } else {
                None
            }),
            final(self).watch()@ == old(self).watch()@.remove(pid),
    {
        match self.watch.get_unit_by_pid(pid) {
            Some(u) => {
                self.watch.child_unwatch_pid(u, pid);
                Some(u)
            },
            None => {
                proof {
                    assert(old(self).watch()@.remove(pid) =~= old(self).watch()@);
                }
                None
            },
        }
    }

    /// The unit that watches `pid`.
    pub fn get_unit_by_pid(&self, pid: i32) -> (r: Option<u64>)
        ensures
            r == (if self.watch()@.contains_key(pid) {
                Some(self.watch()@[pid])
            } else {
                None
            }),
    {
        self.watch.get_unit_by_pid(pid)
    }
}

} // verus!
