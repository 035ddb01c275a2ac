use vstd::prelude::*;
use vstd::utf8::encode_utf8;
use crate::unit_base::{UnitType, unit_name_to_type, spec_name_to_type};
use crate::relation::UnitRelations;
use crate::unit_db::UnitDb;
use crate::dep_graph::{has_edge, would_cycle, edges_grow, lemma_inserted_grows, lemma_cycle_grows};

verus! {

/// Units waiting to be loaded, first in first out, each at most once.
pub struct LoadQueue {
    queue: Vec<u64>,
}

impl View for LoadQueue {
    type V = Seq<u64>;

    closed spec fn view(&self) -> Seq<u64> {
        self.queue@
    }
}

impl LoadQueue {
    /// Each unit waits at most once.
    pub open spec fn wf(&self) -> bool {
        self@.no_duplicates()
    }

    /// An empty queue.
    pub fn new() -> (q: LoadQueue)
        ensures
            q.wf(),
            q@ == Seq::<u64>::empty(),
    {
        LoadQueue { queue: Vec::new() }
    }

    /// Whether `id` waits in the queue.
    pub fn contains(&self, id: u64) -> (r: bool)
        ensures
            r == self@.contains(id),
    {
        let mut i: usize = 0;
        while i < self.queue.len()
            invariant
                i <= self@.len(),
                forall|j: int| 0 <= j < i ==> self@[j] != id,
            decreases self@.len() - i,
        {
            if self.queue[i] == id {
                return true;
            }
            i = i + 1;
        }
        false
    }

    /// Appends `id` unless it waits already.
    pub fn push(&mut self, id: u64)
        requires
            old(self).wf(),
        ensures
            final(self).wf(),
            old(self)@.contains(id) ==> final(self)@ == old(self)@,
            !old(self)@.contains(id) ==> final(self)@ == old(self)@.push(id),
    {
        if !self.contains(id) {
            self.queue.push(id);
            proof {
                assert forall|a: int, b: int| 0 <= a < b < self@.len() implies self@[a] != self@[b] by {
                    if b == self@.len() - 1 {
                        assert(old(self)@[a] == self@[a]);
                    }
                }
            }
        }
    }

    /// Takes the unit that has waited longest.
    pub fn pop(&mut self) -> (r: Option<u64>)
        requires
            old(self).wf(),
        ensures
            final(self).wf(),
            old(self)@.len() == 0 ==> r is None && final(self)@ == old(self)@,
            old(self)@.len() > 0 ==> r == Some(old(self)@[0]) && final(self)@ == old(self)@.drop_first(),
    {
        if self.queue.len() == 0 {
            return None;
        }
        let id = self.queue.remove(0);
        proof {
            assert(self@ =~= old(self)@.drop_first());
            assert forall|a: int, b: int| 0 <= a < b < self@.len() implies self@[a] != self@[b] by {
                assert(self@[a] == old(self)@[a + 1] && self@[b] == old(self)@[b + 1]);
            }
        }
        Some(id)
    }

    /// Takes every waiting unit, in the order they came.
    pub fn dispatch(&mut self) -> (r: Vec<u64>)
        requires
            old(self).wf(),
        ensures
            final(self).wf(),
            final(self)@.len() == 0,
            r@ == old(self)@,
    {
        let mut out: Vec<u64> = Vec::new();
        while self.queue.len() > 0
            invariant
                self.wf(),
                out@ + self@ == old(self)@,
            decreases self@.len(),
        {
            let ghost before = self@;
            let id = self.queue.remove(0);
            out.push(id);
            proof {
                assert(self@ =~= before.drop_first());
                assert forall|a: int, b: int| 0 <= a < b < self@.len() implies self@[a] != self@[b] by {
                    assert(self@[a] == before[a + 1] && self@[b] == before[b + 1]);
                }
                assert(out@ + self@ =~= old(self)@);
            }
        }
        proof {
            assert(out@ + self@ =~= out@);
        }
        out
    }
}

/// `name` is a unit of `names`, or could become one: its suffix names a
/// valid type.
pub open spec fn resolves(names: Seq<Seq<char>>, name: Seq<char>) -> bool {
    crate::unit_manager::known(names, name) || spec_name_to_type(encode_utf8(name)) != UnitType::UnitTypeInvalid
}

/// The unit called `name` is reached from `id` by `rel`, or that edge
/// would close an ordering cycle.
pub open spec fn linked(db: UnitDb, id: u64, rel: UnitRelations, name: Seq<char>) -> bool {
    exists|o: u64| #[trigger] crate::unit_manager::named(db.names(), o, name) && (has_edge(db.graph()@, id, rel, o)
        || would_cycle(db.graph()@, id, rel, o))
}

proof fn lemma_linked_kept(db1: UnitDb, db2: UnitDb, id: u64)
    requires
        db2.names().len() >= db1.names().len(),
        forall|k: int| 0 <= k < db1.names().len() ==> db2.names()[k] == db1.names()[k],
        edges_grow(db1.graph()@, db2.graph()@),
    ensures
        forall|rel: UnitRelations, name: Seq<char>| #[trigger] linked(db1, id, rel, name) ==> linked(db2, id, rel, name),
{
    assert forall|rel: UnitRelations, name: Seq<char>| #[trigger] linked(db1, id, rel, name) implies linked(db2, id, rel, name) by {
        let o = choose|o: u64| #[trigger] crate::unit_manager::named(db1.names(), o, name) && (has_edge(db1.graph()@, id, rel, o)
            || would_cycle(db1.graph()@, id, rel, o));
        assert(crate::unit_manager::named(db2.names(), o, name));
        if would_cycle(db1.graph()@, id, rel, o) {
            lemma_cycle_grows(db1.graph()@, db2.graph()@, id, rel, o);
        }
    }
}

/// The unit store with its load queue.
pub struct UnitLoad {
    pub db: UnitDb,
    pub queue: LoadQueue,
}

impl UnitLoad {
    /// The store and the queue are well formed.
    pub open spec fn wf(&self) -> bool {
        self.db.wf() && self.queue.wf()
    }

    /// An empty store and queue.
    pub fn new() -> (l: UnitLoad)
        ensures
            l.wf(),
            l.db.names().len() == 0,
            l.queue@.len() == 0,
    {
        UnitLoad { db: UnitDb::new(), queue: LoadQueue::new() }
    }

    /// Creates the unit called `name`, of the type its suffix names, and
    /// queues it for loading; an existing unit of that name and type is
    /// queued as it is. A name with no valid type, or taken by a unit of
    /// another type, gives `None` and changes nothing.
    pub fn prepare_unit(&mut self, name: &String) -> (r: Option<u64>)
        requires
            old(self).wf(),
        ensures
            final(self).wf(),
            r is None <==> (spec_name_to_type(encode_utf8(name@)) == UnitType::UnitTypeInvalid
                || exists|i: int|
                0 <= i < old(self).db.names().len() && old(self).db.names()[i] == name@
                    && old(self).db.types()[i] != spec_name_to_type(encode_utf8(name@))),
            r is None ==> *final(self) == *old(self),
            r matches Some(id) ==> id < final(self).db.names().len() && final(self).db.names()[id as int]
                == name@ && final(self).queue@.contains(id) && final(self).queue@ == (if old(self).queue@.contains(id) {
                old(self).queue@
            } else {
                old(self).queue@.push(id)
            }),
            final(self).db.graph() == old(self).db.graph(),
            final(self).db.names().len() >= old(self).db.names().len(),
            forall|i: int| 0 <= i < old(self).db.names().len() ==> final(self).db.names()[i] == old(self).db.names()[i],
    {
        let t = unit_name_to_type(name.as_str());
        if t == UnitType::UnitTypeInvalid {
            return None;
        }
        match self.db.units_insert(name.clone(), t) {
            Ok(id) => {
                self.queue.push(id);
                proof {
                    if !self.queue@.contains(id) {
                        assert(self.queue@[self.queue@.len() - 1] == id);
                    }
                }
                Some(id)
            },
            Err(_) => None,
        }
    }

    /// The unit called `name`, created and queued where it does not exist
    /// yet; `None` exactly where it does not exist and its name has no
    /// valid type.
    pub fn push_dep_unit_into_load_queue(&mut self, name: &String) -> (r: Option<u64>)
        requires
            old(self).wf(),
        ensures
            final(self).wf(),
            r is None <==> resolves(old(self).db.names(), name@) == false,
            r matches Some(id) ==> id < final(self).db.names().len() && final(self).db.names()[id as int]
                == name@,
            r is None ==> *final(self) == *old(self),
            final(self).db.graph() == old(self).db.graph(),
            final(self).db.names().len() >= old(self).db.names().len(),
            forall|i: int| 0 <= i < old(self).db.names().len() ==> final(self).db.names()[i] == old(self).db.names()[i],
    {
        match self.db.units_get(name) {
            Some(id) => Some(id),
            None => {
                let r = self.prepare_unit(name);
                proof {
                    if r is None {
                        assert(spec_name_to_type(encode_utf8(name@)) == UnitType::UnitTypeInvalid);
                    }
                }
                r
            },
        }
    }

    /// Takes the dependency settings of unit `name`: each `(relation,
    /// names)` entry adds an edge from it to each named unit, which is
    /// created and queued where it does not exist yet. A name that is no
    /// unit and has no valid type is skipped, and an edge that would close an
    /// ordering cycle is left out. An unknown `name` changes nothing.
    pub fn insert_udconf(&mut self, name: &String, deps: &Vec<(UnitRelations, Vec<String>)>, mask: u8)
        requires
            old(self).wf(),
        ensures
            final(self).wf(),
            forall|i: int| 0 <= i < old(self).db.names().len() ==> final(self).db.names()[i] == old(self).db.names()[i],
            final(self).db.names().len() >= old(self).db.names().len(),
            !crate::unit_manager::known(old(self).db.names(), name@) ==> *final(self) == *old(self),
            forall|id: u64| #[trigger] crate::unit_manager::named(old(self).db.names(), id, name@) ==> forall|i: int, j: int|
                0 <= i < deps@.len() && 0 <= j < deps@[i].1@.len() && resolves(
                    old(self).db.names(),
                    #[trigger] deps@[i].1@[j]@,
                ) ==> linked(final(self).db, id, deps@[i].0, deps@[i].1@[j]@),
    {
        let id = match self.db.units_get(name) {
            Some(u) => u,
            None => {
                return;
            },
        };
        let ghost names0 = self.db.names();
        let ghost g0 = self.db.graph()@;
        proof {
            assert forall|x: u64| #[trigger] crate::unit_manager::named(names0, x, name@) implies x == id by {
                if x != id {
                    if x < id {
                        assert(names0[x as int] != names0[id as int]);
                    } else {
                        assert(names0[id as int] != names0[x as int]);
                    }
                }
            }
        }
        let mut i: usize = 0;
        while i < deps.len()
            invariant
                self.wf(),
                i <= deps@.len(),
                names0 == old(self).db.names(),
                id < names0.len() && names0[id as int] == name@,
                self.db.names().len() >= names0.len(),
                forall|k: int| 0 <= k < names0.len() ==> self.db.names()[k] == names0[k],
                forall|i2: int, j2: int|
                    0 <= i2 < i && 0 <= j2 < deps@[i2].1@.len() && resolves(names0, #[trigger] deps@[i2].1@[j2]@)
                        ==> linked(self.db, id, deps@[i2].0, deps@[i2].1@[j2]@),
            decreases deps@.len() - i,
        {
            let rel = deps[i].0;
            let list = &deps[i].1;
            let mut j: usize = 0;
            while j < list.len()
                invariant
                    self.wf(),
                    i < deps@.len(),
                    j <= list@.len(),
                    list@ == deps@[i as int].1@,
                    rel == deps@[i as int].0,
                    names0 == old(self).db.names(),
                    id < names0.len() && names0[id as int] == name@,
                    self.db.names().len() >= names0.len(),
                    forall|k: int| 0 <= k < names0.len() ==> self.db.names()[k] == names0[k],
                    forall|i2: int, j2: int|
                        0 <= i2 < deps@.len() && 0 <= j2 < deps@[i2].1@.len() && (i2 < i || (i2 == i && j2 < j))
                            && resolves(names0, #[trigger] deps@[i2].1@[j2]@) ==> linked(
                            self.db,
                            id,
                            deps@[i2].0,
                            deps@[i2].1@[j2]@,
                        ),
                decreases list@.len() - j,
            {
                let ghost db_before = self.db;
                let pushed = self.push_dep_unit_into_load_queue(&list[j]);
                let ghost db_mid = self.db;
                match pushed {
                    Some(other) => {
                        let res = self.db.dep_insert(id, rel, other, mask);
                        proof {
                            if res is Ok {
                                lemma_inserted_grows(db_mid.graph()@, self.db.graph()@, id, rel, other, mask);
                            } else {
                                assert(self.db.graph()@ == db_mid.graph()@);
                                assert(edges_grow(db_mid.graph()@, self.db.graph()@));
                            }
                            assert(db_mid.graph() == db_before.graph());
                            assert(linked(self.db, id, rel, list@[j as int]@)) by {
                                assert(crate::unit_manager::named(self.db.names(), other, list@[j as int]@));
                                if res is Err {
                                    lemma_cycle_grows(db_mid.graph()@, self.db.graph()@, id, rel, other);
                                }
                            }
                            lemma_linked_kept(db_before, self.db, id);
                        }
                    },
                    None => {
                        proof {
                            assert(!resolves(db_before.names(), list@[j as int]@));
                            assert(!resolves(names0, list@[j as int]@)) by {
                                if crate::unit_manager::known(names0, list@[j as int]@) {
                                    let k = choose|k: int| 0 <= k < names0.len() && names0[k] == list@[j as int]@;
                                    assert(db_before.names()[k] == list@[j as int]@);
                                }
                            }
                        }
                    },
                }
                proof {
                    assert forall|i2: int, j2: int|
                        0 <= i2 < deps@.len() && 0 <= j2 < deps@[i2].1@.len() && (i2 < i || (i2 == i && j2 < j + 1))
                            && resolves(names0, #[trigger] deps@[i2].1@[j2]@) implies linked(
                            self.db,
                            id,
                            deps@[i2].0,
                            deps@[i2].1@[j2]@,
                        ) by {
                        if !(i2 == i && j2 == j) {
                            assert(linked(db_before, id, deps@[i2].0, deps@[i2].1@[j2]@));
                        }
                    }
                }
                j = j + 1;
            }
            i = i + 1;
        }
        proof {
            assert forall|x: u64| #[trigger] crate::unit_manager::named(old(self).db.names(), x, name@) implies forall|i2: int, j2: int|
                0 <= i2 < deps@.len() && 0 <= j2 < deps@[i2].1@.len() && resolves(
                    old(self).db.names(),
                    #[trigger] deps@[i2].1@[j2]@,
                ) ==> linked(self.db, x, deps@[i2].0, deps@[i2].1@[j2]@) by {
                assert(x == id);
            }
        }
    }

    /// Finds or creates the unit called `name` and drains the load queue,
    /// returning the unit and the units to load, in the order they came
    /// (a newly created unit last). `None` exactly where there is no such
    /// unit and its name has no valid type.
    pub fn load_unit(&mut self, name: &String) -> (r: (Option<u64>, Vec<u64>))
        requires
            old(self).wf(),
        ensures
            final(self).wf(),
            r.0 is None <==> !resolves(old(self).db.names(), name@),
            r.0 matches Some(id) ==> id < final(self).db.names().len() && final(self).db.names()[id as int] == name@,
            crate::unit_manager::known(old(self).db.names(), name@) || r.0 is None ==> r.1@ == old(self).queue@,
            !crate::unit_manager::known(old(self).db.names(), name@) && r.0 is Some ==> r.1@ == (if old(
                self,
            ).queue@.contains(r.0->Some_0) {
                old(self).queue@
            } else {
                old(self).queue@.push(r.0->Some_0)
            }),
            final(self).queue@.len() == 0,
    {
        let unit = match self.db.units_get(name) {
            Some(id) => Some(id),
            None => {
                let r = self.prepare_unit(name);
                proof {
                    if r is None {
                        assert(spec_name_to_type(encode_utf8(name@)) == UnitType::UnitTypeInvalid);
                    }
                }
                r
            },
        };
        let batch = self.queue.dispatch();
        (unit, batch)
    }
}

} // verus!
