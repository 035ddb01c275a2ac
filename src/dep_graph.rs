use vstd::prelude::*;
use crate::relation::{
    UnitRelations, UnitRelationAtom, spec_inverse, spec_relation_has_atom,
    lemma_inverse_involutive,
};

verus! {

/// One directed, labelled edge between two units (by unit index), with the
/// mask of the sources that added it.
#[derive(Clone, Copy, Debug, PartialEq, Eq, Structural)]
pub struct DepEdge {
    pub src: u64,
    pub rel: UnitRelations,
    pub dst: u64,
    pub mask: u8,
}

/// Why an edge was refused.
#[derive(Clone, Copy, Debug, PartialEq, Eq, Structural)]
pub enum DepError {
    /// The edge would close a cycle among the ordering relations.
    OrderingCycle,
}

/// The relation multigraph between units. Every edge is stored together
/// with its inverse, and each (source, relation, target) appears once.
pub struct DepGraph {
    edges: Vec<DepEdge>,
}

/// Edge `i` is `s --r--> d`.
pub open spec fn key_at(es: Seq<DepEdge>, i: int, s: u64, r: UnitRelations, d: u64) -> bool {
    es[i].src == s && es[i].rel == r && es[i].dst == d
}

/// The graph holds an edge `s --r--> d`.
pub open spec fn has_edge(es: Seq<DepEdge>, s: u64, r: UnitRelations, d: u64) -> bool {
    exists|i: int| 0 <= i < es.len() && #[trigger] key_at(es, i, s, r, d)
}

/// The mask of the edge `s --r--> d` (meaningful where it exists).
pub open spec fn edge_mask(es: Seq<DepEdge>, s: u64, r: UnitRelations, d: u64) -> u8 {
    es[choose|i: int| 0 <= i < es.len() && #[trigger] key_at(es, i, s, r, d)].mask
}

/// No (source, relation, target) is stored twice.
pub open spec fn edges_unique(es: Seq<DepEdge>) -> bool {
    forall|i: int, j: int|
        0 <= i < es.len() && 0 <= j < es.len() && #[trigger] es[i].src == #[trigger] es[j].src
            && es[i].rel == es[j].rel && es[i].dst == es[j].dst ==> i == j
}

/// Each edge has its inverse, with the same mask.
pub open spec fn edges_paired(es: Seq<DepEdge>) -> bool {
    forall|i: int|
        0 <= i < es.len() ==> has_edge(es, #[trigger] es[i].dst, spec_inverse(es[i].rel), es[i].src)
            && edge_mask(es, es[i].dst, spec_inverse(es[i].rel), es[i].src) == es[i].mask
}

/// `p` follows `After` edges.
pub open spec fn after_path(es: Seq<DepEdge>, p: Seq<u64>) -> bool {
    p.len() >= 1 && forall|k: int|
        0 <= k < p.len() - 1 ==> has_edge(es, #[trigger] p[k], UnitRelations::UnitAfter, p[k + 1])
}

/// `b` can be reached from `a` by following `After` edges (`a` itself included).
pub open spec fn after_reach(es: Seq<DepEdge>, a: u64, b: u64) -> bool {
    exists|p: Seq<u64>| #[trigger] after_path(es, p) && p[0] == a && p.last() == b
}

/// Adding `s --r--> d` would close a cycle among the ordering relations.
/// Every `Before` edge is the inverse of an `After` edge, so `After` edges
/// alone decide it.
pub open spec fn would_cycle(es: Seq<DepEdge>, s: u64, r: UnitRelations, d: u64) -> bool {
    if r == UnitRelations::UnitAfter {
        after_reach(es, d, s)
    } else if r == UnitRelations::UnitBefore {
        after_reach(es, s, d)
    } else {
        false
    }
}

/// The mask that an edge has after `m` was added to it.
pub open spec fn merged_mask(es: Seq<DepEdge>, s: u64, r: UnitRelations, d: u64, m: u8) -> u8 {
    if has_edge(es, s, r, d) {
        edge_mask(es, s, r, d) | m
    } else {
        m
    }
}

/// `new` is `old` with `s --r--> d` and its inverse added or merged with mask `m`.
pub open spec fn inserted(
    old: Seq<DepEdge>,
    new: Seq<DepEdge>,
    s: u64,
    r: UnitRelations,
    d: u64,
    m: u8,
) -> bool {
    &&& has_edge(new, s, r, d)
    &&& edge_mask(new, s, r, d) == merged_mask(old, s, r, d, m)
    &&& has_edge(new, d, spec_inverse(r), s)
    &&& edge_mask(new, d, spec_inverse(r), s) == merged_mask(old, s, r, d, m)
    &&& others_unchanged(old, new, s, r, d)
}

/// Every edge other than `s --r--> d` and its inverse is as it was.
pub open spec fn others_unchanged(
    old: Seq<DepEdge>,
    new: Seq<DepEdge>,
    s: u64,
    r: UnitRelations,
    d: u64,
) -> bool {
    forall|s2: u64, r2: UnitRelations, d2: u64|
        !(s2 == s && r2 == r && d2 == d) && !(s2 == d && r2 == spec_inverse(r) && d2 == s)
            ==> unchanged_at(old, new, s2, r2, d2)
}

/// The edge `s --r--> d` exists in `new` as in `old`, with the same mask.
pub open spec fn unchanged_at(old: Seq<DepEdge>, new: Seq<DepEdge>, s: u64, r: UnitRelations, d: u64) -> bool {
    &&& has_edge(new, s, r, d) == has_edge(old, s, r, d)
    &&& has_edge(old, s, r, d) ==> edge_mask(new, s, r, d) == edge_mask(old, s, r, d)
}

/// The targets of the edges `src --r--> _`.
pub open spec fn edge_targets(es: Seq<DepEdge>, src: u64, r: UnitRelations) -> Set<u64> {
    Set::new(|d: u64| has_edge(es, src, r, d))
}

/// Edge `i` goes from `src` to `d` by a relation carrying atom `a`.
pub open spec fn atom_edge(es: Seq<DepEdge>, i: int, src: u64, a: UnitRelationAtom, d: u64) -> bool {
    es[i].src == src && es[i].dst == d && spec_relation_has_atom(es[i].rel, a)
}

/// The targets of `src`'s edges that carry atom `a`.
pub open spec fn atom_target(es: Seq<DepEdge>, src: u64, a: UnitRelationAtom, d: u64) -> bool {
    exists|r: UnitRelations| spec_relation_has_atom(r, a) && #[trigger] has_edge(es, src, r, d)
}

proof fn lemma_mask_at(es: Seq<DepEdge>, i: int)
    requires
        edges_unique(es),
        0 <= i < es.len(),
    ensures
        has_edge(es, es[i].src, es[i].rel, es[i].dst),
        edge_mask(es, es[i].src, es[i].rel, es[i].dst) == es[i].mask,
{
    assert(key_at(es, i, es[i].src, es[i].rel, es[i].dst));
    let j = choose|j: int| 0 <= j < es.len() && #[trigger] key_at(es, j, es[i].src, es[i].rel, es[i].dst);
    assert(es[j].src == es[i].src);
}

proof fn lemma_path_extend(es: Seq<DepEdge>, a: u64, i: int)
    requires
        0 <= i < es.len(),
        es[i].rel == UnitRelations::UnitAfter,
        after_reach(es, a, es[i].src),
    ensures
        after_reach(es, a, es[i].dst),
{
    let p = choose|p: Seq<u64>| #[trigger] after_path(es, p) && p[0] == a && p.last() == es[i].src;
    let q = p.push(es[i].dst);
    assert(key_at(es, i, es[i].src, UnitRelations::UnitAfter, es[i].dst));
    assert forall|k: int| 0 <= k < q.len() - 1 implies has_edge(
        es,
        #[trigger] q[k],
        UnitRelations::UnitAfter,
        q[k + 1],
    ) by {
        if k < p.len() - 1 {
            assert(q[k] == p[k] && q[k + 1] == p[k + 1]);
        } else {
            assert(q[k] == es[i].src && q[k + 1] == es[i].dst);
        }
    }
    assert(after_path(es, q));
    assert(q[0] == a && q.last() == es[i].dst);
}

proof fn lemma_closed_contains_path(es: Seq<DepEdge>, reach: Seq<u64>, p: Seq<u64>, k: int)
    requires
        after_path(es, p),
        reach.contains(p[0]),
        0 <= k < p.len(),
        forall|i: int|
            0 <= i < es.len() && es[i].rel == UnitRelations::UnitAfter && reach.contains(
                #[trigger] es[i].src,
            ) ==> reach.contains(es[i].dst),
    ensures
        reach.contains(p[k]),
    decreases k,
{
    if k > 0 {
        lemma_closed_contains_path(es, reach, p, k - 1);
        assert(has_edge(es, p[k - 1], UnitRelations::UnitAfter, p[k]));
        let i = choose|i: int| 0 <= i < es.len() && #[trigger] key_at(es, i, p[k - 1], UnitRelations::UnitAfter, p[k]);
        assert(es[i].src == p[k - 1]);
    }
}

/// `p` follows edges whose relation carries atom `a`.
pub open spec fn atom_path(es: Seq<DepEdge>, a: UnitRelationAtom, p: Seq<u64>) -> bool {
    p.len() >= 1 && forall|k: int|
        0 <= k < p.len() - 1 ==> atom_target(es, #[trigger] p[k], a, p[k + 1])
}

/// `y` can be reached from `x` along edges carrying atom `a` (`x` itself included).
pub open spec fn atom_reach(es: Seq<DepEdge>, a: UnitRelationAtom, x: u64, y: u64) -> bool {
    exists|p: Seq<u64>| #[trigger] atom_path(es, a, p) && p[0] == x && p.last() == y
}

proof fn lemma_atom_path_extend(es: Seq<DepEdge>, a: UnitRelationAtom, x: u64, i: int)
    requires
        0 <= i < es.len(),
        spec_relation_has_atom(es[i].rel, a),
        atom_reach(es, a, x, es[i].src),
    ensures
        atom_reach(es, a, x, es[i].dst),
{
    let p = choose|p: Seq<u64>| #[trigger] atom_path(es, a, p) && p[0] == x && p.last() == es[i].src;
    let q = p.push(es[i].dst);
    assert(key_at(es, i, es[i].src, es[i].rel, es[i].dst));
    assert(has_edge(es, es[i].src, es[i].rel, es[i].dst));
    assert(atom_target(es, es[i].src, a, es[i].dst));
    assert forall|k: int| 0 <= k < q.len() - 1 implies atom_target(es, #[trigger] q[k], a, q[k + 1]) by {
        if k < p.len() - 1 {
            assert(q[k] == p[k] && q[k + 1] == p[k + 1]);
        } else {
            assert(q[k] == es[i].src && q[k + 1] == es[i].dst);
        }
    }
    assert(atom_path(es, a, q));
    assert(q[0] == x && q.last() == es[i].dst);
}

proof fn lemma_closed_contains_atom_path(
    es: Seq<DepEdge>,
    a: UnitRelationAtom,
    reach: Seq<u64>,
    p: Seq<u64>,
    k: int,
)
    requires
        atom_path(es, a, p),
        reach.contains(p[0]),
        0 <= k < p.len(),
        forall|i: int|
            0 <= i < es.len() && spec_relation_has_atom(es[i].rel, a) && reach.contains(
                #[trigger] es[i].src,
            ) ==> reach.contains(es[i].dst),
    ensures
        reach.contains(p[k]),
    decreases k,
{
    if k > 0 {
        lemma_closed_contains_atom_path(es, a, reach, p, k - 1);
        assert(atom_target(es, p[k - 1], a, p[k]));
        let r = choose|r: UnitRelations| spec_relation_has_atom(r, a) && #[trigger] has_edge(es, p[k - 1], r, p[k]);
        let i = choose|i: int| 0 <= i < es.len() && #[trigger] key_at(es, i, p[k - 1], r, p[k]);
        assert(es[i].src == p[k - 1]);
    }
}

/// How many entries are false.
pub open spec fn count_false(s: Seq<bool>) -> nat
    decreases s.len(),
{
    if s.len() == 0 {
        0
    } else {
        count_false(s.drop_last()) + if s.last() {
            0nat
        } else {
            1nat
        }
    }
}

proof fn lemma_count_false_set(s: Seq<bool>, i: int)
    requires
        0 <= i < s.len(),
        !s[i],
    ensures
        count_false(s.update(i, true)) + 1 == count_false(s),
    decreases s.len(),
{
    if i < s.len() - 1 {
        assert(s.update(i, true).drop_last() =~= s.drop_last().update(i, true));
        lemma_count_false_set(s.drop_last(), i);
    } else {
        assert(s.update(i, true).drop_last() =~= s.drop_last());
    }
}

fn vec_contains(v: &Vec<u64>, x: u64) -> (r: bool)
    ensures
        r == v@.contains(x),
{
    let mut i: usize = 0;
    while i < v.len()
        invariant
            0 <= i <= v.len(),
            forall|k: int| 0 <= k < i ==> v@[k] != x,
        decreases v.len() - i,
    {
        if v[i] == x {
            return true;
        }
        i = i + 1;
    }
    false
}

impl View for DepGraph {
    type V = Seq<DepEdge>;

    closed spec fn view(&self) -> Seq<DepEdge> {
        self.edges@
    }
}

impl DepGraph {
    /// Every edge is stored once and together with its inverse of equal mask.
    pub open spec fn wf(&self) -> bool {
        edges_unique(self@) && edges_paired(self@)
    }

    /// An empty graph.
    pub fn new() -> (g: DepGraph)
        ensures
            g.wf(),
            g@.len() == 0,
    {
        DepGraph { edges: Vec::new() }
    }

    /// Number of stored edges, inverses included.
    pub fn len(&self) -> (n: usize)
        ensures
            n == self@.len(),
    {
        self.edges.len()
    }

    /// The edge stored at position `i`.
    pub fn edge(&self, i: usize) -> (e: DepEdge)
        requires
            i < self@.len(),
        ensures
            e == self@[i as int],
    {
        self.edges[i]
    }

    fn find(&self, s: u64, r: UnitRelations, d: u64) -> (res: Option<usize>)
        ensures
            match res {
                Some(i) => i < self@.len() && key_at(self@, i as int, s, r, d),
                None => !has_edge(self@, s, r, d),
            },
    {
        let mut i: usize = 0;
        while i < self.edges.len()
            invariant
                0 <= i <= self@.len(),
                forall|k: int| 0 <= k < i ==> !(#[trigger] key_at(self@, k, s, r, d)),
            decreases self@.len() - i,
        {
            let e = self.edges[i];
            if e.src == s && e.rel == r && e.dst == d {
                return Some(i);
            }
            i = i + 1;
        }
        None
    }

    /// Whether `to` can be reached from `from` along `After` edges.
    fn after_reachable(&self, from: u64, to: u64) -> (res: bool)
        ensures
            res == after_reach(self@, from, to),
    {
        let ghost es = self@;
        let n = self.edges.len();
        let mut reach: Vec<u64> = Vec::new();
        reach.push(from);
        proof {
            let p = seq![from];
            assert(after_path(es, p));
            assert(p[0] == from && p.last() == from);
        }
        let mut used: Vec<bool> = Vec::new();
        let mut unused: usize = 0;
        while used.len() < n
            invariant
                used.len() <= n,
                n == es.len(),
                unused == count_false(used@),
                unused <= used.len(),
                forall|k: int| 0 <= k < used.len() ==> !used@[k],
            decreases n - used.len(),
        {
            proof {
                assert(used@.push(false).drop_last() =~= used@);
            }
            used.push(false);
            unused = unused + 1;
        }
        loop
            invariant
                used.len() == n,
                n == es.len(),
                es == self@,
                unused == count_false(used@),
                reach@.contains(from),
                forall|k: int| 0 <= k < reach.len() ==> after_reach(es, from, #[trigger] reach@[k]),
                forall|i: int|
                    0 <= i < n && #[trigger] used@[i] ==> es[i].rel == UnitRelations::UnitAfter
                        && reach@.contains(es[i].src) && reach@.contains(es[i].dst),
            ensures
                used.len() == n,
                reach@.contains(from),
                forall|k: int| 0 <= k < reach.len() ==> after_reach(es, from, #[trigger] reach@[k]),
                forall|j: int|
                    0 <= j < n && es[j].rel == UnitRelations::UnitAfter && reach@.contains(
                        #[trigger] es[j].src,
                    ) ==> used@[j] && reach@.contains(es[j].dst),
            decreases unused,
        {
            let ghost start_unused = unused;
            let mut changed = false;
            let mut i: usize = 0;
            while i < n
                invariant
                    0 <= i <= n,
                    used.len() == n,
                    n == es.len(),
                    es == self@,
                    unused == count_false(used@),
                    reach@.contains(from),
                    forall|k: int|
                        0 <= k < reach.len() ==> after_reach(es, from, #[trigger] reach@[k]),
                    forall|j: int|
                        0 <= j < n && #[trigger] used@[j] ==> es[j].rel == UnitRelations::UnitAfter
                            && reach@.contains(es[j].src) && reach@.contains(es[j].dst),
                    unused <= start_unused,
                    changed ==> unused < start_unused,
                    !changed ==> forall|j: int|
                        0 <= j < i && es[j].rel == UnitRelations::UnitAfter && reach@.contains(
                            #[trigger] es[j].src,
                        ) ==> used@[j],
                decreases n - i,
            {
                let e = self.edges[i];
                if !used[i] && e.rel == UnitRelations::UnitAfter && vec_contains(&reach, e.src) {
                    proof {
                        lemma_count_false_set(used@, i as int);
                    }
                    used.set(i, true);
                    unused = unused - 1;
                    if !vec_contains(&reach, e.dst) {
                        proof {
                            let k = choose|k: int| 0 <= k < reach.len() && reach@[k] == e.src;
                            assert(after_reach(es, from, reach@[k]));
                            lemma_path_extend(es, from, i as int);
                        }
                        let ghost old_reach = reach@;
                        reach.push(e.dst);
                        proof {
                            assert(reach@ == old_reach.push(e.dst));
                            assert forall|x: u64| old_reach.contains(x) implies reach@.contains(
                                x,
                            ) by {
                                let k = choose|k: int| 0 <= k < old_reach.len() && old_reach[k] == x;
                                assert(reach@[k] == x);
                            }
                            assert(reach@[reach.len() - 1] == e.dst);
                            assert forall|k: int| 0 <= k < reach.len() implies after_reach(
                                es,
                                from,
                                #[trigger] reach@[k],
                            ) by {
                                if k < old_reach.len() {
                                    assert(reach@[k] == old_reach[k]);
                                }
                            }
                        }
                    }
                    changed = true;
                }
                i = i + 1;
            }
            if !changed {
                break;
            }
        }
        proof {
            assert forall|j: int|
                0 <= j < es.len() && es[j].rel == UnitRelations::UnitAfter && reach@.contains(
                    #[trigger] es[j].src,
                ) implies reach@.contains(es[j].dst) by {
            }
            if after_reach(es, from, to) {
                let p = choose|p: Seq<u64>| #[trigger] after_path(es, p) && p[0] == from && p.last() == to;
                lemma_closed_contains_path(es, reach@, p, p.len() - 1);
            }
        }
        let res = vec_contains(&reach, to);
        proof {
            if res {
                let k = choose|k: int| 0 <= k < reach.len() && reach@[k] == to;
                assert(after_reach(es, from, reach@[k]));
            }
        }
        res
    }

    /// The units reachable from `from` along edges whose relation carries
    /// `atom`, `from` included, each once or more.
    pub fn atom_closure(&self, from: u64, atom: UnitRelationAtom) -> (res: Vec<u64>)
        ensures
            forall|d: u64| res@.contains(d) <==> atom_reach(self@, atom, from, d),
    {
        let ghost es = self@;
        let n = self.edges.len();
        let mut reach: Vec<u64> = Vec::new();
        reach.push(from);
        proof {
            let p = seq![from];
            assert(atom_path(es, atom, p));
            assert(p[0] == from && p.last() == from);
        }
        let mut used: Vec<bool> = Vec::new();
        let mut unused: usize = 0;
        while used.len() < n
            invariant
                used.len() <= n,
                n == es.len(),
                unused == count_false(used@),
                unused <= used.len(),
                forall|k: int| 0 <= k < used.len() ==> !used@[k],
            decreases n - used.len(),
        {
            proof {
                assert(used@.push(false).drop_last() =~= used@);
            }
            used.push(false);
            unused = unused + 1;
        }
        loop
            invariant
                used.len() == n,
                n == es.len(),
                es == self@,
                unused == count_false(used@),
                reach@.contains(from),
                forall|k: int| 0 <= k < reach.len() ==> atom_reach(es, atom, from, #[trigger] reach@[k]),
                forall|i: int|
                    0 <= i < n && #[trigger] used@[i] ==> spec_relation_has_atom(es[i].rel, atom)
                        && reach@.contains(es[i].src) && reach@.contains(es[i].dst),
            ensures
                used.len() == n,
                reach@.contains(from),
                forall|k: int| 0 <= k < reach.len() ==> atom_reach(es, atom, from, #[trigger] reach@[k]),
                forall|j: int|
                    0 <= j < n && spec_relation_has_atom(es[j].rel, atom) && reach@.contains(
                        #[trigger] es[j].src,
                    ) ==> used@[j] && reach@.contains(es[j].dst),
            decreases unused,
        {
            let ghost start_unused = unused;
            let mut changed = false;
            let mut i: usize = 0;
            while i < n
                invariant
                    0 <= i <= n,
                    used.len() == n,
                    n == es.len(),
                    es == self@,
                    unused == count_false(used@),
                    reach@.contains(from),
                    forall|k: int|
                        0 <= k < reach.len() ==> atom_reach(es, atom, from, #[trigger] reach@[k]),
                    forall|j: int|
                        0 <= j < n && #[trigger] used@[j] ==> spec_relation_has_atom(es[j].rel, atom)
                            && reach@.contains(es[j].src) && reach@.contains(es[j].dst),
                    unused <= start_unused,
                    changed ==> unused < start_unused,
                    !changed ==> forall|j: int|
                        0 <= j < i && spec_relation_has_atom(es[j].rel, atom) && reach@.contains(
                            #[trigger] es[j].src,
                        ) ==> used@[j],
                decreases n - i,
            {
                let e = self.edges[i];
                if !used[i] && e.rel.has_atom(atom) && vec_contains(&reach, e.src) {
                    proof {
                        lemma_count_false_set(used@, i as int);
                    }
                    used.set(i, true);
                    unused = unused - 1;
                    if !vec_contains(&reach, e.dst) {
                        proof {
                            let k = choose|k: int| 0 <= k < reach.len() && reach@[k] == e.src;
                            assert(atom_reach(es, atom, from, reach@[k]));
                            lemma_atom_path_extend(es, atom, from, i as int);
                        }
                        let ghost old_reach = reach@;
                        reach.push(e.dst);
                        proof {
                            assert(reach@ == old_reach.push(e.dst));
                            assert forall|x: u64| old_reach.contains(x) implies reach@.contains(
                                x,
                            ) by {
                                let k = choose|k: int| 0 <= k < old_reach.len() && old_reach[k] == x;
                                assert(reach@[k] == x);
                            }
                            assert(reach@[reach.len() - 1] == e.dst);
                            assert forall|k: int| 0 <= k < reach.len() implies atom_reach(
                                es,
                                atom,
                                from,
                                #[trigger] reach@[k],
                            ) by {
                                if k < old_reach.len() {
                                    assert(reach@[k] == old_reach[k]);
                                }
                            }
                        }
                    }
                    changed = true;
                }
                i = i + 1;
            }
            if !changed {
                break;
            }
        }
        proof {
            assert forall|j: int|
                0 <= j < es.len() && spec_relation_has_atom(es[j].rel, atom) && reach@.contains(
                    #[trigger] es[j].src,
                ) implies reach@.contains(es[j].dst) by {
            }
            assert forall|d: u64| atom_reach(es, atom, from, d) implies reach@.contains(d) by {
                let p = choose|p: Seq<u64>| #[trigger] atom_path(es, atom, p) && p[0] == from && p.last() == d;
                lemma_closed_contains_atom_path(es, atom, reach@, p, p.len() - 1);
            }
        }
        proof {
            assert forall|d: u64| reach@.contains(d) implies atom_reach(es, atom, from, d) by {
                let k = choose|k: int| 0 <= k < reach.len() && reach@[k] == d;
                assert(atom_reach(es, atom, from, reach@[k]));
            }
        }
        reach
    }

    /// Inserts `src --rel--> dst` together with its inverse. Where the edge
    /// exists already its mask (and its inverse's) becomes the union with
    /// `mask`. An `After`/`Before` edge that would close an ordering cycle
    /// is refused and nothing changes.
    pub fn dep_insert(&mut self, src: u64, rel: UnitRelations, dst: u64, mask: u8) -> (r: Result<
        (),
        DepError,
    >)
        requires
            old(self).wf(),
        ensures
            final(self).wf(),
            r.is_err() <==> would_cycle(old(self)@, src, rel, dst),
            r.is_err() ==> final(self)@ == old(self)@,
            r.is_ok() ==> inserted(old(self)@, final(self)@, src, rel, dst, mask),
    {
        if rel == UnitRelations::UnitAfter {
            if self.after_reachable(dst, src) {
                return Err(DepError::OrderingCycle);
            }
        } else if rel == UnitRelations::UnitBefore {
            if self.after_reachable(src, dst) {
                return Err(DepError::OrderingCycle);
            }
        }
        let inv = rel.inverse();
        let ghost es = self@;
        proof {
            lemma_inverse_involutive(rel);
        }
        match self.find(src, rel, dst) {
            Some(k) => {
                proof {
                    lemma_mask_at(es, k as int);
                    assert(has_edge(es, dst, inv, src));
                }
                let k2 = match self.find(dst, inv, src) {
                    Some(k2) => k2,
                    None => {
                        proof {
                            assert(false);
                        }
                        k
                    }
                };
                proof {
                    lemma_mask_at(es, k2 as int);
                }
                let e = self.edges[k];
                let m = e.mask | mask;
                self.edges.set(k, DepEdge { src, rel, dst, mask: m });
                self.edges.set(k2, DepEdge { src: dst, rel: inv, dst: src, mask: m });
                proof {
                    assert(self@ == es.update(k as int, DepEdge { mask: es[k as int].mask | mask, ..es[k as int] }).update(
                        k2 as int,
                        DepEdge { mask: es[k as int].mask | mask, ..es[k2 as int] },
                    ));
                    self.lemma_after_update(es, k as int, k2 as int, mask);
                }
            }
            None => {
                proof {
                    if has_edge(es, dst, inv, src) {
                        let j = choose|j: int| 0 <= j < es.len() && #[trigger] key_at(es, j, dst, inv, src);
                        assert(has_edge(es, es[j].dst, spec_inverse(es[j].rel), es[j].src));
                    }
                }
                self.edges.push(DepEdge { src, rel, dst, mask });
                if !(src == dst && inv == rel) {
                    self.edges.push(DepEdge { src: dst, rel: inv, dst: src, mask });
                }
                proof {
                    lemma_inverse_involutive(rel);
                    self.lemma_after_push(es, src, rel, dst, mask);
                }
            }
        }
        Ok(())
    }

    proof fn lemma_after_update(&self, es: Seq<DepEdge>, k: int, k2: int, mask: u8)
        requires
            edges_unique(es),
            edges_paired(es),
            0 <= k < es.len(),
            0 <= k2 < es.len(),
            key_at(es, k2, es[k].dst, spec_inverse(es[k].rel), es[k].src),
            self@ == es.update(k, DepEdge { mask: es[k].mask | mask, ..es[k] }).update(
                k2,
                DepEdge { mask: es[k].mask | mask, ..es[k2] },
            ),
        ensures
            self.wf(),
            inserted(es, self@, es[k].src, es[k].rel, es[k].dst, mask),
    {
        let new = self@;
        let m = es[k].mask | mask;
        lemma_mask_at(es, k);
        lemma_inverse_involutive(es[k].rel);
        assert(edges_unique(new)) by {
            assert forall|i: int, j: int|
                0 <= i < new.len() && 0 <= j < new.len() && #[trigger] new[i].src
                    == #[trigger] new[j].src && new[i].rel == new[j].rel && new[i].dst
                    == new[j].dst implies i == j by {
                assert(es[i].src == es[j].src);
            }
        }
        assert forall|i: int| 0 <= i < new.len() implies has_edge(
            new,
            #[trigger] new[i].dst,
            spec_inverse(new[i].rel),
            new[i].src,
        ) && edge_mask(new, new[i].dst, spec_inverse(new[i].rel), new[i].src) == new[i].mask by {
            lemma_inverse_involutive(es[i].rel);
            assert(has_edge(es, es[i].dst, spec_inverse(es[i].rel), es[i].src));
            let j = choose|j: int|
                0 <= j < es.len() && #[trigger] key_at(
                    es,
                    j,
                    es[i].dst,
                    spec_inverse(es[i].rel),
                    es[i].src,
                );
            lemma_mask_at(es, j);
            lemma_mask_at(new, j);
            if i == k {
                assert(es[j].src == es[k2].src);
            } else if i == k2 {
                assert(es[j].src == es[k].src);
            } else {
                if j == k {
                    assert(es[i].src == es[k2].src);
                }
                if j == k2 {
                    assert(es[i].src == es[k].src);
                }
            }
        }
        assert(edges_paired(new));
        assert(inserted(es, new, es[k].src, es[k].rel, es[k].dst, mask)) by {
            lemma_mask_at(new, k);
            lemma_mask_at(new, k2);
            assert(new[k].mask == m && new[k2].mask == m);
            assert(key_at(new, k, es[k].src, es[k].rel, es[k].dst));
            assert(key_at(new, k2, es[k].dst, spec_inverse(es[k].rel), es[k].src));
            assert(merged_mask(es, es[k].src, es[k].rel, es[k].dst, mask) == m);
            assert(edge_mask(new, es[k].src, es[k].rel, es[k].dst) == m);
            assert(edge_mask(new, es[k].dst, spec_inverse(es[k].rel), es[k].src) == m);
            assert forall|s2: u64, r2: UnitRelations, d2: u64|
                !(s2 == es[k].src && r2 == es[k].rel && d2 == es[k].dst) && !(s2 == es[k].dst
                    && r2 == spec_inverse(es[k].rel) && d2 == es[k].src) implies #[trigger] unchanged_at(
                es,
                new,
                s2,
                r2,
                d2,
            ) by {
                if has_edge(es, s2, r2, d2) {
                    let i = choose|i: int| 0 <= i < es.len() && #[trigger] key_at(es, i, s2, r2, d2);
                    lemma_mask_at(es, i);
                    lemma_mask_at(new, i);
                }
                if has_edge(new, s2, r2, d2) {
                    let i = choose|i: int| 0 <= i < new.len() && #[trigger] key_at(new, i, s2, r2, d2);
                    assert(key_at(es, i, s2, r2, d2));
                }
            }
        }
    }

    proof fn lemma_after_push(&self, es: Seq<DepEdge>, src: u64, rel: UnitRelations, dst: u64, mask: u8)
        requires
            edges_unique(es),
            edges_paired(es),
            !has_edge(es, src, rel, dst),
            !has_edge(es, dst, spec_inverse(rel), src),
            self@ == (if src == dst && spec_inverse(rel) == rel {
                es.push(DepEdge { src, rel, dst, mask })
            } else {
                es.push(DepEdge { src, rel, dst, mask }).push(
                    DepEdge { src: dst, rel: spec_inverse(rel), dst: src, mask },
                )
            }),
        ensures
            self.wf(),
            inserted(es, self@, src, rel, dst, mask),
    {
        let new = self@;
        let n = es.len() as int;
        lemma_inverse_involutive(rel);
        assert forall|i: int| 0 <= i < n implies #[trigger] new[i] == es[i] by {}
        assert(edges_unique(new)) by {
            assert forall|i: int, j: int|
                0 <= i < new.len() && 0 <= j < new.len() && #[trigger] new[i].src
                    == #[trigger] new[j].src && new[i].rel == new[j].rel && new[i].dst
                    == new[j].dst implies i == j by {
                if i < n && j >= n {
                    assert(key_at(es, i, new[j].src, new[j].rel, new[j].dst));
                } else if j < n && i >= n {
                    assert(key_at(es, j, new[i].src, new[i].rel, new[i].dst));
                } else if i < n && j < n {
                    assert(es[i].src == es[j].src);
                }
            }
        }
        lemma_mask_at(new, n);
        assert(new[n] == DepEdge { src, rel, dst, mask });
        assert(key_at(new, n, src, rel, dst));
        if !(src == dst && spec_inverse(rel) == rel) {
            lemma_mask_at(new, n + 1);
            assert(key_at(new, n + 1, dst, spec_inverse(rel), src));
        } else {
            assert(key_at(new, n, dst, spec_inverse(rel), src));
        }
        assert(merged_mask(es, src, rel, dst, mask) == mask);
        assert(edge_mask(new, src, rel, dst) == mask);
        assert(edge_mask(new, dst, spec_inverse(rel), src) == mask);
        assert forall|i: int| 0 <= i < new.len() implies has_edge(
            new,
            #[trigger] new[i].dst,
            spec_inverse(new[i].rel),
            new[i].src,
        ) && edge_mask(new, new[i].dst, spec_inverse(new[i].rel), new[i].src) == new[i].mask by {
            lemma_inverse_involutive(new[i].rel);
            if i < n {
                assert(has_edge(es, es[i].dst, spec_inverse(es[i].rel), es[i].src));
                let j = choose|j: int|
                    0 <= j < es.len() && #[trigger] key_at(
                        es,
                        j,
                        es[i].dst,
                        spec_inverse(es[i].rel),
                        es[i].src,
                    );
                lemma_mask_at(es, j);
                lemma_mask_at(new, j);
                assert(new[j] == es[j]);
            }
        }
        assert(edges_paired(new));
        assert forall|s2: u64, r2: UnitRelations, d2: u64|
            !(s2 == src && r2 == rel && d2 == dst) && !(s2 == dst && r2 == spec_inverse(rel) && d2
                == src) implies #[trigger] unchanged_at(es, new, s2, r2, d2) by {
            if has_edge(es, s2, r2, d2) {
                let i = choose|i: int| 0 <= i < es.len() && #[trigger] key_at(es, i, s2, r2, d2);
                lemma_mask_at(es, i);
                lemma_mask_at(new, i);
                assert(new[i] == es[i]);
            }
            if has_edge(new, s2, r2, d2) {
                let i = choose|i: int| 0 <= i < new.len() && #[trigger] key_at(new, i, s2, r2, d2);
                if i < n {
                    assert(key_at(es, i, s2, r2, d2));
                }
            }
        }
    }

    /// The targets of the edges `src --rel--> _`, each once.
    pub fn dep_gets(&self, src: u64, rel: UnitRelations) -> (r: Vec<u64>)
        requires
            self.wf(),
        ensures
            r@.to_set() == edge_targets(self@, src, rel),
            r@.no_duplicates(),
    {
        let ghost es = self@;
        let mut out: Vec<u64> = Vec::new();
        let mut i: usize = 0;
        while i < self.edges.len()
            invariant
                0 <= i <= es.len(),
                es == self@,
                edges_unique(es),
                out@.no_duplicates(),
                forall|d: u64|
                    out@.contains(d) <==> exists|j: int|
                        0 <= j < i && #[trigger] key_at(es, j, src, rel, d),
            decreases es.len() - i,
        {
            let e = self.edges[i];
            if e.src == src && e.rel == rel {
                proof {
                    if out@.contains(e.dst) {
                        let j = choose|j: int| 0 <= j < i && #[trigger] key_at(es, j, src, rel, e.dst);
                        assert(es[j].src == es[i as int].src);
                    }
                }
                let ghost prev = out@;
                assert(forall|d: u64|
                    prev.contains(d) <==> exists|j: int|
                        0 <= j < i && #[trigger] key_at(es, j, src, rel, d));
                out.push(e.dst);
                proof {
                    assert forall|d: u64|
                        out@.contains(d) <==> exists|j: int|
                            0 <= j < i + 1 && #[trigger] key_at(es, j, src, rel, d) by {
                        if out@.contains(d) {
                            let k = choose|k: int| 0 <= k < out@.len() && out@[k] == d;
                            if k < prev.len() {
                                assert(prev[k] == d);
                                assert(prev.contains(d));
                            } else {
                                assert(key_at(es, i as int, src, rel, d));
                            }
                        }
                        if exists|j: int| 0 <= j < i + 1 && #[trigger] key_at(es, j, src, rel, d) {
                            let j = choose|j: int| 0 <= j < i + 1 && #[trigger] key_at(es, j, src, rel, d);
                            if j < i {
                                assert(prev.contains(d));
                                let k = choose|k: int| 0 <= k < prev.len() && prev[k] == d;
                                assert(out@[k] == d);
                            } else {
                                assert(out@[out@.len() - 1] == d);
                            }
                        }
                    }
                }
            }
            i = i + 1;
        }
        proof {
            assert(out@.to_set() =~= edge_targets(es, src, rel));
        }
        out
    }

    /// The targets of `src`'s edges whose relation carries atom `atom`.
    pub fn dep_gets_atom(&self, src: u64, atom: UnitRelationAtom) -> (r: Vec<u64>)
        ensures
            forall|d: u64| r@.contains(d) <==> atom_target(self@, src, atom, d),
            r@.no_duplicates(),
    {
        let ghost es = self@;
        let mut out: Vec<u64> = Vec::new();
        let mut i: usize = 0;
        while i < self.edges.len()
            invariant
                0 <= i <= es.len(),
                es == self@,
                out@.no_duplicates(),
                forall|d: u64|
                    out@.contains(d) <==> exists|j: int|
                        0 <= j < i && #[trigger] atom_edge(es, j, src, atom, d),
            decreases es.len() - i,
        {
            let e = self.edges[i];
            if e.src == src && e.rel.has_atom(atom) && !vec_contains(&out, e.dst) {
                let ghost prev = out@;
                assert(forall|d: u64|
                    prev.contains(d) <==> exists|j: int|
                        0 <= j < i && #[trigger] atom_edge(es, j, src, atom, d));
                out.push(e.dst);
                proof {
                    assert forall|d: u64|
                        out@.contains(d) <==> exists|j: int|
                            0 <= j < i + 1 && #[trigger] atom_edge(es, j, src, atom, d) by {
                        if out@.contains(d) {
                            let k = choose|k: int| 0 <= k < out@.len() && out@[k] == d;
                            if k < prev.len() {
                                assert(prev[k] == d);
                                assert(prev.contains(d));
                            } else {
                                assert(atom_edge(es, i as int, src, atom, d));
                            }
                        }
                        if exists|j: int| 0 <= j < i + 1 && #[trigger] atom_edge(es, j, src, atom, d) {
                            let j = choose|j: int| 0 <= j < i + 1 && #[trigger] atom_edge(es, j, src, atom, d);
                            if j < i {
                                assert(prev.contains(d));
                                let k = choose|k: int| 0 <= k < prev.len() && prev[k] == d;
                                assert(out@[k] == d);
                            } else {
                                assert(out@[out@.len() - 1] == d);
                            }
                        }
                    }
                }
            } else {
                proof {
                    assert forall|d: u64|
                        out@.contains(d) <==> exists|j: int|
                            0 <= j < i + 1 && #[trigger] atom_edge(es, j, src, atom, d) by {
                        if exists|j: int| 0 <= j < i + 1 && #[trigger] atom_edge(es, j, src, atom, d) {
                            let j = choose|j: int| 0 <= j < i + 1 && #[trigger] atom_edge(es, j, src, atom, d);
                            if j == i {
                                assert(out@.contains(d));
                            }
                        }
                    }
                }
            }
            i = i + 1;
        }
        proof {
            assert forall|d: u64| out@.contains(d) <==> atom_target(es, src, atom, d) by {
                if out@.contains(d) {
                    let j = choose|j: int| 0 <= j < es.len() && #[trigger] atom_edge(es, j, src, atom, d);
                    assert(key_at(es, j, src, es[j].rel, d));
                    assert(has_edge(es, src, es[j].rel, d));
                }
                if atom_target(es, src, atom, d) {
                    let r = choose|r: UnitRelations| spec_relation_has_atom(r, atom) && #[trigger] has_edge(es, src, r, d);
                    let j = choose|j: int| 0 <= j < es.len() && #[trigger] key_at(es, j, src, r, d);
                    assert(atom_edge(es, j, src, atom, d));
                }
            }
        }
        out
    }

    /// Whether `src` has an edge to `dst` whose relation carries `atom`.
    pub fn dep_is_dep_atom_with(&self, src: u64, atom: UnitRelationAtom, dst: u64) -> (r: bool)
        ensures
            r == atom_target(self@, src, atom, dst),
    {
        let mut i: usize = 0;
        while i < self.edges.len()
            invariant
                0 <= i <= self@.len(),
                forall|j: int| 0 <= j < i ==> !#[trigger] atom_edge(self@, j, src, atom, dst),
            decreases self@.len() - i,
        {
            let e = self.edges[i];
            if e.src == src && e.dst == dst && e.rel.has_atom(atom) {
                proof {
                    assert(key_at(self@, i as int, src, e.rel, dst));
                    assert(has_edge(self@, src, e.rel, dst));
                    assert(spec_relation_has_atom(e.rel, atom));
                }
                return true;
            }
            i = i + 1;
        }
        proof {
            if atom_target(self@, src, atom, dst) {
                let r = choose|r: UnitRelations| spec_relation_has_atom(r, atom) && #[trigger] has_edge(self@, src, r, dst);
                let j = choose|j: int| 0 <= j < self@.len() && #[trigger] key_at(self@, j, src, r, dst);
                assert(atom_edge(self@, j, src, atom, dst));
            }
        }
        false
    }
}

/// Every edge of `g1` is an edge of `g2`.
pub open spec fn edges_grow(g1: Seq<DepEdge>, g2: Seq<DepEdge>) -> bool {
    forall|s: u64, r: UnitRelations, d: u64| #[trigger] has_edge(g1, s, r, d) ==> has_edge(g2, s, r, d)
}

/// An insertion keeps every edge.
pub proof fn lemma_inserted_grows(g1: Seq<DepEdge>, g2: Seq<DepEdge>, s: u64, r: UnitRelations, d: u64, m: u8)
    requires
        inserted(g1, g2, s, r, d, m),
    ensures
        edges_grow(g1, g2),
{
    assert forall|s2: u64, r2: UnitRelations, d2: u64| #[trigger] has_edge(g1, s2, r2, d2) implies has_edge(g2, s2, r2, d2) by {
        if !(s2 == s && r2 == r && d2 == d) && !(s2 == d && r2 == spec_inverse(r) && d2 == s) {
            assert(unchanged_at(g1, g2, s2, r2, d2));
        }
    }
}

/// Adding edges never removes an ordering cycle that an edge would close.
pub proof fn lemma_cycle_grows(g1: Seq<DepEdge>, g2: Seq<DepEdge>, s: u64, r: UnitRelations, d: u64)
    requires
        edges_grow(g1, g2),
        would_cycle(g1, s, r, d),
    ensures
        would_cycle(g2, s, r, d),
{
    let (a, b) = if r == UnitRelations::UnitAfter { (d, s) } else { (s, d) };
    let p = choose|p: Seq<u64>| #[trigger] after_path(g1, p) && p[0] == a && p.last() == b;
    assert forall|k: int| 0 <= k < p.len() - 1 implies has_edge(g2, #[trigger] p[k], UnitRelations::UnitAfter, p[k + 1]) by {
        assert(has_edge(g1, p[k], UnitRelations::UnitAfter, p[k + 1]));
    }
    assert(after_path(g2, p));
}

/// Every edge `a --r--> b` is matched by `b --inverse(r)--> a` carrying the
/// same mask.
pub proof fn lemma_edge_has_inverse(g: &DepGraph, a: u64, r: UnitRelations, b: u64)
    requires
        g.wf(),
        has_edge(g@, a, r, b),
    ensures
        has_edge(g@, b, spec_inverse(r), a),
        edge_mask(g@, b, spec_inverse(r), a) == edge_mask(g@, a, r, b),
{
    let es = g@;
    let i = choose|i: int| 0 <= i < es.len() && #[trigger] key_at(es, i, a, r, b);
    lemma_mask_at(es, i);
}

/// Once `a` is ordered after `b`, ordering `b` after `a` would close a cycle,
/// so `dep_insert` refuses it and leaves the graph as it was.
pub proof fn lemma_reverse_after_refused(g: &DepGraph, a: u64, b: u64)
    requires
        has_edge(g@, a, UnitRelations::UnitAfter, b),
    ensures
        would_cycle(g@, b, UnitRelations::UnitAfter, a),
{
    let p = seq![a, b];
    assert(p[0] == a);
    assert(after_path(g@, p));
    assert(p.last() == b);
}

} // verus!
