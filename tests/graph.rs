use sysmaster_core::dep_graph::{DepError, DepGraph};
use sysmaster_core::job::{entailed_jobs, JobKind, JobMode};
use sysmaster_core::relation::{
    UnitRelationAtom, UnitRelations, UNIT_DEPENDENCY_DEFAULT, UNIT_DEPENDENCY_FILE,
};

fn find_mask(g: &DepGraph, s: u64, r: UnitRelations, d: u64) -> Option<u8> {
    for i in 0..g.len() {
        let e = g.edge(i);
        if e.src == s && e.rel == r && e.dst == d {
            return Some(e.mask);
        }
    }
    None
}

#[test]
fn inverse_edge_carries_same_mask() {
    let mut g = DepGraph::new();
    assert!(g.dep_insert(1, UnitRelations::UnitRequires, 2, UNIT_DEPENDENCY_FILE).is_ok());
    assert_eq!(g.len(), 2);
    assert_eq!(find_mask(&g, 1, UnitRelations::UnitRequires, 2), Some(UNIT_DEPENDENCY_FILE));
    assert_eq!(find_mask(&g, 2, UnitRelations::UnitRequiredBy, 1), Some(UNIT_DEPENDENCY_FILE));
}

#[test]
fn duplicate_edge_merges_masks() {
    let mut g = DepGraph::new();
    assert!(g.dep_insert(1, UnitRelations::UnitWants, 2, UNIT_DEPENDENCY_FILE).is_ok());
    assert!(g.dep_insert(1, UnitRelations::UnitWants, 2, UNIT_DEPENDENCY_DEFAULT).is_ok());
    assert_eq!(g.len(), 2);
    assert_eq!(find_mask(&g, 1, UnitRelations::UnitWants, 2), Some(3));
    assert_eq!(find_mask(&g, 2, UnitRelations::UnitWantedBy, 1), Some(3));
}

#[test]
fn reverse_after_is_rejected_without_change() {
    let mut g = DepGraph::new();
    assert!(g.dep_insert(1, UnitRelations::UnitAfter, 2, UNIT_DEPENDENCY_FILE).is_ok());
    let before = g.len();
    assert_eq!(
        g.dep_insert(2, UnitRelations::UnitAfter, 1, UNIT_DEPENDENCY_FILE),
        Err(DepError::OrderingCycle)
    );
    assert_eq!(g.len(), before);
    assert_eq!(find_mask(&g, 2, UnitRelations::UnitAfter, 1), None);
}

#[test]
fn before_closing_a_cycle_is_rejected() {
    let mut g = DepGraph::new();
    assert!(g.dep_insert(1, UnitRelations::UnitAfter, 2, UNIT_DEPENDENCY_FILE).is_ok());
    assert_eq!(
        g.dep_insert(1, UnitRelations::UnitBefore, 2, UNIT_DEPENDENCY_FILE),
        Err(DepError::OrderingCycle)
    );
}

#[test]
fn transitive_ordering_cycle_is_rejected() {
    let mut g = DepGraph::new();
    assert!(g.dep_insert(1, UnitRelations::UnitAfter, 2, UNIT_DEPENDENCY_FILE).is_ok());
    assert!(g.dep_insert(2, UnitRelations::UnitAfter, 3, UNIT_DEPENDENCY_FILE).is_ok());
    assert_eq!(
        g.dep_insert(3, UnitRelations::UnitAfter, 1, UNIT_DEPENDENCY_FILE),
        Err(DepError::OrderingCycle)
    );
    assert!(g.dep_insert(1, UnitRelations::UnitAfter, 3, UNIT_DEPENDENCY_FILE).is_ok());
}

#[test]
fn self_ordering_is_rejected() {
    let mut g = DepGraph::new();
    assert_eq!(
        g.dep_insert(4, UnitRelations::UnitAfter, 4, UNIT_DEPENDENCY_FILE),
        Err(DepError::OrderingCycle)
    );
    assert_eq!(g.len(), 0);
}

#[test]
fn requires_cycles_are_allowed() {
    let mut g = DepGraph::new();
    assert!(g.dep_insert(1, UnitRelations::UnitRequires, 2, UNIT_DEPENDENCY_FILE).is_ok());
    assert!(g.dep_insert(2, UnitRelations::UnitRequires, 1, UNIT_DEPENDENCY_FILE).is_ok());
    assert_eq!(g.len(), 4);
}

#[test]
fn self_inverse_relation_on_itself_is_one_edge() {
    let mut g = DepGraph::new();
    assert!(g.dep_insert(5, UnitRelations::UnitJoinsNameSpaceOf, 5, UNIT_DEPENDENCY_FILE).is_ok());
    assert_eq!(g.len(), 1);
}

#[test]
fn dep_gets_equals_edge_iteration() {
    let mut g = DepGraph::new();
    assert!(g.dep_insert(1, UnitRelations::UnitWants, 2, UNIT_DEPENDENCY_FILE).is_ok());
    assert!(g.dep_insert(1, UnitRelations::UnitWants, 3, UNIT_DEPENDENCY_FILE).is_ok());
    assert!(g.dep_insert(1, UnitRelations::UnitRequires, 4, UNIT_DEPENDENCY_FILE).is_ok());
    assert!(g.dep_insert(1, UnitRelations::UnitWants, 2, UNIT_DEPENDENCY_DEFAULT).is_ok());
    let mut got = g.dep_gets(1, UnitRelations::UnitWants);
    got.sort();
    let mut expected = Vec::new();
    for i in 0..g.len() {
        let e = g.edge(i);
        if e.src == 1 && e.rel == UnitRelations::UnitWants {
            expected.push(e.dst);
        }
    }
    expected.sort();
    assert_eq!(got, expected);
    assert_eq!(got, vec![2, 3]);
    assert_eq!(g.dep_gets(2, UnitRelations::UnitWantedBy), vec![1]);
}

#[test]
fn atoms_group_relations() {
    let mut g = DepGraph::new();
    assert!(g.dep_insert(1, UnitRelations::UnitRequires, 2, UNIT_DEPENDENCY_FILE).is_ok());
    assert!(g.dep_insert(1, UnitRelations::UnitWants, 3, UNIT_DEPENDENCY_FILE).is_ok());
    assert!(g.dep_insert(1, UnitRelations::UnitConflicts, 4, UNIT_DEPENDENCY_FILE).is_ok());
    let mut start = g.dep_gets_atom(1, UnitRelationAtom::UnitAtomPullInStart);
    start.sort();
    assert_eq!(start, vec![2, 3]);
    assert_eq!(g.dep_gets_atom(1, UnitRelationAtom::UnitAtomPullInStop), vec![4]);
    assert!(g.dep_is_dep_atom_with(2, UnitRelationAtom::UnitAtomPropagateStop, 1));
    assert!(!g.dep_is_dep_atom_with(1, UnitRelationAtom::UnitAtomPropagateStop, 2));
}

#[test]
fn start_with_requires_pulls_in_dependency_first() {
    // a.service After=b.service Requires=b.service
    let (a, b) = (1u64, 2u64);
    let mut g = DepGraph::new();
    assert!(g.dep_insert(a, UnitRelations::UnitAfter, b, UNIT_DEPENDENCY_FILE).is_ok());
    assert!(g.dep_insert(a, UnitRelations::UnitRequires, b, UNIT_DEPENDENCY_FILE).is_ok());
    let jobs = entailed_jobs(&g, a, JobKind::Start, JobMode::Replace);
    assert_eq!(jobs, vec![(b, JobKind::Start)]);
    assert_eq!(g.dep_gets(a, UnitRelations::UnitAfter), vec![b]);
}

#[test]
fn conflicts_entail_stop() {
    let (foo, bar) = (1u64, 2u64);
    let mut g = DepGraph::new();
    assert!(g.dep_insert(foo, UnitRelations::UnitConflicts, bar, UNIT_DEPENDENCY_FILE).is_ok());
    let jobs = entailed_jobs(&g, foo, JobKind::Start, JobMode::Isolate);
    assert_eq!(jobs, vec![(bar, JobKind::Stop)]);
    assert!(entailed_jobs(&g, foo, JobKind::Start, JobMode::IgnoreDeps).is_empty());
}

#[test]
fn reload_propagates_to_target() {
    let (x, y) = (1u64, 2u64);
    let mut g = DepGraph::new();
    assert!(g.dep_insert(x, UnitRelations::UnitPropagatesReloadTo, y, UNIT_DEPENDENCY_FILE).is_ok());
    let jobs = entailed_jobs(&g, x, JobKind::Reload, JobMode::Replace);
    assert_eq!(jobs, vec![(y, JobKind::Reload)]);
    let stops = entailed_jobs(&g, y, JobKind::Stop, JobMode::Replace);
    assert!(stops.is_empty());
}

#[test]
fn inverse_is_involutive() {
    let all = [
        UnitRelations::UnitRequires,
        UnitRelations::UnitAfter,
        UnitRelations::UnitTriggers,
        UnitRelations::UnitConflicts,
        UnitRelations::UnitJoinsNameSpaceOf,
    ];
    for r in all.iter() {
        assert_eq!(r.inverse().inverse(), *r);
    }
    assert_eq!(UnitRelations::UnitAfter.inverse(), UnitRelations::UnitBefore);
    assert!(UnitRelations::UnitBefore.is_ordering());
    assert!(!UnitRelations::UnitWants.is_ordering());
}
