use vstd::prelude::*;

verus! {

/// A labelled dependency between two units.
#[derive(Clone, Copy, Debug, PartialEq, Eq, Structural)]
pub enum UnitRelations {
    UnitRequires,
    UnitRequisite,
    UnitWants,
    UnitBindsTo,
    UnitPartOf,
    UnitRequiredBy,
    UnitRequisiteOf,
    UnitWantedBy,
    UnitBoundBy,
    UnitConsistsOf,
    UnitConflicts,
    UnitConflictedBy,
    UnitBefore,
    UnitAfter,
    UnitOnFailure,
    UnitOnFailureOf,
    UnitTriggers,
    UnitTriggeredBy,
    UnitPropagatesReloadTo,
    UnitReloadPropagatedFrom,
    UnitJoinsNameSpaceOf,
}

/// Derived predicates over relations; sub-units read the graph through them.
#[derive(Clone, Copy, Debug, PartialEq, Eq, Structural)]
pub enum UnitRelationAtom {
    UnitAtomPullInStart,
    UnitAtomPullInStop,
    UnitAtomPropagateStop,
    UnitAtomPropagateRestart,
    UnitAtomBefore,
    UnitAtomAfter,
    UnitAtomTriggers,
    UnitAtomTriggeredBy,
    UnitAtomOnFailure,
    UnitAtomAddDefaultTargetDependencyQueue,
}

/// Which source added an edge: the unit file.
pub const UNIT_DEPENDENCY_FILE: u8 = 1;
/// Which source added an edge: default dependencies.
pub const UNIT_DEPENDENCY_DEFAULT: u8 = 2;
/// Which source added an edge: implicit dependencies.
pub const UNIT_DEPENDENCY_IMPLICIT: u8 = 4;
/// Which source added an edge: a runtime request.
pub const UNIT_DEPENDENCY_RUNTIME: u8 = 8;

/// The relation that the target of an edge has back to its source.
pub open spec fn spec_inverse(r: UnitRelations) -> UnitRelations {
    match r {
        UnitRelations::UnitRequires => UnitRelations::UnitRequiredBy,
        UnitRelations::UnitRequisite => UnitRelations::UnitRequisiteOf,
        UnitRelations::UnitWants => UnitRelations::UnitWantedBy,
        UnitRelations::UnitBindsTo => UnitRelations::UnitBoundBy,
        UnitRelations::UnitPartOf => UnitRelations::UnitConsistsOf,
        UnitRelations::UnitRequiredBy => UnitRelations::UnitRequires,
        UnitRelations::UnitRequisiteOf => UnitRelations::UnitRequisite,
        UnitRelations::UnitWantedBy => UnitRelations::UnitWants,
        UnitRelations::UnitBoundBy => UnitRelations::UnitBindsTo,
        UnitRelations::UnitConsistsOf => UnitRelations::UnitPartOf,
        UnitRelations::UnitConflicts => UnitRelations::UnitConflictedBy,
        UnitRelations::UnitConflictedBy => UnitRelations::UnitConflicts,
        UnitRelations::UnitBefore => UnitRelations::UnitAfter,
        UnitRelations::UnitAfter => UnitRelations::UnitBefore,
        UnitRelations::UnitOnFailure => UnitRelations::UnitOnFailureOf,
        UnitRelations::UnitOnFailureOf => UnitRelations::UnitOnFailure,
        UnitRelations::UnitTriggers => UnitRelations::UnitTriggeredBy,
        UnitRelations::UnitTriggeredBy => UnitRelations::UnitTriggers,
        UnitRelations::UnitPropagatesReloadTo => UnitRelations::UnitReloadPropagatedFrom,
        UnitRelations::UnitReloadPropagatedFrom => UnitRelations::UnitPropagatesReloadTo,
        UnitRelations::UnitJoinsNameSpaceOf => UnitRelations::UnitJoinsNameSpaceOf,
    }
}

/// The fixed mapping from relations to the atoms they carry.
pub open spec fn spec_relation_has_atom(r: UnitRelations, a: UnitRelationAtom) -> bool {
    match a {
        UnitRelationAtom::UnitAtomPullInStart => r == UnitRelations::UnitRequires
            || r == UnitRelations::UnitWants || r == UnitRelations::UnitBindsTo,
        UnitRelationAtom::UnitAtomPullInStop => r == UnitRelations::UnitConflicts,
        UnitRelationAtom::UnitAtomPropagateStop => r == UnitRelations::UnitRequiredBy
            || r == UnitRelations::UnitBoundBy,
        UnitRelationAtom::UnitAtomPropagateRestart => r == UnitRelations::UnitPropagatesReloadTo,
        UnitRelationAtom::UnitAtomBefore => r == UnitRelations::UnitBefore,
        UnitRelationAtom::UnitAtomAfter => r == UnitRelations::UnitAfter,
        UnitRelationAtom::UnitAtomTriggers => r == UnitRelations::UnitTriggers,
        UnitRelationAtom::UnitAtomTriggeredBy => r == UnitRelations::UnitTriggeredBy,
        UnitRelationAtom::UnitAtomOnFailure => r == UnitRelations::UnitOnFailure,
        UnitRelationAtom::UnitAtomAddDefaultTargetDependencyQueue => r
            == UnitRelations::UnitWantedBy || r == UnitRelations::UnitRequiredBy || r
            == UnitRelations::UnitBoundBy,
    }
}

/// Taking the inverse twice gives the relation back.
pub proof fn lemma_inverse_involutive(r: UnitRelations)
    ensures
        spec_inverse(spec_inverse(r)) == r,
{
}

impl UnitRelations {
    /// The relation that the target of an edge has back to its source.
    pub fn inverse(&self) -> (r: UnitRelations)
        ensures
            r == spec_inverse(*self),
    {
        match *self {
            UnitRelations::UnitRequires => UnitRelations::UnitRequiredBy,
            UnitRelations::UnitRequisite => UnitRelations::UnitRequisiteOf,
            UnitRelations::UnitWants => UnitRelations::UnitWantedBy,
            UnitRelations::UnitBindsTo => UnitRelations::UnitBoundBy,
            UnitRelations::UnitPartOf => UnitRelations::UnitConsistsOf,
            UnitRelations::UnitRequiredBy => UnitRelations::UnitRequires,
            UnitRelations::UnitRequisiteOf => UnitRelations::UnitRequisite,
            UnitRelations::UnitWantedBy => UnitRelations::UnitWants,
            UnitRelations::UnitBoundBy => UnitRelations::UnitBindsTo,
            UnitRelations::UnitConsistsOf => UnitRelations::UnitPartOf,
            UnitRelations::UnitConflicts => UnitRelations::UnitConflictedBy,
            UnitRelations::UnitConflictedBy => UnitRelations::UnitConflicts,
            UnitRelations::UnitBefore => UnitRelations::UnitAfter,
            UnitRelations::UnitAfter => UnitRelations::UnitBefore,
            UnitRelations::UnitOnFailure => UnitRelations::UnitOnFailureOf,
            UnitRelations::UnitOnFailureOf => UnitRelations::UnitOnFailure,
            UnitRelations::UnitTriggers => UnitRelations::UnitTriggeredBy,
            UnitRelations::UnitTriggeredBy => UnitRelations::UnitTriggers,
            UnitRelations::UnitPropagatesReloadTo => UnitRelations::UnitReloadPropagatedFrom,
            UnitRelations::UnitReloadPropagatedFrom => UnitRelations::UnitPropagatesReloadTo,
            UnitRelations::UnitJoinsNameSpaceOf => UnitRelations::UnitJoinsNameSpaceOf,
        }
    }

    /// Whether this relation carries the given atom.
    pub fn has_atom(&self, a: UnitRelationAtom) -> (r: bool)
        ensures
            r == spec_relation_has_atom(*self, a),
    {
        let s = *self;
        match a {
            UnitRelationAtom::UnitAtomPullInStart => s == UnitRelations::UnitRequires || s
                == UnitRelations::UnitWants || s == UnitRelations::UnitBindsTo,
            UnitRelationAtom::UnitAtomPullInStop => s == UnitRelations::UnitConflicts,
            UnitRelationAtom::UnitAtomPropagateStop => s == UnitRelations::UnitRequiredBy || s
                == UnitRelations::UnitBoundBy,
            UnitRelationAtom::UnitAtomPropagateRestart => s
                == UnitRelations::UnitPropagatesReloadTo,
            UnitRelationAtom::UnitAtomBefore => s == UnitRelations::UnitBefore,
            UnitRelationAtom::UnitAtomAfter => s == UnitRelations::UnitAfter,
            UnitRelationAtom::UnitAtomTriggers => s == UnitRelations::UnitTriggers,
            UnitRelationAtom::UnitAtomTriggeredBy => s == UnitRelations::UnitTriggeredBy,
            UnitRelationAtom::UnitAtomOnFailure => s == UnitRelations::UnitOnFailure,
            UnitRelationAtom::UnitAtomAddDefaultTargetDependencyQueue => s
                == UnitRelations::UnitWantedBy || s == UnitRelations::UnitRequiredBy || s
                == UnitRelations::UnitBoundBy,
        }
    }

    /// Whether this relation constrains the order of activation.
    pub fn is_ordering(&self) -> (r: bool)
        ensures
            r == (*self == UnitRelations::UnitAfter || *self == UnitRelations::UnitBefore),
    {
        *self == UnitRelations::UnitAfter || *self == UnitRelations::UnitBefore
    }
}

} // verus!
