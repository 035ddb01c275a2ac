use vstd::prelude::*;
use vstd::string::StrSliceExecFns;
use crate::unit_config::UnitConfig;

verus! {

/// The kinds of start conditions; a failed condition skips the start.
#[derive(Clone, Copy, Debug, PartialEq, Eq, Structural)]
pub enum ConditionKind {
    FileNotEmpty,
    NeedsUpdate,
    PathExists,
    PathIsReadWrite,
    User,
    ACPower,
    FirstBoot,
    Capability,
    /// An assertion: a failed one fails the start.
    AssertPathExists,
}

/// The entry `(k, s)` where `s` is not empty.
pub open spec fn entry_if_set(k: ConditionKind, s: Seq<char>) -> Seq<(ConditionKind, Seq<char>)> {
    if s.len() > 0 {
        seq![(k, s)]
    } else {
        Seq::empty()
    }
}

/// The conditions of a unit, in a fixed order, those with an empty
/// parameter left out.
pub open spec fn spec_conditions(c: UnitConfig) -> Seq<(ConditionKind, Seq<char>)> {
    entry_if_set(ConditionKind::FileNotEmpty, c.condition_file_not_empty@) + entry_if_set(
        ConditionKind::NeedsUpdate,
        c.condition_needs_update@,
    ) + entry_if_set(ConditionKind::PathExists, c.condition_path_exists@) + entry_if_set(
        ConditionKind::PathIsReadWrite,
        c.condition_path_is_read_write@,
    ) + entry_if_set(ConditionKind::User, c.condition_user@) + entry_if_set(
        ConditionKind::ACPower,
        c.condition_ac_power@,
    ) + entry_if_set(ConditionKind::FirstBoot, c.condition_first_boot@) + entry_if_set(
        ConditionKind::Capability,
        c.condition_capability@,
    )
}

/// The views of condition entries.
pub open spec fn cond_views(v: Seq<(ConditionKind, String)>) -> Seq<(ConditionKind, Seq<char>)> {
    v.map_values(|p: (ConditionKind, String)| (p.0, p.1@))
}

fn add_if_set(out: &mut Vec<(ConditionKind, String)>, k: ConditionKind, param: &String)
    ensures
        cond_views(final(out)@) == cond_views(old(out)@) + entry_if_set(k, param@),
{
    if param.as_str().unicode_len() > 0 {
        out.push((k, param.clone()));
        proof {
            assert(cond_views(out@) =~= cond_views(old(out)@) + entry_if_set(k, param@));
        }
    } else {
        proof {
            assert(cond_views(out@) =~= cond_views(old(out)@) + entry_if_set(k, param@));
        }
    }
}

/// The start conditions of a unit with their parameters.
pub fn unit_conditions(c: &UnitConfig) -> (r: Vec<(ConditionKind, String)>)
    ensures
        cond_views(r@) == spec_conditions(*c),
{
    let mut out: Vec<(ConditionKind, String)> = Vec::new();
    proof {
        assert(cond_views(out@) =~= Seq::empty());
    }
    add_if_set(&mut out, ConditionKind::FileNotEmpty, &c.condition_file_not_empty);
    add_if_set(&mut out, ConditionKind::NeedsUpdate, &c.condition_needs_update);
    add_if_set(&mut out, ConditionKind::PathExists, &c.condition_path_exists);
    add_if_set(&mut out, ConditionKind::PathIsReadWrite, &c.condition_path_is_read_write);
    add_if_set(&mut out, ConditionKind::User, &c.condition_user);
    add_if_set(&mut out, ConditionKind::ACPower, &c.condition_ac_power);
    add_if_set(&mut out, ConditionKind::FirstBoot, &c.condition_first_boot);
    add_if_set(&mut out, ConditionKind::Capability, &c.condition_capability);
    proof {
        assert(cond_views(out@) =~= spec_conditions(*c));
    }
    out
}

/// The assertions of a unit with their parameters.
pub fn unit_asserts(c: &UnitConfig) -> (r: Vec<(ConditionKind, String)>)
    ensures
        cond_views(r@) == entry_if_set(ConditionKind::AssertPathExists, c.assert_path_exists@),
{
    let mut out: Vec<(ConditionKind, String)> = Vec::new();
    proof {
        assert(cond_views(out@) =~= Seq::empty());
    }
    add_if_set(&mut out, ConditionKind::AssertPathExists, &c.assert_path_exists);
    proof {
        assert(cond_views(out@) =~= entry_if_set(ConditionKind::AssertPathExists, c.assert_path_exists@));
    }
    out
}

/// The conditions (or assertions) hold where each of them evaluated true.
pub fn conditions_test(results: &Vec<bool>) -> (r: bool)
    ensures
        r == forall|i: int| 0 <= i < results@.len() ==> #[trigger] results@[i],
{
    let mut i: usize = 0;
    while i < results.len()
        invariant
            i <= results@.len(),
            forall|k: int| 0 <= k < i ==> #[trigger] results@[k],
        decreases results@.len() - i,
    {
        if !results[i] {
            return false;
        }
        i = i + 1;
    }
    true
}

} // verus!
