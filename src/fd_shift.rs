use vstd::prelude::*;

verus! {

/// One descriptor operation of the child before exec.
#[derive(Clone, Copy, Debug, PartialEq, Eq, Structural)]
pub enum FdOp {
    /// `dup2(from, to)`: `to` refers to what `from` refers to.
    Dup2 { from: i32, to: i32 },
    /// `close(fd)`.
    Close(i32),
}

/// A descriptor table: each open descriptor and the file it refers to
/// (named by the descriptor that first held it).
pub open spec fn apply_op(t: Map<int, int>, op: FdOp) -> Map<int, int> {
    match op {
        FdOp::Dup2 { from, to } => if t.contains_key(from as int) {
            t.insert(to as int, t[from as int])
        } else {
            t
        },
        FdOp::Close(fd) => t.remove(fd as int),
    }
}

/// The table after the operations, in order.
pub open spec fn apply_ops(t: Map<int, int>, ops: Seq<FdOp>) -> Map<int, int>
    decreases ops.len(),
{
    if ops.len() == 0 {
        t
    } else {
        apply_op(apply_ops(t, ops.drop_last()), ops.last())
    }
}

/// `k` is one of the kept descriptors.
pub open spec fn is_kept(keep: Seq<i32>, k: int) -> bool {
    exists|j: int| 0 <= j < keep.len() && keep[j] as int == k
}

/// The child's table once everything but 0, 1, 2 and the kept descriptors
/// is closed.
pub open spec fn kept_table(keep: Seq<i32>) -> Map<int, int> {
    Map::new(|k: int| (0 <= k < 3) || is_kept(keep, k), |k: int| k)
}

/// The table that exec should see: 0, 1, 2, and kept descriptor `i` on
/// `i + 3`.
pub open spec fn shifted_table(keep: Seq<i32>) -> Map<int, int> {
    Map::new(
        |k: int| 0 <= k < 3 + keep.len(),
        |k: int|
            if k < 3 {
                k
            } else {
                keep[k - 3] as int
            },
    )
}

/// The kept descriptors are distinct, above 2, and small enough to shift.
pub open spec fn keep_ok(keep: Seq<i32>) -> bool {
    &&& keep.len() < 0x10000
    &&& forall|j: int| 0 <= j < keep.len() ==> 3 <= #[trigger] keep[j] < 0x1000_0000
    &&& forall|a: int, b: int| 0 <= a < b < keep.len() ==> #[trigger] keep[a] != #[trigger] keep[b]
}

/// Table after the first `i` descriptors were moved up to `hi + j`.
pub open spec fn moved_table(keep: Seq<i32>, hi: int, i: int) -> Map<int, int> {
    Map::new(
        |k: int|
            (0 <= k < 3) || (exists|j: int| i <= j < keep.len() && keep[j] as int == k) || (hi <= k
                < hi + i),
        |k: int|
            if k >= hi {
                keep[k - hi] as int
            } else {
                k
            },
    )
}

/// Table after the first `i` descriptors were moved down to `3 + j`.
pub open spec fn placed_table(keep: Seq<i32>, hi: int, i: int) -> Map<int, int> {
    Map::new(
        |k: int| (0 <= k < 3 + i) || (hi + i <= k < hi + keep.len()),
        |k: int|
            if k < 3 {
                k
            } else if k >= hi {
                keep[k - hi] as int
            } else {
                keep[k - 3] as int
            },
    )
}

/// The operations that put kept descriptor `i` on `i + 3`: each is first
/// moved above all of them, then down to its place, so that no move
/// overwrites a descriptor still needed.
pub fn shift_plan(keep: &Vec<i32>) -> (ops: Vec<FdOp>)
    requires
        keep_ok(keep@),
    ensures
        apply_ops(kept_table(keep@), ops@) == shifted_table(keep@),
{
    let n = keep.len();
    let ghost ks = keep@;
    let mut hi: i32 = (n + 3) as i32;
    let mut j: usize = 0;
    while j < n
        invariant
            n == ks.len(),
            ks == keep@,
            keep_ok(ks),
            j <= n,
            3 + n <= hi <= 0x1000_0000,
            forall|x: int| 0 <= x < j ==> ks[x] < hi,
        decreases n - j,
    {
        if keep[j] >= hi {
            hi = keep[j] + 1;
        }
        j = j + 1;
    }
    let mut ops: Vec<FdOp> = Vec::new();
    proof {
        assert(moved_table(ks, hi as int, 0) =~= kept_table(ks));
    }
    let mut i: usize = 0;
    while i < n
        invariant
            n == ks.len(),
            ks == keep@,
            keep_ok(ks),
            i <= n,
            3 + n <= hi <= 0x1000_0000,
            forall|x: int| 0 <= x < n ==> ks[x] < hi,
            apply_ops(kept_table(ks), ops@) == moved_table(ks, hi as int, i as int),
        decreases n - i,
    {
        let ghost before = ops@;
        let ghost t = moved_table(ks, hi as int, i as int);
        ops.push(FdOp::Dup2 { from: keep[i], to: hi + i as i32 });
        ops.push(FdOp::Close(keep[i]));
        proof {
            assert(ops@.drop_last().drop_last() =~= before);
            assert(ops@.drop_last().last() == FdOp::Dup2 { from: keep[i as int], to: (hi + i) as i32 });
            assert(ops@.last() == FdOp::Close(keep[i as int]));
            assert(t.contains_key(ks[i as int] as int));
            assert(t[ks[i as int] as int] == ks[i as int] as int);
            let t2 = t.insert(hi + i, ks[i as int] as int).remove(ks[i as int] as int);
            let mid = apply_ops(kept_table(ks), ops@.drop_last());
            assert(mid == apply_op(apply_ops(kept_table(ks), before), ops@.drop_last().last()));
            assert(mid == t.insert(hi + i, ks[i as int] as int));
            assert(apply_ops(kept_table(ks), ops@) == apply_op(mid, ops@.last()));
            assert(apply_ops(kept_table(ks), ops@) == t2);
            assert(t2 =~= moved_table(ks, hi as int, i + 1)) by {
                assert forall|k: int| #[trigger] t2.contains_key(k) == moved_table(ks, hi as int, i + 1).contains_key(k) by {
                    if (exists|x: int| i <= x < ks.len() && ks[x] as int == k) && k != ks[i as int] {
                        let x = choose|x: int| i <= x < ks.len() && ks[x] as int == k;
                        assert(x != i);
                    }
                    if exists|x: int| i + 1 <= x < ks.len() && ks[x] as int == k {
                        let x = choose|x: int| i + 1 <= x < ks.len() && ks[x] as int == k;
                        assert(ks[x] != ks[i as int]);
                        assert(ks[x] < hi);
                    }
                }
            }
        }
        i = i + 1;
    }
    proof {
        assert(moved_table(ks, hi as int, n as int) =~= placed_table(ks, hi as int, 0)) by {
            assert forall|k: int| #[trigger] moved_table(ks, hi as int, n as int).contains_key(k)
                == placed_table(ks, hi as int, 0).contains_key(k) by {}
        }
    }
    let mut i: usize = 0;
    while i < n
        invariant
            n == ks.len(),
            ks == keep@,
            keep_ok(ks),
            i <= n,
            3 + n <= hi <= 0x1000_0000,
            apply_ops(kept_table(ks), ops@) == placed_table(ks, hi as int, i as int),
        decreases n - i,
    {
        let ghost before = ops@;
        let ghost t = placed_table(ks, hi as int, i as int);
        ops.push(FdOp::Dup2 { from: hi + i as i32, to: 3 + i as i32 });
        ops.push(FdOp::Close(hi + i as i32));
        proof {
            assert(ops@.drop_last().drop_last() =~= before);
            assert(t.contains_key(hi + i));
            let t2 = t.insert(3 + i, ks[i as int] as int).remove(hi + i);
            let mid = apply_ops(kept_table(ks), ops@.drop_last());
            assert(ops@.drop_last().last() == FdOp::Dup2 { from: (hi + i) as i32, to: (3 + i) as i32 });
            assert(ops@.last() == FdOp::Close((hi + i) as i32));
            assert(mid == apply_op(apply_ops(kept_table(ks), before), ops@.drop_last().last()));
            assert(t[hi + i] == ks[i as int] as int);
            assert(mid == t.insert(3 + i, ks[i as int] as int));
            assert(apply_ops(kept_table(ks), ops@) == apply_op(mid, ops@.last()));
            assert(apply_ops(kept_table(ks), ops@) == t2);
            assert(t2 =~= placed_table(ks, hi as int, i + 1));
        }
        i = i + 1;
    }
    proof {
        assert(placed_table(ks, hi as int, n as int) =~= shifted_table(ks));
    }
    ops
}

} // verus!
