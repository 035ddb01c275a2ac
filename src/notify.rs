use vstd::prelude::*;

verus! {

/// The lines of a message split at each `\n` (a trailing `\n` ends with an
/// empty line).
pub open spec fn split_lines(b: Seq<u8>) -> Seq<Seq<u8>>
    decreases b.len(),
{
    if b.len() == 0 {
        seq![Seq::empty()]
    } else if b.last() == 10u8 {
        split_lines(b.drop_last()).push(Seq::empty())
    } else {
        let l = split_lines(b.drop_last());
        l.update(l.len() - 1, l.last().push(b.last()))
    }
}

/// A line split at its first `=` into key and value.
pub open spec fn split_assignment(l: Seq<u8>) -> Option<(Seq<u8>, Seq<u8>)>
    decreases l.len(),
{
    if l.len() == 0 {
        None
    } else if l[0] == 61u8 {
        Some((Seq::empty(), l.drop_first()))
    } else {
        match split_assignment(l.drop_first()) {
            Some((k, v)) => Some((seq![l[0]] + k, v)),
            None => None,
        }
    }
}

/// The `KEY=VALUE` pairs of the given lines, in order; a line without `=`
/// carries none.
pub open spec fn assignments(lines: Seq<Seq<u8>>) -> Seq<(Seq<u8>, Seq<u8>)>
    decreases lines.len(),
{
    if lines.len() == 0 {
        Seq::empty()
    } else {
        let rest = assignments(lines.drop_last());
        match split_assignment(lines.last()) {
            Some(kv) => rest.push(kv),
            None => rest,
        }
    }
}

/// The `KEY=VALUE` pairs of a notification message.
pub open spec fn notify_pairs(msg: Seq<u8>) -> Seq<(Seq<u8>, Seq<u8>)> {
    assignments(split_lines(msg))
}

/// The views of parsed pairs.
pub open spec fn pair_views(v: Seq<(Vec<u8>, Vec<u8>)>) -> Seq<(Seq<u8>, Seq<u8>)> {
    v.map_values(|p: (Vec<u8>, Vec<u8>)| (p.0@, p.1@))
}

proof fn lemma_lines_nonempty(b: Seq<u8>)
    ensures
        split_lines(b).len() >= 1,
    decreases b.len(),
{
    if b.len() > 0 {
        lemma_lines_nonempty(b.drop_last());
    }
}

proof fn lemma_split_at_first_eq(l: Seq<u8>, i: int)
    requires
        0 <= i < l.len(),
        l[i] == 61u8,
        forall|j: int| 0 <= j < i ==> l[j] != 61u8,
    ensures
        split_assignment(l) == Some((l.subrange(0, i), l.subrange(i + 1, l.len() as int))),
    decreases i,
{
    if i > 0 {
        let t = l.drop_first();
        lemma_split_at_first_eq(t, i - 1);
        assert(seq![l[0]] + t.subrange(0, i - 1) =~= l.subrange(0, i));
        assert(t.subrange(i, t.len() as int) =~= l.subrange(i + 1, l.len() as int));
    } else {
        assert(l.subrange(0, 0) =~= Seq::<u8>::empty());
        assert(l.drop_first() =~= l.subrange(1, l.len() as int));
    }
}

proof fn lemma_no_eq(l: Seq<u8>)
    requires
        forall|j: int| 0 <= j < l.len() ==> l[j] != 61u8,
    ensures
        split_assignment(l) is None,
    decreases l.len(),
{
    if l.len() > 0 {
        lemma_no_eq(l.drop_first());
    }
}

/// Splits one line at its first `=`.
fn split_line(line: &Vec<u8>) -> (r: Option<(Vec<u8>, Vec<u8>)>)
    ensures
        match r {
            Some(p) => split_assignment(line@) == Some((p.0@, p.1@)),
            None => split_assignment(line@) is None,
        },
{
    let n = line.len();
    let mut i: usize = 0;
    while i < n && line[i] != 61u8
        invariant
            n == line@.len(),
            i <= n,
            forall|j: int| 0 <= j < i ==> line@[j] != 61u8,
        decreases n - i,
    {
        i = i + 1;
    }
    if i == n {
        proof {
            lemma_no_eq(line@);
        }
        return None;
    }
    let mut key: Vec<u8> = Vec::new();
    let mut k: usize = 0;
    while k < i
        invariant
            k <= i,
            i < n,
            n == line@.len(),
            key@ == line@.subrange(0, k as int),
        decreases i - k,
    {
        key.push(line[k]);
        proof {
            assert(key@ =~= line@.subrange(0, k + 1));
        }
        k = k + 1;
    }
    let mut value: Vec<u8> = Vec::new();
    let mut m: usize = i + 1;
    while m < n
        invariant
            i < m <= n,
            n == line@.len(),
            value@ == line@.subrange(i + 1, m as int),
        decreases n - m,
    {
        value.push(line[m]);
        proof {
            assert(value@ =~= line@.subrange(i + 1, m + 1));
        }
        m = m + 1;
    }
    proof {
        lemma_split_at_first_eq(line@, i as int);
    }
    Some((key, value))
}

/// Parses a notification datagram: newline-separated `KEY=VALUE` lines, each
/// split at its first `=`; lines without `=` are skipped.
pub fn parse_notify_message(msg: &[u8]) -> (r: Vec<(Vec<u8>, Vec<u8>)>)
    ensures
        pair_views(r@) == notify_pairs(msg@),
{
    let n = msg.len();
    let mut done: Vec<(Vec<u8>, Vec<u8>)> = Vec::new();
    let mut cur: Vec<u8> = Vec::new();
    let mut i: usize = 0;
    proof {
        assert(msg@.subrange(0, 0) =~= Seq::<u8>::empty());
        assert(pair_views(done@) =~= Seq::empty());
    }
    while i < n
        invariant
            i <= n,
            n == msg@.len(),
            split_lines(msg@.subrange(0, i as int)).len() >= 1,
            split_lines(msg@.subrange(0, i as int)).last() == cur@,
            pair_views(done@) == assignments(split_lines(msg@.subrange(0, i as int)).drop_last()),
        decreases n - i,
    {
        let ghost pre = msg@.subrange(0, i as int);
        let ghost next = msg@.subrange(0, i + 1);
        proof {
            lemma_lines_nonempty(next);
            assert(next.drop_last() =~= pre);
            assert(next.last() == msg@[i as int]);
        }
        if msg[i] == 10u8 {
            let kv = split_line(&cur);
            let ghost before = done@;
            match kv {
                Some(p) => {
                    done.push(p);
                    proof {
                        assert(pair_views(done@) =~= pair_views(before).push((p.0@, p.1@)));
                    }
                },
                None => {},
            }
            proof {
                let ls = split_lines(pre);
                assert(ls.last() == cur@);
                assert(split_lines(next) == ls.push(Seq::empty()));
                assert(split_lines(next).drop_last() =~= ls);
                assert(ls.drop_last() =~= ls.subrange(0, ls.len() - 1));
                assert(pair_views(done@) =~= assignments(ls));
            }
            cur = Vec::new();
        } else {
            cur.push(msg[i]);
            proof {
                let ls = split_lines(pre);
                let nl = ls.update(ls.len() - 1, ls.last().push(msg@[i as int]));
                assert(split_lines(next) == nl);
                assert(nl.drop_last() =~= ls.drop_last());
                assert(nl.last() == ls.last().push(msg@[i as int]));
            }
        }
        i = i + 1;
    }
    proof {
        assert(msg@.subrange(0, n as int) =~= msg@);
    }
    let kv = split_line(&cur);
    let ghost before = done@;
    match kv {
        Some(p) => {
            done.push(p);
            proof {
                assert(pair_views(done@) =~= pair_views(before).push((p.0@, p.1@)));
            }
        },
        None => {},
    }
    proof {
        let ls = split_lines(msg@);
        lemma_lines_nonempty(msg@);
        assert(pair_views(done@) =~= assignments(ls));
    }
    done
}

/// The value of a string of decimal digits.
pub open spec fn decimal_value(s: Seq<u8>) -> int
    decreases s.len(),
{
    if s.len() == 0 {
        0
    } else {
        decimal_value(s.drop_last()) * 10 + (s.last() - 48)
    }
}

/// Every byte is a decimal digit.
pub open spec fn all_digits(s: Seq<u8>) -> bool {
    forall|i: int| 0 <= i < s.len() ==> 48u8 <= #[trigger] s[i] <= 57u8
}

/// A pid written in decimal: digits only, at least one, value in `1..=i32::MAX`.
pub open spec fn spec_parse_pid(s: Seq<u8>) -> Option<i32> {
    if s.len() > 0 && all_digits(s) && 0 < decimal_value(s) <= i32::MAX {
        Some(decimal_value(s) as i32)
    } else {
        None
    }
}

proof fn lemma_decimal_monotone(s: Seq<u8>, k: int)
    requires
        all_digits(s),
        0 <= k <= s.len(),
    ensures
        decimal_value(s.subrange(0, k)) <= decimal_value(s),
        0 <= decimal_value(s.subrange(0, k)),
    decreases s.len() - k,
{
    if k < s.len() {
        lemma_decimal_monotone(s, k + 1);
        let p = s.subrange(0, k + 1);
        assert(p.drop_last() =~= s.subrange(0, k));
        assert(48u8 <= p.last() <= 57u8);
    } else {
        assert(s.subrange(0, k) =~= s);
        lemma_decimal_nonneg(s);
    }
}

proof fn lemma_decimal_nonneg(s: Seq<u8>)
    requires
        all_digits(s),
    ensures
        0 <= decimal_value(s),
    decreases s.len(),
{
    if s.len() > 0 {
        assert(all_digits(s.drop_last()) && 48u8 <= s.last());
        lemma_decimal_nonneg(s.drop_last());
    }
}

/// Reads the pid in a `MAINPID=` value.
pub fn parse_pid(v: &Vec<u8>) -> (r: Option<i32>)
    ensures
        r == spec_parse_pid(v@),
{
    let n = v.len();
    if n == 0 {
        return None;
    }
    let mut acc: u64 = 0;
    let mut i: usize = 0;
    while i < n
        invariant
            n == v@.len(),
            i <= n,
            all_digits(v@.subrange(0, i as int)),
            acc == decimal_value(v@.subrange(0, i as int)),
            acc <= i32::MAX,
        decreases n - i,
    {
        let c = v[i];
        let ghost p = v@.subrange(0, i + 1);
        proof {
            assert(p.drop_last() =~= v@.subrange(0, i as int));
        }
        if c < 48u8 || c > 57u8 {
            proof {
                assert(!all_digits(v@));
            }
            return None;
        }
        acc = acc * 10 + (c - 48u8) as u64;
        proof {
            assert(all_digits(p));
        }
        if acc > 2147483647u64 {
            proof {
                if all_digits(v@) {
                    lemma_decimal_monotone(v@, i + 1);
                }
            }
            return None;
        }
        i = i + 1;
    }
    proof {
        assert(v@.subrange(0, n as int) =~= v@);
    }
    if acc == 0 {
        return None;
    }
    Some(acc as i32)
}

} // verus!
