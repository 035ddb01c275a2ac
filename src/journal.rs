use vstd::prelude::*;

verus! {

/// One journal record: a key and a value, both as bytes.
pub type Record = (Seq<u8>, Seq<u8>);

/// A 32-bit length in little-endian order.
pub open spec fn le_bytes(n: u32) -> Seq<u8> {
    seq![(n & 0xff) as u8, ((n >> 8u32) & 0xff) as u8, ((n >> 16u32) & 0xff) as u8, ((n >> 24u32) & 0xff) as u8]
}

/// The 32-bit number that four little-endian bytes hold.
pub open spec fn le_value(b0: u8, b1: u8, b2: u8, b3: u8) -> u32 {
    (b0 as u32) | ((b1 as u32) << 8u32) | ((b2 as u32) << 16u32) | ((b3 as u32) << 24u32)
}

/// A record on disk: key length, key, value length, value.
pub open spec fn encode_record(r: Record) -> Seq<u8> {
    le_bytes(r.0.len() as u32) + r.0 + le_bytes(r.1.len() as u32) + r.1
}

/// A log: its records one after the other.
pub open spec fn encode_records(rs: Seq<Record>) -> Seq<u8>
    decreases rs.len(),
{
    if rs.len() == 0 {
        Seq::empty()
    } else {
        encode_record(rs[0]) + encode_records(rs.drop_first())
    }
}

/// Keys and values fit a 32-bit length.
pub open spec fn records_fit(rs: Seq<Record>) -> bool {
    forall|i: int| 0 <= i < rs.len() ==> (#[trigger] rs[i]).0.len() <= u32::MAX && rs[i].1.len() <= u32::MAX
}

/// Reads a log back: `None` where it is cut short inside a record.
pub open spec fn decode_records(b: Seq<u8>) -> Option<Seq<Record>>
    decreases b.len(),
{
    if b.len() == 0 {
        Some(Seq::empty())
    } else if b.len() < 4 {
        None
    } else {
        let kl = le_value(b[0], b[1], b[2], b[3]) as int;
        if b.len() < 8 + kl {
            None
        } else {
            let vl = le_value(b[4 + kl], b[5 + kl], b[6 + kl], b[7 + kl]) as int;
            if b.len() < 8 + kl + vl {
                None
            } else {
                let r = (b.subrange(4, 4 + kl), b.subrange(8 + kl, 8 + kl + vl));
                match decode_records(b.subrange(8 + kl + vl, b.len() as int)) {
                    Some(t) => Some(seq![r] + t),
                    None => None,
                }
            }
        }
    }
}

proof fn lemma_le_round_trip(n: u32)
    ensures
        le_value(le_bytes(n)[0], le_bytes(n)[1], le_bytes(n)[2], le_bytes(n)[3]) == n,
{
    let b0 = (n & 0xff) as u8;
    let b1 = ((n >> 8u32) & 0xff) as u8;
    let b2 = ((n >> 16u32) & 0xff) as u8;
    let b3 = ((n >> 24u32) & 0xff) as u8;
    assert((b0 as u32) | ((b1 as u32) << 8u32) | ((b2 as u32) << 16u32) | ((b3 as u32) << 24u32) == n)
        by (bit_vector)
        requires
            b0 == (n & 0xff) as u8,
            b1 == ((n >> 8u32) & 0xff) as u8,
            b2 == ((n >> 16u32) & 0xff) as u8,
            b3 == ((n >> 24u32) & 0xff) as u8,
    ;
}

proof fn lemma_decode_one(r: Record, tail: Seq<u8>)
    requires
        r.0.len() <= u32::MAX,
        r.1.len() <= u32::MAX,
    ensures
        decode_records(encode_record(r) + tail) == match decode_records(tail) {
            Some(t) => Some(seq![r] + t),
            None => None::<Seq<Record>>,
        },
{
    let b = encode_record(r) + tail;
    let kl = r.0.len() as int;
    let vl = r.1.len() as int;
    lemma_le_round_trip(r.0.len() as u32);
    lemma_le_round_trip(r.1.len() as u32);
    let lk = le_bytes(r.0.len() as u32);
    let lv = le_bytes(r.1.len() as u32);
    assert(b[0] == lk[0] && b[1] == lk[1] && b[2] == lk[2] && b[3] == lk[3]);
    assert(b[4 + kl] == lv[0] && b[5 + kl] == lv[1] && b[6 + kl] == lv[2] && b[7 + kl] == lv[3]);
    assert(b.subrange(4, 4 + kl) =~= r.0);
    assert(b.subrange(8 + kl, 8 + kl + vl) =~= r.1);
    assert(b.subrange(8 + kl + vl, b.len() as int) =~= tail);
}

/// Reading back the log of records whose keys and values fit a 32-bit
/// length gives the records, in order.
pub proof fn lemma_journal_round_trip(rs: Seq<Record>)
    requires
        records_fit(rs),
    ensures
        decode_records(encode_records(rs)) == Some(rs),
    decreases rs.len(),
{
    if rs.len() == 0 {
        assert(encode_records(rs) =~= Seq::<u8>::empty());
    } else {
        let rest = rs.drop_first();
        assert(records_fit(rest)) by {
            assert forall|i: int| 0 <= i < rest.len() implies (#[trigger] rest[i]).0.len() <= u32::MAX
                && rest[i].1.len() <= u32::MAX by {
                assert(rest[i] == rs[i + 1]);
            }
        }
        lemma_journal_round_trip(rest);
        assert(rs[0].0.len() <= u32::MAX && rs[0].1.len() <= u32::MAX);
        lemma_decode_one(rs[0], encode_records(rest));
        assert(seq![rs[0]] + rest =~= rs);
    }
}

/// The views of stored records.
pub open spec fn record_views(v: Seq<(Vec<u8>, Vec<u8>)>) -> Seq<Record> {
    v.map_values(|p: (Vec<u8>, Vec<u8>)| (p.0@, p.1@))
}

fn push_le(out: &mut Vec<u8>, n: u32)
    ensures
        final(out)@ == old(out)@ + le_bytes(n),
{
    out.push((n & 0xff) as u8);
    out.push(((n >> 8u32) & 0xff) as u8);
    out.push(((n >> 16u32) & 0xff) as u8);
    out.push(((n >> 24u32) & 0xff) as u8);
    proof {
        assert(out@ =~= old(out)@ + le_bytes(n));
    }
}

fn push_bytes(out: &mut Vec<u8>, b: &Vec<u8>)
    ensures
        final(out)@ == old(out)@ + b@,
{
    let mut i: usize = 0;
    while i < b.len()
        invariant
            i <= b@.len(),
            out@ == old(out)@ + b@.subrange(0, i as int),
        decreases b@.len() - i,
    {
        out.push(b[i]);
        proof {
            assert(b@.subrange(0, i + 1) =~= b@.subrange(0, i as int).push(b@[i as int]));
            assert(out@ =~= old(out)@ + b@.subrange(0, i + 1));
        }
        i = i + 1;
    }
    proof {
        assert(b@.subrange(0, b@.len() as int) =~= b@);
    }
}

proof fn lemma_encode_append(rs: Seq<Record>, r: Record)
    ensures
        encode_records(rs.push(r)) == encode_records(rs) + encode_record(r),
    decreases rs.len(),
{
    if rs.len() == 0 {
        assert(rs.push(r).drop_first() =~= Seq::<Record>::empty());
        assert(encode_records(Seq::<Record>::empty()) =~= Seq::<u8>::empty());
        assert(encode_record(r) + Seq::<u8>::empty() =~= encode_record(r));
    } else {
        assert(rs.push(r).drop_first() =~= rs.drop_first().push(r));
        lemma_encode_append(rs.drop_first(), r);
        assert(encode_record(rs[0]) + (encode_records(rs.drop_first()) + encode_record(r))
            =~= encode_record(rs[0]) + encode_records(rs.drop_first()) + encode_record(r));
    }
}

/// Writes records as a log. Keys and values longer than a 32-bit length
/// cannot be written.
pub fn encode_log(records: &Vec<(Vec<u8>, Vec<u8>)>) -> (r: Vec<u8>)
    requires
        records_fit(record_views(records@)),
    ensures
        r@ == encode_records(record_views(records@)),
{
    let ghost rv = record_views(records@);
    let mut out: Vec<u8> = Vec::new();
    let mut i: usize = 0;
    proof {
        assert(encode_records(rv.subrange(0, 0)) =~= Seq::<u8>::empty());
    }
    while i < records.len()
        invariant
            i <= records@.len(),
            rv == record_views(records@),
            records_fit(rv),
            out@ == encode_records(rv.subrange(0, i as int)),
        decreases records@.len() - i,
    {
        let (k, v) = &records[i];
        proof {
            assert(rv[i as int] == (k@, v@));
        }
        push_le(&mut out, k.len() as u32);
        push_bytes(&mut out, k);
        push_le(&mut out, v.len() as u32);
        push_bytes(&mut out, v);
        proof {
            assert(rv.subrange(0, i + 1) =~= rv.subrange(0, i as int).push(rv[i as int]));
            lemma_encode_append(rv.subrange(0, i as int), rv[i as int]);
            assert(out@ =~= encode_records(rv.subrange(0, i as int)) + encode_record(rv[i as int]));
        }
        i = i + 1;
    }
    proof {
        assert(rv.subrange(0, records@.len() as int) =~= rv);
    }
    out
}

/// `o` followed by the records of `t`, if any.
pub open spec fn prepend(o: Seq<Record>, t: Option<Seq<Record>>) -> Option<Seq<Record>> {
    match t {
        Some(t) => Some(o + t),
        None => None,
    }
}

fn copy_range(b: &[u8], from: usize, to: usize) -> (r: Vec<u8>)
    requires
        from <= to <= b@.len(),
    ensures
        r@ == b@.subrange(from as int, to as int),
{
    let mut out: Vec<u8> = Vec::new();
    let mut i = from;
    while i < to
        invariant
            from <= i <= to,
            to <= b@.len(),
            out@ == b@.subrange(from as int, i as int),
        decreases to - i,
    {
        out.push(b[i]);
        proof {
            assert(out@ =~= b@.subrange(from as int, i + 1));
        }
        i = i + 1;
    }
    out
}

/// Reads a log back into its records; `None` where it is cut short inside
/// a record.
pub fn decode_log(b: &[u8]) -> (r: Option<Vec<(Vec<u8>, Vec<u8>)>>)
    ensures
        match r {
            Some(v) => decode_records(b@) == Some(record_views(v@)),
            None => decode_records(b@) is None,
        },
{
    let n = b.len();
    let mut out: Vec<(Vec<u8>, Vec<u8>)> = Vec::new();
    let mut pos: usize = 0;
    proof {
        assert(b@.subrange(0, n as int) =~= b@);
        assert(record_views(out@) =~= Seq::<Record>::empty());
        if decode_records(b@) is Some {
            assert(Seq::<Record>::empty() + decode_records(b@)->Some_0 =~= decode_records(b@)->Some_0);
        }
    }
    while pos < n
        invariant
            n == b@.len(),
            pos <= n,
            decode_records(b@) == prepend(record_views(out@), decode_records(b@.subrange(pos as int, n as int))),
        decreases n - pos,
    {
        let ghost rest = b@.subrange(pos as int, n as int);
        if n - pos < 4 {
            return None;
        }
        let kl = ((b[pos] as u32) | ((b[pos + 1] as u32) << 8u32) | ((b[pos + 2] as u32) << 16u32) | ((b[pos + 3] as u32) << 24u32)) as usize;
        proof {
            assert(rest[0] == b@[pos as int] && rest[1] == b@[pos + 1] && rest[2] == b@[pos + 2] && rest[3] == b@[pos + 3]);
            assert(kl == le_value(rest[0], rest[1], rest[2], rest[3]) as int);
        }
        if n - pos < 8 || n - pos - 8 < kl {
            return None;
        }
        let at = pos + 4 + kl;
        let vl = ((b[at] as u32) | ((b[at + 1] as u32) << 8u32) | ((b[at + 2] as u32) << 16u32) | ((b[at + 3] as u32) << 24u32)) as usize;
        proof {
            assert(rest[4 + kl] == b@[at as int] && rest[5 + kl] == b@[at + 1] && rest[6 + kl] == b@[at + 2] && rest[7 + kl] == b@[at + 3]);
            assert(vl == le_value(rest[4 + kl], rest[5 + kl], rest[6 + kl], rest[7 + kl]) as int);
        }
        if n - pos - 8 - kl < vl {
            return None;
        }
        let key = copy_range(b, pos + 4, pos + 4 + kl);
        let value = copy_range(b, pos + 8 + kl, pos + 8 + kl + vl);
        let ghost prev = record_views(out@);
        proof {
            assert(key@ =~= rest.subrange(4, 4 + kl));
            assert(value@ =~= rest.subrange(8 + kl, 8 + kl + vl));
            assert(rest.subrange(8 + kl + vl, rest.len() as int) =~= b@.subrange(pos + 8 + kl + vl, n as int));
        }
        out.push((key, value));
        proof {
            assert(record_views(out@) =~= prev.push((key@, value@)));
            let t = decode_records(b@.subrange(pos + 8 + kl + vl, n as int));
            if t is Some {
                assert(prev + (seq![(key@, value@)] + t->Some_0) =~= prev.push((key@, value@)) + t->Some_0);
            }
        }
        pos = pos + 8 + kl + vl;
    }
    proof {
        assert(b@.subrange(n as int, n as int) =~= Seq::<u8>::empty());
        assert(record_views(out@) + Seq::<Record>::empty() =~= record_views(out@));
    }
    Some(out)
}

} // verus!
