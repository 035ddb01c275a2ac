use vstd::prelude::*;

verus! {

/// The magic bytes of a message sent by this manager.
pub open spec fn monitor_magic() -> Seq<u8> {
    seq![254u8, 237u8, 190u8, 239u8]
}

/// The prefix `libdevm` of a message sent by this manager.
pub open spec fn libdevm() -> Seq<u8> {
    seq![108u8, 105u8, 98u8, 100u8, 101u8, 118u8, 109u8]
}

/// The position of the first NUL of `b`, or its length.
pub open spec fn first_nul(b: Seq<u8>) -> int
    decreases b.len(),
{
    if b.len() == 0 {
        0
    } else if b[0] == 0 {
        0
    } else {
        1 + first_nul(b.drop_first())
    }
}

/// `s` occurs in `b` at some position.
pub open spec fn occurs(b: Seq<u8>, s: Seq<u8>) -> bool {
    exists|i: int| 0 <= i && i + s.len() <= b.len() && #[trigger] b.subrange(i, i + s.len()) == s
}

/// Where the properties of a received message start: after the
/// `action@/devpath` prefix of a kernel message (its first NUL-terminated
/// part contains `@/`), or after the 40-byte header of a message whose
/// prefix is `libdevm`; `None` for anything else.
pub open spec fn spec_payload_start(b: Seq<u8>) -> Option<int> {
    let p = b.subrange(0, first_nul(b));
    if occurs(p, seq![64u8, 47u8]) {
        Some(if first_nul(b) + 1 <= b.len() { first_nul(b) + 1 } else { b.len() as int })
    } else if p == libdevm() && b.len() >= 40 {
        Some(40)
    } else {
        None
    }
}

proof fn lemma_first_nul(b: Seq<u8>, i: int)
    requires
        0 <= i <= b.len(),
        forall|j: int| 0 <= j < i ==> b[j] != 0,
        i == b.len() || b[i] == 0,
    ensures
        first_nul(b) == i,
    decreases i,
{
    if i > 0 {
        lemma_first_nul(b.drop_first(), i - 1);
    }
}

/// Where the properties of a received monitor message start.
pub fn payload_start(b: &[u8]) -> (r: Option<usize>)
    ensures
        match r {
            Some(s) => spec_payload_start(b@) == Some(s as int),
            None => spec_payload_start(b@) is None,
        },
{
    let n = b.len();
    let mut idx: usize = 0;
    while idx < n && b[idx] != 0
        invariant
            n == b@.len(),
            idx <= n,
            forall|j: int| 0 <= j < idx ==> b@[j] != 0,
        decreases n - idx,
    {
        idx = idx + 1;
    }
    proof {
        lemma_first_nul(b@, idx as int);
    }
    let ghost p = b@.subrange(0, idx as int);
    let mut k: usize = 0;
    let mut found = false;
    while k < idx
        invariant
            idx <= n,
            n == b@.len(),
            k <= idx,
            p == b@.subrange(0, idx as int),
            found ==> occurs(p, seq![64u8, 47u8]),
            !found ==> forall|j: int|
                0 <= j < k && j + 2 <= p.len() ==> !(#[trigger] p.subrange(j, j + 2) == seq![64u8, 47u8]),
        ensures
            found ==> occurs(p, seq![64u8, 47u8]),
            !found ==> k == idx && forall|j: int|
                0 <= j < k && j + 2 <= p.len() ==> !(#[trigger] p.subrange(j, j + 2) == seq![64u8, 47u8]),
        decreases idx - k,
    {
        if k + 1 < idx && b[k] == 64u8 && b[k + 1] == 47u8 {
            proof {
                assert(p.subrange(k as int, k + 2) =~= seq![64u8, 47u8]);
            }
            found = true;
            break;
        }
        proof {
            if k + 2 <= p.len() {
                assert(p.subrange(k as int, k + 2)[0] == b@[k as int]);
                assert(p.subrange(k as int, k + 2)[1] == b@[k + 1]);
            }
        }
        k = k + 1;
    }
    if found {
        if idx < n {
            return Some(idx + 1);
        }
        return Some(n);
    }
    proof {
        assert forall|j: int| 0 <= j && j + 2 <= p.len() implies !(#[trigger] p.subrange(j, j + 2)
            == seq![64u8, 47u8]) by {
            assert(j < k);
        }
    }
    let is_libdevm = idx == 7 && b[0] == 108u8 && b[1] == 105u8 && b[2] == 98u8 && b[3] == 100u8
        && b[4] == 101u8 && b[5] == 118u8 && b[6] == 109u8;
    proof {
        if is_libdevm {
            assert(p =~= libdevm());
        } else if p == libdevm() {
            assert(p.len() == 7);
            assert(p[0] == b@[0] && p[1] == b@[1] && p[2] == b@[2] && p[3] == b@[3]);
            assert(p[4] == b@[4] && p[5] == b@[5] && p[6] == b@[6]);
        }
    }
    if is_libdevm && n >= 40 {
        return Some(40);
    }
    None
}

/// The 40-byte header of a message that this manager sends: `libdevm\0`,
/// the magic bytes, the header size 40 twice (little-endian), the length of
/// the properties (big-endian), and 16 zero bytes for the subsystem and
/// device-type hashes and the tag bloom.
pub open spec fn spec_monitor_header(props_len: u32) -> Seq<u8> {
    libdevm().push(0u8) + monitor_magic() + seq![40u8, 0u8, 0u8, 0u8, 40u8, 0u8, 0u8, 0u8] + seq![
        ((props_len >> 24u32) & 0xff) as u8,
        ((props_len >> 16u32) & 0xff) as u8,
        ((props_len >> 8u32) & 0xff) as u8,
        (props_len & 0xff) as u8,
    ] + Seq::new(16, |i: int| 0u8)
}

/// The header of a message carrying properties of `props_len` bytes.
pub fn monitor_header(props_len: u32) -> (r: Vec<u8>)
    ensures
        r@ == spec_monitor_header(props_len),
        r@.len() == 40,
{
    let mut h: Vec<u8> = vec![108u8, 105u8, 98u8, 100u8, 101u8, 118u8, 109u8, 0u8, 254u8, 237u8, 190u8, 239u8, 40u8, 0u8, 0u8, 0u8, 40u8, 0u8, 0u8, 0u8];
    h.push(((props_len >> 24u32) & 0xff) as u8);
    h.push(((props_len >> 16u32) & 0xff) as u8);
    h.push(((props_len >> 8u32) & 0xff) as u8);
    h.push((props_len & 0xff) as u8);
    let mut i: usize = 0;
    while i < 16
        invariant
            i <= 16,
            h@.len() == 24 + i,
            forall|j: int| 24 <= j < 24 + i ==> h@[j] == 0u8,
            h@.subrange(0, 24) == libdevm().push(0u8) + monitor_magic() + seq![40u8, 0u8, 0u8, 0u8, 40u8, 0u8, 0u8, 0u8] + seq![
                ((props_len >> 24u32) & 0xff) as u8,
                ((props_len >> 16u32) & 0xff) as u8,
                ((props_len >> 8u32) & 0xff) as u8,
                (props_len & 0xff) as u8,
            ],
        decreases 16 - i,
    {
        proof {
            if i == 0 {
                assert(h@.subrange(0, 24) =~= libdevm().push(0u8) + monitor_magic() + seq![40u8, 0u8, 0u8, 0u8, 40u8, 0u8, 0u8, 0u8] + seq![
                    ((props_len >> 24u32) & 0xff) as u8,
                    ((props_len >> 16u32) & 0xff) as u8,
                    ((props_len >> 8u32) & 0xff) as u8,
                    (props_len & 0xff) as u8,
                ]);
            }
        }
        let ghost prev = h@;
        h.push(0u8);
        proof {
            assert(h@.subrange(0, 24) =~= prev.subrange(0, 24));
        }
        i = i + 1;
    }
    proof {
        assert(h@ =~= spec_monitor_header(props_len));
    }
    h
}

} // verus!
