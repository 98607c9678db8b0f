//! Primitives of the native container's wire encoding: big-endian `uint32`
//! fields and length-prefixed byte strings, with readers that never step
//! past the end of the input and writers that append exactly the bytes the
//! format prescribes.

use vstd::prelude::*;
use vstd::slice::{slice_subrange, slice_to_vec};

verus! {

/// The `u32` encoded big-endian by the first four bytes of `s`.
#[verifier::opaque]
pub open spec fn be32(s: Seq<u8>) -> u32 {
    ((s[0] as int) * 0x100_0000 + (s[1] as int) * 0x1_0000 + (s[2] as int) * 0x100 + (
    s[3] as int)) as u32
}

/// The four-byte big-endian encoding of `v`.
#[verifier::opaque]
pub open spec fn be32_bytes(v: u32) -> Seq<u8> {
    seq![
        (v / 0x100_0000) as u8,
        ((v / 0x1_0000) % 0x100) as u8,
        ((v / 0x100) % 0x100) as u8,
        (v % 0x100) as u8,
    ]
}

/// Reading a `uint32` at `pos`: the value and the position after it, or
/// `None` when fewer than four bytes remain.
pub open spec fn u32_at(data: Seq<u8>, pos: int) -> Option<(u32, int)> {
    if 0 <= pos && pos + 4 <= data.len() {
        Some((be32(data.subrange(pos, pos + 4)), pos + 4))
    } else {
        None
    }
}

/// Reading a length-prefixed string at `pos`: the body and the position
/// after it, or `None` when the prefix or the body would pass the end.
pub open spec fn string_at(data: Seq<u8>, pos: int) -> Option<(Seq<u8>, int)> {
    match u32_at(data, pos) {
        Some((n, p)) => {
            if p + n <= data.len() {
                Some((data.subrange(p, p + n), p + n))
            } else {
                None
            }
        },
        None => None,
    }
}

/// The wire form of a length-prefixed string.
pub open spec fn string_spec(s: Seq<u8>) -> Seq<u8>
    recommends
        s.len() < 0x1_0000_0000,
{
    be32_bytes(s.len() as u32) + s
}

/// Decoding a big-endian `u32` undoes its encoding.
pub proof fn lemma_be32_roundtrip(v: u32)
    ensures
        be32_bytes(v).len() == 4,
        be32(be32_bytes(v)) == v,
{
    reveal(be32);
    reveal(be32_bytes);
    assert(((v / 0x100_0000) as u8 as int) * 0x100_0000 + (((v / 0x1_0000) % 0x100) as u8 as int)
        * 0x1_0000 + (((v / 0x100) % 0x100) as u8 as int) * 0x100 + ((v % 0x100) as u8 as int)
        == v) by (bit_vector);
}

/// A length-prefixed string is four bytes longer than its body.
pub broadcast proof fn lemma_string_spec_len(s: Seq<u8>)
    ensures
        #[trigger] string_spec(s).len() == 4 + s.len(),
{
    lemma_be32_roundtrip(s.len() as u32);
}

/// A `uint32` written after a prefix reads back as itself.
pub proof fn lemma_u32_at_concat(pre: Seq<u8>, v: u32, rest: Seq<u8>)
    ensures
        u32_at(pre + be32_bytes(v) + rest, pre.len() as int) == Some((v, pre.len() as int + 4)),
{
    lemma_be32_roundtrip(v);
    let data = pre + be32_bytes(v) + rest;
    let pos = pre.len() as int;
    assert(data.subrange(pos, pos + 4) =~= be32_bytes(v));
}

/// A length-prefixed string written after a prefix reads back as itself.
pub proof fn lemma_string_at_concat(pre: Seq<u8>, s: Seq<u8>, rest: Seq<u8>)
    requires
        s.len() < 0x1_0000_0000,
    ensures
        string_at(pre + string_spec(s) + rest, pre.len() as int) == Some(
            (s, pre.len() as int + 4 + s.len() as int),
        ),
{
    lemma_be32_roundtrip(s.len() as u32);
    let data = pre + string_spec(s) + rest;
    let pos = pre.len() as int;
    assert(data.subrange(pos, pos + 4) =~= be32_bytes(s.len() as u32));
    lemma_be32_roundtrip(s.len() as u32);
    assert(be32(be32_bytes(s.len() as u32)) == s.len() as u32);
    assert(data.subrange(pos + 4, pos + 4 + s.len()) =~= s);
}

/// The wire form of a row of length-prefixed strings.
pub open spec fn cat_strings(xs: Seq<Seq<u8>>) -> Seq<u8>
    decreases xs.len(),
{
    if xs.len() == 0 {
        Seq::empty()
    } else {
        string_spec(xs[0]) + cat_strings(xs.drop_first())
    }
}

/// Every string in the row is short enough for its length prefix.
pub open spec fn all_fit(xs: Seq<Seq<u8>>) -> bool {
    forall|i: int| 0 <= i < xs.len() ==> #[trigger] xs[i].len() < 0x1_0000_0000
}

/// Reading `count` length-prefixed strings at `pos`: the bodies and the
/// position after them, or `None` when any read would pass the end.
pub open spec fn strings_at(data: Seq<u8>, pos: int, count: nat) -> Option<(Seq<Seq<u8>>, int)>
    decreases count,
{
    if count == 0 {
        Some((Seq::empty(), pos))
    } else {
        match string_at(data, pos) {
            None => None,
            Some((s, p)) => match strings_at(data, p, (count - 1) as nat) {
                None => None,
                Some((ss, q)) => Some((seq![s] + ss, q)),
            },
        }
    }
}

/// A row of length-prefixed strings written after a prefix reads back as
/// itself.
#[verifier::rlimit(100)]
pub proof fn lemma_strings_at_cat(pre: Seq<u8>, xs: Seq<Seq<u8>>, rest: Seq<u8>)
    requires
        all_fit(xs),
    ensures
        strings_at(pre + cat_strings(xs) + rest, pre.len() as int, xs.len()) == Some(
            (xs, pre.len() as int + cat_strings(xs).len() as int),
        ),
    decreases xs.len(),
{
    let b = pre + cat_strings(xs) + rest;
    if xs.len() == 0 {
        assert(xs =~= Seq::<Seq<u8>>::empty());
        assert(cat_strings(xs).len() == 0);
    } else {
        let x0 = xs[0];
        let tail = xs.drop_first();
        let sx = string_spec(x0);
        lemma_be32_roundtrip(x0.len() as u32);
        let cat_tail = cat_strings(tail);
        assert(cat_strings(xs) == sx + cat_tail);
        vstd::seq_lib::lemma_concat_associative(pre, sx, cat_tail);
        vstd::seq_lib::lemma_concat_associative(pre + sx, cat_tail, rest);
        assert(b == pre + sx + (cat_tail + rest));
        lemma_string_at_concat(pre, x0, cat_tail + rest);
        assert(string_at(b, pre.len() as int) == Some(
            (x0, pre.len() as int + 4 + x0.len() as int),
        ));
        assert forall|i: int| 0 <= i < tail.len() implies #[trigger] tail[i].len()
            < 0x1_0000_0000 by {
            assert(tail[i] == xs[i + 1]);
        }
        lemma_strings_at_cat(pre + sx, tail, rest);
        vstd::seq_lib::lemma_concat_associative(pre + sx, cat_tail, rest);
        assert((pre + sx) + cat_tail + rest == b);
        assert((pre + sx).len() == pre.len() + 4 + x0.len());
        assert(strings_at(b, pre.len() as int + 4 + x0.len() as int, tail.len()) == Some(
            (tail, pre.len() as int + 4 + x0.len() as int + cat_tail.len() as int),
        ));
        assert(seq![x0] + tail =~= xs);
        assert(cat_strings(xs).len() == 4 + x0.len() + cat_tail.len());
    }
}

/// Reading a `uint32` sees only the bytes it covers: two equally long
/// buffers that agree there read the same value.
pub proof fn lemma_u32_at_agree(a: Seq<u8>, b: Seq<u8>, pos: int)
    requires
        a.len() == b.len(),
        u32_at(a, pos) is Some,
        forall|i: int| pos <= i < pos + 4 ==> a[i] == #[trigger] b[i],
    ensures
        u32_at(b, pos) == u32_at(a, pos),
{
    assert(a.subrange(pos, pos + 4) =~= b.subrange(pos, pos + 4));
}

/// Reading a string sees only the bytes up to its end.
pub proof fn lemma_string_at_agree(a: Seq<u8>, b: Seq<u8>, pos: int)
    requires
        a.len() == b.len(),
        string_at(a, pos) is Some,
        forall|i: int| pos <= i < string_at(a, pos).unwrap().1 ==> a[i] == #[trigger] b[i],
    ensures
        string_at(b, pos) == string_at(a, pos),
{
    let (s, p) = string_at(a, pos).unwrap();
    lemma_u32_at_agree(a, b, pos);
    assert(a.subrange(pos + 4, p) =~= b.subrange(pos + 4, p));
}

/// A row of strings ends at or after where it starts.
pub proof fn lemma_strings_at_mono(a: Seq<u8>, pos: int, count: nat)
    requires
        strings_at(a, pos, count) is Some,
    ensures
        strings_at(a, pos, count).unwrap().1 >= pos,
    decreases count,
{
    if count > 0 {
        let (s, p) = string_at(a, pos).unwrap();
        lemma_strings_at_mono(a, p, (count - 1) as nat);
    }
}

/// Reading a row of strings sees only the bytes up to its end.
pub proof fn lemma_strings_at_agree(a: Seq<u8>, b: Seq<u8>, pos: int, count: nat)
    requires
        a.len() == b.len(),
        strings_at(a, pos, count) is Some,
        forall|i: int| pos <= i < strings_at(a, pos, count).unwrap().1 ==> a[i] == #[trigger] b[i],
    ensures
        strings_at(b, pos, count) == strings_at(a, pos, count),
    decreases count,
{
    if count > 0 {
        let q = strings_at(a, pos, count).unwrap().1;
        let (s, p) = string_at(a, pos).unwrap();
        lemma_strings_at_mono(a, p, (count - 1) as nat);
        assert(p <= q);
        lemma_string_at_agree(a, b, pos);
        lemma_strings_at_agree(a, b, p, (count - 1) as nat);
    }
}

/// A non-empty row read ends within the buffer.
pub proof fn lemma_strings_at_end(a: Seq<u8>, pos: int, count: nat)
    requires
        strings_at(a, pos, count) is Some,
        count > 0,
    ensures
        strings_at(a, pos, count).unwrap().1 <= a.len(),
    decreases count,
{
    let (s, p) = string_at(a, pos).unwrap();
    assert(p <= a.len()) by {
        assert(u32_at(a, pos) is Some);
    }
    if count > 1 {
        lemma_strings_at_end(a, p, (count - 1) as nat);
    } else {
        assert(strings_at(a, p, 0) == Some((Seq::<Seq<u8>>::empty(), p)));
    }
}

/// A `uint32` read that succeeds on a prefix reads the same on the whole.
pub proof fn lemma_u32_at_extend(a: Seq<u8>, b: Seq<u8>, pos: int)
    requires
        a.len() <= b.len(),
        a == b.subrange(0, a.len() as int),
        u32_at(a, pos) is Some,
    ensures
        u32_at(b, pos) == u32_at(a, pos),
{
    assert(a.subrange(pos, pos + 4) =~= b.subrange(pos, pos + 4));
}

/// A string read that succeeds on a prefix reads the same on the whole.
pub proof fn lemma_string_at_extend(a: Seq<u8>, b: Seq<u8>, pos: int)
    requires
        a.len() <= b.len(),
        a == b.subrange(0, a.len() as int),
        string_at(a, pos) is Some,
    ensures
        string_at(b, pos) == string_at(a, pos),
{
    let (s, p) = string_at(a, pos).unwrap();
    lemma_u32_at_extend(a, b, pos);
    assert(a.subrange(pos + 4, p) =~= b.subrange(pos + 4, p));
}

/// A row read that succeeds on a prefix reads the same on the whole.
pub proof fn lemma_strings_at_extend(a: Seq<u8>, b: Seq<u8>, pos: int, count: nat)
    requires
        a.len() <= b.len(),
        a == b.subrange(0, a.len() as int),
        strings_at(a, pos, count) is Some,
    ensures
        strings_at(b, pos, count) == strings_at(a, pos, count),
    decreases count,
{
    if count > 0 {
        let (s, p) = string_at(a, pos).unwrap();
        lemma_string_at_extend(a, b, pos);
        lemma_strings_at_extend(a, b, p, (count - 1) as nat);
    }
}

/// Read `count` length-prefixed strings at `pos`, copying the bodies out.
pub fn read_strings(data: &[u8], pos: usize, count: usize) -> (r: Option<(Vec<Vec<u8>>, usize)>)
    ensures
        match r {
            Some((vs, p)) => vs@.len() == count && strings_at(data@, pos as int, count as nat)
                == Some((vs@.map_values(|v: Vec<u8>| v@), p as int)),
            None => strings_at(data@, pos as int, count as nat) is None,
        },
    decreases count,
{
    if count == 0 {
        let vs: Vec<Vec<u8>> = Vec::new();
        proof {
            assert(vs@.map_values(|v: Vec<u8>| v@) =~= Seq::<Seq<u8>>::empty());
        }
        Some((vs, pos))
    } else {
        match read_string(data, pos) {
            None => None,
            Some((s, p)) => {
                match read_strings(data, p, count - 1) {
                    None => None,
                    Some((tail, q)) => {
                        let ghost s_view = s@;
                        let ghost tail_view = tail@;
                        let mut vs = tail;
                        vs.insert(0, s);
                        proof {
                            let f = |v: Vec<u8>| v@;
                            assert(vs@.drop_first() =~= tail_view);
                            assert(vs@.map_values(f) =~= seq![s_view] + tail_view.map_values(f));
                        }
                        Some((vs, q))
                    },
                }
            },
        }
    }
}

/// Compare two byte strings for equality of their contents.
pub fn bytes_eq(a: &[u8], b: &[u8]) -> (r: bool)
    ensures
        r == (a@ == b@),
{
    if a.len() != b.len() {
        return false;
    }
    let mut i: usize = 0;
    while i < a.len()
        invariant
            a@.len() == b@.len(),
            i <= a@.len(),
            forall|j: int| 0 <= j < i ==> a@[j] == b@[j],
        decreases a@.len() - i,
    {
        if a[i] != b[i] {
            return false;
        }
        i = i + 1;
    }
    proof {
        assert(a@ =~= b@);
    }
    true
}

/// Read a big-endian `uint32` at `pos`.
pub fn read_u32(data: &[u8], pos: usize) -> (r: Option<(u32, usize)>)
    ensures
        match r {
            Some((v, p)) => u32_at(data@, pos as int) == Some((v, p as int)),
            None => u32_at(data@, pos as int) is None,
        },
{
    if pos <= data.len() && data.len() - pos >= 4 {
        let b0 = data[pos];
        let b1 = data[pos + 1];
        let b2 = data[pos + 2];
        let b3 = data[pos + 3];
        let v: u32 = ((b0 as u32) << 24) | ((b1 as u32) << 16) | ((b2 as u32) << 8) | (b3 as u32);
        proof {
            reveal(be32);
            let s = data@.subrange(pos as int, pos as int + 4);
            assert(s[0] == b0 && s[1] == b1 && s[2] == b2 && s[3] == b3);
            assert((((b0 as u32) << 24) | ((b1 as u32) << 16) | ((b2 as u32) << 8) | (
            b3 as u32)) == ((b0 as int) * 0x100_0000 + (b1 as int) * 0x1_0000 + (b2 as int) * 0x100
                + (b3 as int)) as u32) by (bit_vector);
        }
        Some((v, pos + 4))
    } else {
        None
    }
}

/// Read a length-prefixed byte string at `pos`, copying the body out.
pub fn read_string(data: &[u8], pos: usize) -> (r: Option<(Vec<u8>, usize)>)
    ensures
        match r {
            Some((s, p)) => string_at(data@, pos as int) == Some((s@, p as int)),
            None => string_at(data@, pos as int) is None,
        },
{
    match read_u32(data, pos) {
        Some((n, p)) => {
            if n as usize <= data.len() && p <= data.len() - (n as usize) {
                let body = slice_to_vec(slice_subrange(data, p, p + (n as usize)));
                Some((body, p + (n as usize)))
            } else {
                None
            }
        },
        None => None,
    }
}

/// Append a big-endian `uint32`.
pub fn put_u32(buf: &mut Vec<u8>, v: u32)
    ensures
        final(buf)@ == old(buf)@ + be32_bytes(v),
{
    proof {
        reveal(be32_bytes);
        assert((v >> 24) as u8 == (v / 0x100_0000) as u8 && (v >> 16) as u8 == ((v / 0x1_0000)
            % 0x100) as u8 && (v >> 8) as u8 == ((v / 0x100) % 0x100) as u8 && v as u8 == (v
            % 0x100) as u8) by (bit_vector);
    }
    buf.push((v >> 24) as u8);
    buf.push((v >> 16) as u8);
    buf.push((v >> 8) as u8);
    buf.push(v as u8);
    assert(buf@ =~= old(buf)@ + be32_bytes(v));
}

/// Append raw bytes.
pub fn put_bytes(buf: &mut Vec<u8>, s: &[u8])
    ensures
        final(buf)@ == old(buf)@ + s@,
{
    let mut i: usize = 0;
    while i < s.len()
        invariant
            i <= s@.len(),
            buf@ == old(buf)@ + s@.subrange(0, i as int),
        decreases s@.len() - i,
    {
        buf.push(s[i]);
        i = i + 1;
        assert(buf@ =~= old(buf)@ + s@.subrange(0, i as int));
    }
    assert(buf@ =~= old(buf)@ + s@);
}

/// Append a length-prefixed byte string.
pub fn put_string(buf: &mut Vec<u8>, s: &[u8])
    requires
        s@.len() < 0x1_0000_0000,
    ensures
        final(buf)@ == old(buf)@ + string_spec(s@),
{
    put_u32(buf, s.len() as u32);
    put_bytes(buf, s);
    assert(buf@ =~= old(buf)@ + string_spec(s@));
}

} // verus!
