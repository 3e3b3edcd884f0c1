//! Little-endian byte codecs for the fixed-width integers that appear on the
//! wire. Every multi-byte field of the protocol uses this byte order.

use vstd::prelude::*;

verus! {

/// The two bytes of `v`, least significant first.
pub open spec fn u16_le(v: u16) -> Seq<u8> {
    seq![(v & 0xff) as u8, ((v >> 8) & 0xff) as u8]
}

/// The value encoded by two little-endian bytes.
pub open spec fn u16_from_le(b0: u8, b1: u8) -> u16 {
    (b0 as u16) | ((b1 as u16) << 8)
}

/// The eight bytes of `v`, least significant first.
pub open spec fn u64_le(v: u64) -> Seq<u8> {
    seq![
        (v & 0xff) as u8,
        ((v >> 8) & 0xff) as u8,
        ((v >> 16) & 0xff) as u8,
        ((v >> 24) & 0xff) as u8,
        ((v >> 32) & 0xff) as u8,
        ((v >> 40) & 0xff) as u8,
        ((v >> 48) & 0xff) as u8,
        ((v >> 56) & 0xff) as u8,
    ]
}

/// The value encoded by eight little-endian bytes.
pub open spec fn u64_from_le(b: Seq<u8>) -> u64
    recommends
        b.len() == 8,
{
    (b[0] as u64) | ((b[1] as u64) << 8) | ((b[2] as u64) << 16) | ((b[3] as u64) << 24)
        | ((b[4] as u64) << 32) | ((b[5] as u64) << 40) | ((b[6] as u64) << 48)
        | ((b[7] as u64) << 56)
}

/// The two bytes of a signed 16-bit value, least significant first.
pub open spec fn i16_le(v: i16) -> Seq<u8> {
    u16_le(v as u16)
}

/// The signed value encoded by two little-endian bytes.
pub open spec fn i16_from_le(b0: u8, b1: u8) -> i16 {
    u16_from_le(b0, b1) as i16
}

/// Decoding the two bytes of a 16-bit value yields the value back.
pub proof fn lemma_u16_le_roundtrip(v: u16)
    ensures
        u16_from_le(u16_le(v)[0], u16_le(v)[1]) == v,
{
    assert(((v & 0xff) as u8 as u16) | ((((v >> 8) & 0xff) as u8 as u16) << 8) == v)
        by (bit_vector);
}

/// Decoding the eight bytes of a 64-bit value yields the value back.
pub proof fn lemma_u64_le_roundtrip(v: u64)
    ensures
        u64_from_le(u64_le(v)) == v,
{
    let b = u64_le(v);
    assert(((v & 0xff) as u8 as u64) | ((((v >> 8) & 0xff) as u8 as u64) << 8)
        | ((((v >> 16) & 0xff) as u8 as u64) << 16) | ((((v >> 24) & 0xff) as u8 as u64) << 24)
        | ((((v >> 32) & 0xff) as u8 as u64) << 32) | ((((v >> 40) & 0xff) as u8 as u64) << 40)
        | ((((v >> 48) & 0xff) as u8 as u64) << 48) | ((((v >> 56) & 0xff) as u8 as u64) << 56)
        == v) by (bit_vector);
}

/// Decoding the two bytes of a signed 16-bit value yields the value back.
pub proof fn lemma_i16_le_roundtrip(v: i16)
    ensures
        i16_from_le(i16_le(v)[0], i16_le(v)[1]) == v,
{
    lemma_u16_le_roundtrip(v as u16);
    assert((v as u16) as i16 == v) by (bit_vector);
}

/// Encode a 16-bit value as two little-endian bytes.
pub fn u16_to_bytes(v: u16) -> (r: Vec<u8>)
    ensures
        r@ == u16_le(v),
{
    let mut r: Vec<u8> = Vec::new();
    r.push((v & 0xff) as u8);
    r.push(((v >> 8) & 0xff) as u8);
    assert(r@ =~= u16_le(v));
    r
}

/// Decode two little-endian bytes as a 16-bit value.
pub fn u16_from_bytes(b0: u8, b1: u8) -> (r: u16)
    ensures
        r == u16_from_le(b0, b1),
{
    (b0 as u16) | ((b1 as u16) << 8)
}

/// Encode a signed 16-bit value as two little-endian bytes.
pub fn i16_to_bytes(v: i16) -> (r: Vec<u8>)
    ensures
        r@ == i16_le(v),
{
    u16_to_bytes(v as u16)
}

/// Decode two little-endian bytes as a signed 16-bit value.
pub fn i16_from_bytes(b0: u8, b1: u8) -> (r: i16)
    ensures
        r == i16_from_le(b0, b1),
{
    u16_from_bytes(b0, b1) as i16
}

/// Encode a 64-bit value as eight little-endian bytes.
pub fn u64_to_bytes(v: u64) -> (r: Vec<u8>)
    ensures
        r@ == u64_le(v),
{
    let mut r: Vec<u8> = Vec::new();
    r.push((v & 0xff) as u8);
    r.push(((v >> 8) & 0xff) as u8);
    r.push(((v >> 16) & 0xff) as u8);
    r.push(((v >> 24) & 0xff) as u8);
    r.push(((v >> 32) & 0xff) as u8);
    r.push(((v >> 40) & 0xff) as u8);
    r.push(((v >> 48) & 0xff) as u8);
    r.push(((v >> 56) & 0xff) as u8);
    assert(r@ =~= u64_le(v));
    r
}

/// Append `n` bytes of `src`, starting at `from`, to the end of `dst`.
pub fn append_bytes(dst: &mut Vec<u8>, src: &Vec<u8>, from: usize, n: usize)
    requires
        from + n <= src@.len(),
        old(dst)@.len() + n <= usize::MAX,
    ensures
        final(dst)@ =~= old(dst)@ + src@.subrange(from as int, from + n),
{
    proof {
        vstd::std_specs::vec::axiom_spec_len(src);
    }
    let mut i: usize = 0;
    while i < n
        invariant
            i <= n,
            from + n <= src@.len(),
            src@.len() <= usize::MAX,
            old(dst)@.len() + n <= usize::MAX,
            dst@ =~= old(dst)@ + src@.subrange(from as int, from + i),
        decreases n - i,
    {
        let b = src[from + i];
        dst.push(b);
        i = i + 1;
        assert(dst@ =~= old(dst)@ + src@.subrange(from as int, from + i));
    }
}

/// Overwrite `n` bytes of `dst` at offset `at` with bytes of `src`
/// starting at `from`; everything else stays.
pub fn splice_bytes(dst: &mut Vec<u8>, at: usize, src: &Vec<u8>, from: usize, n: usize)
    requires
        at + n <= old(dst)@.len(),
        from + n <= src@.len(),
    ensures
        final(dst)@.len() == old(dst)@.len(),
        final(dst)@ =~= old(dst)@.subrange(0, at as int) + src@.subrange(from as int, from + n)
            + old(dst)@.skip(at + n),
{
    proof {
        vstd::std_specs::vec::axiom_spec_len(src);
        vstd::std_specs::vec::axiom_spec_len(dst);
    }
    let mut i: usize = 0;
    while i < n
        invariant
            i <= n,
            at + n <= dst@.len(),
            from + n <= src@.len(),
            src@.len() <= usize::MAX,
            dst@.len() <= usize::MAX,
            dst@.len() == old(dst)@.len(),
            forall|k: int| 0 <= k < at ==> dst@[k] == old(dst)@[k],
            forall|k: int| 0 <= k < i ==> #[trigger] dst@[at + k] == src@[from + k],
            forall|k: int| at + i <= k < dst@.len() ==> dst@[k] == old(dst)@[k],
        decreases n - i,
    {
        let b = src[from + i];
        dst.set(at + i, b);
        i = i + 1;
    }
    proof {
        let l = old(dst)@.subrange(0, at as int) + src@.subrange(from as int, from + n)
            + old(dst)@.skip(at + n);
        assert forall|j: int| 0 <= j < dst@.len() implies dst@[j] == l[j] by {
            if at <= j < at + n {
                assert(dst@[at + (j - at)] == src@[from + (j - at)]);
            }
        };
        assert(dst@ =~= l);
    }
}

/// A fresh vector holding the same bytes.
pub fn clone_bytes(v: &Vec<u8>) -> (r: Vec<u8>)
    ensures
        r@ == v@,
{
    proof {
        vstd::std_specs::vec::axiom_spec_len(v);
    }
    let mut r: Vec<u8> = Vec::new();
    let n = v.len();
    append_bytes(&mut r, v, 0, n);
    assert(v@.subrange(0, v@.len() as int) =~= v@);
    r
}

/// Whether two byte vectors hold the same bytes.
pub fn bytes_eq(a: &Vec<u8>, b: &Vec<u8>) -> (r: bool)
    ensures
        r == (a@ == b@),
{
    if a.len() != b.len() {
        return false;
    }
    let n = a.len();
    let mut i: usize = 0;
    while i < n
        invariant
            i <= n,
            n == a@.len(),
            n == b@.len(),
            forall|k: int| 0 <= k < i ==> a@[k] == b@[k],
        decreases n - i,
    {
        if a[i] != b[i] {
            return false;
        }
        i = i + 1;
    }
    proof {
        assert(a@ =~= b@);
    }
    true
}

/// Encoding the value decoded from eight bytes yields the bytes back.
pub proof fn lemma_u64_le_inverse(b: Seq<u8>)
    requires
        b.len() == 8,
    ensures
        u64_le(u64_from_le(b)) == b,
{
    let b0 = b[0];
    let b1 = b[1];
    let b2 = b[2];
    let b3 = b[3];
    let b4 = b[4];
    let b5 = b[5];
    let b6 = b[6];
    let b7 = b[7];
    let v = u64_from_le(b);
    assert(v == (b0 as u64) | ((b1 as u64) << 8) | ((b2 as u64) << 16) | ((b3 as u64) << 24)
        | ((b4 as u64) << 32) | ((b5 as u64) << 40) | ((b6 as u64) << 48) | ((b7 as u64) << 56));
    assert({
        let w = (b0 as u64) | ((b1 as u64) << 8) | ((b2 as u64) << 16) | ((b3 as u64) << 24)
            | ((b4 as u64) << 32) | ((b5 as u64) << 40) | ((b6 as u64) << 48) | ((b7 as u64) << 56);
        (w & 0xff) as u8 == b0 && ((w >> 8) & 0xff) as u8 == b1 && ((w >> 16) & 0xff) as u8 == b2
            && ((w >> 24) & 0xff) as u8 == b3 && ((w >> 32) & 0xff) as u8 == b4 && ((w >> 40)
            & 0xff) as u8 == b5 && ((w >> 48) & 0xff) as u8 == b6 && ((w >> 56) & 0xff) as u8 == b7
    }) by (bit_vector);
    assert(u64_le(v) =~= b);
}

/// Decode eight little-endian bytes, given as a slice of length 8.
pub fn u64_from_bytes(b: &[u8]) -> (r: u64)
    requires
        b@.len() == 8,
    ensures
        r == u64_from_le(b@),
{
    (b[0] as u64) | ((b[1] as u64) << 8) | ((b[2] as u64) << 16) | ((b[3] as u64) << 24)
        | ((b[4] as u64) << 32) | ((b[5] as u64) << 40) | ((b[6] as u64) << 48)
        | ((b[7] as u64) << 56)
}

} // verus!
