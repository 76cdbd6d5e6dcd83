//! Fixed-width integer encodings used by the wire and signing formats.
use vstd::prelude::*;

verus! {

/// The little-endian bytes of a `u64`.
pub open spec fn u64_le(x: u64) -> Seq<u8> {
    seq![
        x as u8, (x >> 8u64) as u8, (x >> 16u64) as u8, (x >> 24u64) as u8,
        (x >> 32u64) as u8, (x >> 40u64) as u8, (x >> 48u64) as u8, (x >> 56u64) as u8,
    ]
}

/// The little-endian bytes of a `u32`.
pub open spec fn u32_le(x: u32) -> Seq<u8> {
    seq![x as u8, (x >> 8u32) as u8, (x >> 16u32) as u8, (x >> 24u32) as u8]
}

/// The big-endian bytes of a `u32`.
pub open spec fn u32_be(x: u32) -> Seq<u8> {
    seq![(x >> 24u32) as u8, (x >> 16u32) as u8, (x >> 8u32) as u8, x as u8]
}

/// The `u32` whose little-endian bytes are `b[0..4]`.
pub open spec fn u32_from_le(b0: u8, b1: u8, b2: u8, b3: u8) -> u32 {
    (b0 as u32) | ((b1 as u32) << 8u32) | ((b2 as u32) << 16u32) | ((b3 as u32) << 24u32)
}

/// Decoding the little-endian bytes of a `u32` gives it back.
pub proof fn lemma_u32_le_roundtrip(x: u32)
    ensures
        u32_from_le(u32_le(x)[0], u32_le(x)[1], u32_le(x)[2], u32_le(x)[3]) == x,
{
    let b0 = x as u8;
    let b1 = (x >> 8u32) as u8;
    let b2 = (x >> 16u32) as u8;
    let b3 = (x >> 24u32) as u8;
    assert((b0 as u32) | ((b1 as u32) << 8u32) | ((b2 as u32) << 16u32) | ((b3 as u32) << 24u32) == x)
        by (bit_vector)
        requires
            b0 == x as u8,
            b1 == (x >> 8u32) as u8,
            b2 == (x >> 16u32) as u8,
            b3 == (x >> 24u32) as u8,
    ;
}

/// Appends `data` to `buf`.
pub fn extend_bytes(buf: &mut Vec<u8>, data: &[u8])
    ensures
        final(buf)@ == old(buf)@ + data@,
{
    buf.extend_from_slice(data);
    assert(buf@ =~= old(buf)@ + data@);
}

/// Appends the little-endian bytes of `x` to `buf`.
pub fn push_u64_le(buf: &mut Vec<u8>, x: u64)
    ensures
        final(buf)@ == old(buf)@ + u64_le(x),
{
    buf.push(x as u8);
    buf.push((x >> 8) as u8);
    buf.push((x >> 16) as u8);
    buf.push((x >> 24) as u8);
    buf.push((x >> 32) as u8);
    buf.push((x >> 40) as u8);
    buf.push((x >> 48) as u8);
    buf.push((x >> 56) as u8);
    assert(buf@ =~= old(buf)@ + u64_le(x));
}

/// Appends the little-endian bytes of `x` to `buf`.
pub fn push_u32_le(buf: &mut Vec<u8>, x: u32)
    ensures
        final(buf)@ == old(buf)@ + u32_le(x),
{
    buf.push(x as u8);
    buf.push((x >> 8) as u8);
    buf.push((x >> 16) as u8);
    buf.push((x >> 24) as u8);
    assert(buf@ =~= old(buf)@ + u32_le(x));
}

/// Appends the big-endian bytes of `x` to `buf`.
pub fn push_u32_be(buf: &mut Vec<u8>, x: u32)
    ensures
        final(buf)@ == old(buf)@ + u32_be(x),
{
    buf.push((x >> 24) as u8);
    buf.push((x >> 16) as u8);
    buf.push((x >> 8) as u8);
    buf.push(x as u8);
    assert(buf@ =~= old(buf)@ + u32_be(x));
}

/// Appends the first `n` bytes of `data` to `buf`.
pub fn extend_prefix(buf: &mut Vec<u8>, data: &[u8], n: usize)
    requires
        n <= data@.len(),
    ensures
        final(buf)@ == old(buf)@ + data@.subrange(0, n as int),
{
    let mut i: usize = 0;
    while i < n
        invariant
            i <= n,
            n <= data@.len(),
            buf@ == old(buf)@ + data@.subrange(0, i as int),
        decreases n - i,
    {
        buf.push(data[i]);
        assert(data@.subrange(0, i + 1) =~= data@.subrange(0, i as int).push(data@[i as int]));
        i = i + 1;
    }
}

/// Whether `a[a_from..a_from+n] == b[0..n]`.
pub fn bytes_match(a: &[u8], a_from: usize, b: &[u8], n: usize) -> (same: bool)
    requires
        a_from + n <= a@.len(),
        n <= b@.len(),
    ensures
        same == (a@.subrange(a_from as int, a_from + n) == b@.subrange(0, n as int)),
{
    let alen = a.len();
    let mut i: usize = 0;
    while i < n
        invariant
            i <= n,
            alen == a@.len(),
            a_from + n <= a@.len(),
            n <= b@.len(),
            forall|j: int| 0 <= j < i ==> a@[a_from + j] == b@[j],
        decreases n - i,
    {
        if a[a_from + i] != b[i] {
            assert(a@.subrange(a_from as int, a_from + n)[i as int] != b@.subrange(0, n as int)[i as int]);
            return false;
        }
        i = i + 1;
    }
    assert(a@.subrange(a_from as int, a_from + n) =~= b@.subrange(0, n as int));
    true
}

} // verus!
