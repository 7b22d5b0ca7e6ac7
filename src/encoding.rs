//! The byte encoding that block identities are hashed over: integers in
//! little-endian order, sequence lengths as variable-length integers.
use vstd::prelude::*;

verus! {

pub open spec fn le_u16(x: u16) -> Seq<u8> {
    seq![x as u8, (x >> 8u16) as u8]
}

pub open spec fn le_u32(x: u32) -> Seq<u8> {
    seq![x as u8, (x >> 8u32) as u8, (x >> 16u32) as u8, (x >> 24u32) as u8]
}

pub open spec fn le_u64(x: u64) -> Seq<u8> {
    seq![
        x as u8,
        (x >> 8u64) as u8,
        (x >> 16u64) as u8,
        (x >> 24u64) as u8,
        (x >> 32u64) as u8,
        (x >> 40u64) as u8,
        (x >> 48u64) as u8,
        (x >> 56u64) as u8,
    ]
}

/// A length prefix: one byte below 0xfd, else a marker byte followed by the
/// value in two, four or eight bytes.
pub open spec fn varint(n: u64) -> Seq<u8> {
    if n < 0xfd {
        seq![n as u8]
    } else if n <= 0xffff {
        seq![0xfdu8] + le_u16(n as u16)
    } else if n <= 0xffff_ffff {
        seq![0xfeu8] + le_u32(n as u32)
    } else {
        seq![0xffu8] + le_u64(n)
    }
}

/// The pieces of `s` written one after another.
pub open spec fn flatten(s: Seq<Seq<u8>>) -> Seq<u8>
    decreases s.len(),
{
    if s.len() == 0 {
        Seq::empty()
    } else {
        flatten(s.drop_last()) + s.last()
    }
}

/// A sequence of digests: its length, then each digest's bytes.
pub open spec fn encode_digests(hs: Seq<Seq<u8>>) -> Seq<u8> {
    varint(hs.len() as u64) + flatten(hs)
}

pub fn push_u16(out: &mut Vec<u8>, x: u16)
    ensures
        final(out)@ == old(out)@ + le_u16(x),
{
    out.push(x as u8);
    out.push((x >> 8u16) as u8);
    assert(final(out)@ =~= old(out)@ + le_u16(x));
}

pub fn push_u32(out: &mut Vec<u8>, x: u32)
    ensures
        final(out)@ == old(out)@ + le_u32(x),
{
    out.push(x as u8);
    out.push((x >> 8u32) as u8);
    out.push((x >> 16u32) as u8);
    out.push((x >> 24u32) as u8);
    assert(final(out)@ =~= old(out)@ + le_u32(x));
}

pub fn push_u64(out: &mut Vec<u8>, x: u64)
    ensures
        final(out)@ == old(out)@ + le_u64(x),
{
    out.push(x as u8);
    out.push((x >> 8u64) as u8);
    out.push((x >> 16u64) as u8);
    out.push((x >> 24u64) as u8);
    out.push((x >> 32u64) as u8);
    out.push((x >> 40u64) as u8);
    out.push((x >> 48u64) as u8);
    out.push((x >> 56u64) as u8);
    assert(final(out)@ =~= old(out)@ + le_u64(x));
}

pub fn push_varint(out: &mut Vec<u8>, n: u64)
    ensures
        final(out)@ == old(out)@ + varint(n),
{
    if n < 0xfd {
        out.push(n as u8);
        assert(final(out)@ =~= old(out)@ + varint(n));
    } else if n <= 0xffff {
        out.push(0xfdu8);
        push_u16(out, n as u16);
        assert(final(out)@ =~= old(out)@ + varint(n));
    } else if n <= 0xffff_ffff {
        out.push(0xfeu8);
        push_u32(out, n as u32);
        assert(final(out)@ =~= old(out)@ + varint(n));
    } else {
        out.push(0xffu8);
        push_u64(out, n);
        assert(final(out)@ =~= old(out)@ + varint(n));
    }
}

pub fn push_digest(out: &mut Vec<u8>, h: &[u8; 32])
    ensures
        final(out)@ == old(out)@ + h@,
{
    let ghost start = out@;
    let mut i: usize = 0;
    while i < 32
        invariant
            0 <= i <= 32,
            out@ == start + h@.subrange(0, i as int),
        decreases 32 - i,
    {
        out.push(h[i]);
        assert(h@.subrange(0, i + 1) =~= h@.subrange(0, i as int).push(h@[i as int]));
        i = i + 1;
    }
    assert(h@.subrange(0, 32) =~= h@);
}

/// Writes a length-prefixed sequence of digests.
pub fn push_digests(out: &mut Vec<u8>, hs: &Vec<[u8; 32]>)
    ensures
        final(out)@ == old(out)@ + encode_digests(hs@.map_values(|h: [u8; 32]| h@)),
{
    let ghost views = hs@.map_values(|h: [u8; 32]| h@);
    push_varint(out, hs.len() as u64);
    let ghost start = out@;
    let mut i: usize = 0;
    while i < hs.len()
        invariant
            0 <= i <= hs.len(),
            views == hs@.map_values(|h: [u8; 32]| h@),
            out@ == start + flatten(views.subrange(0, i as int)),
        decreases hs.len() - i,
    {
        push_digest(out, &hs[i]);
        assert(views.subrange(0, i + 1).drop_last() =~= views.subrange(0, i as int));
        assert(out@ =~= start + flatten(views.subrange(0, i + 1)));
        i = i + 1;
    }
    assert(views.subrange(0, hs.len() as int) =~= views);
    assert(final(out)@ =~= old(out)@ + encode_digests(views));
}

/// Different integers have different little-endian bytes.
pub proof fn lemma_le_u16_injective(x: u16, y: u16)
    requires
        le_u16(x) == le_u16(y),
    ensures
        x == y,
{
    assert(le_u16(x)[0] == le_u16(y)[0] && le_u16(x)[1] == le_u16(y)[1]);
    assert((x as u8 == y as u8 && (x >> 8u16) as u8 == (y >> 8u16) as u8) ==> x == y)
        by (bit_vector);
}

/// Different integers have different little-endian bytes.
pub proof fn lemma_le_u32_injective(x: u32, y: u32)
    requires
        le_u32(x) == le_u32(y),
    ensures
        x == y,
{
    assert(le_u32(x)[0] == le_u32(y)[0] && le_u32(x)[1] == le_u32(y)[1]);
    assert(le_u32(x)[2] == le_u32(y)[2] && le_u32(x)[3] == le_u32(y)[3]);
    assert((x as u8 == y as u8 && (x >> 8u32) as u8 == (y >> 8u32) as u8 && (x >> 16u32) as u8
        == (y >> 16u32) as u8 && (x >> 24u32) as u8 == (y >> 24u32) as u8) ==> x == y)
        by (bit_vector);
}

/// Different integers have different little-endian bytes.
pub proof fn lemma_le_u64_injective(x: u64, y: u64)
    requires
        le_u64(x) == le_u64(y),
    ensures
        x == y,
{
    assert(le_u64(x)[0] == le_u64(y)[0] && le_u64(x)[1] == le_u64(y)[1]);
    assert(le_u64(x)[2] == le_u64(y)[2] && le_u64(x)[3] == le_u64(y)[3]);
    assert(le_u64(x)[4] == le_u64(y)[4] && le_u64(x)[5] == le_u64(y)[5]);
    assert(le_u64(x)[6] == le_u64(y)[6] && le_u64(x)[7] == le_u64(y)[7]);
    assert((x as u8 == y as u8 && (x >> 8u64) as u8 == (y >> 8u64) as u8 && (x >> 16u64) as u8
        == (y >> 16u64) as u8 && (x >> 24u64) as u8 == (y >> 24u64) as u8 && (x >> 32u64) as u8
        == (y >> 32u64) as u8 && (x >> 40u64) as u8 == (y >> 40u64) as u8 && (x >> 48u64) as u8
        == (y >> 48u64) as u8 && (x >> 56u64) as u8 == (y >> 56u64) as u8) ==> x == y)
        by (bit_vector);
}

/// The first byte of a length prefix tells how long the prefix is.
pub proof fn lemma_varint_len(n: u64)
    ensures
        varint(n).len() == (if varint(n)[0] < 0xfd {
            1int
        } else if varint(n)[0] == 0xfd {
            3int
        } else if varint(n)[0] == 0xfe {
            5int
        } else {
            9int
        }),
{
    if n < 0xfd {
        assert((n < 0xfd) ==> ((n as u8) < 0xfdu8)) by (bit_vector);
    }
}

/// Different lengths have different prefixes.
pub proof fn lemma_varint_injective(m: u64, n: u64)
    requires
        varint(m) == varint(n),
    ensures
        m == n,
{
    lemma_varint_len(m);
    lemma_varint_len(n);
    let v = varint(m);
    if m < 0xfd {
        assert((m < 0xfd) ==> (m as u8) as u64 == m) by (bit_vector);
        assert((n < 0xfd) ==> (n as u8) as u64 == n) by (bit_vector);
    } else if m <= 0xffff {
        assert(v.subrange(1, 3) =~= le_u16(m as u16));
        assert(varint(n).subrange(1, 3) =~= le_u16(n as u16));
        lemma_le_u16_injective(m as u16, n as u16);
        assert((m <= 0xffff && n <= 0xffff && m as u16 == n as u16) ==> m == n) by (bit_vector);
    } else if m <= 0xffff_ffff {
        assert(v.subrange(1, 5) =~= le_u32(m as u32));
        assert(varint(n).subrange(1, 5) =~= le_u32(n as u32));
        lemma_le_u32_injective(m as u32, n as u32);
        assert((m <= 0xffff_ffff && n <= 0xffff_ffff && m as u32 == n as u32) ==> m == n)
            by (bit_vector);
    } else {
        assert(v.subrange(1, 9) =~= le_u64(m));
        assert(varint(n).subrange(1, 9) =~= le_u64(n));
        lemma_le_u64_injective(m, n);
    }
}

/// Pieces of 32 bytes each lie one after another in their flattening.
pub proof fn lemma_flatten_digests(s: Seq<Seq<u8>>)
    requires
        forall|i: int| 0 <= i < s.len() ==> (#[trigger] s[i]).len() == 32,
    ensures
        flatten(s).len() == 32 * s.len(),
        forall|i: int, k: int|
            0 <= i < s.len() && 0 <= k < 32 ==> flatten(s)[32 * i + k] == #[trigger] s[i][k],
    decreases s.len(),
{
    if s.len() > 0 {
        let init = s.drop_last();
        lemma_flatten_digests(init);
        assert forall|i: int, k: int|
            0 <= i < s.len() && 0 <= k < 32 implies flatten(s)[32 * i + k] == #[trigger] s[i][k] by {
            if i < s.len() - 1 {
                assert(init[i] == s[i]);
            }
        }
    }
}

/// Two sequences of 32-byte digests with the same flattening, and as many
/// pieces each, are the same.
pub proof fn lemma_flatten_digests_injective(a: Seq<Seq<u8>>, b: Seq<Seq<u8>>)
    requires
        a.len() == b.len(),
        forall|i: int| 0 <= i < a.len() ==> (#[trigger] a[i]).len() == 32,
        forall|i: int| 0 <= i < b.len() ==> (#[trigger] b[i]).len() == 32,
        flatten(a) == flatten(b),
    ensures
        a == b,
{
    lemma_flatten_digests(a);
    lemma_flatten_digests(b);
    assert forall|i: int| 0 <= i < a.len() implies a[i] == b[i] by {
        assert forall|k: int| 0 <= k < 32 implies a[i][k] == b[i][k] by {
            assert(flatten(a)[32 * i + k] == a[i][k]);
            assert(flatten(b)[32 * i + k] == b[i][k]);
        }
        assert(a[i] =~= b[i]);
    }
    assert(a =~= b);
}

} // verus!
