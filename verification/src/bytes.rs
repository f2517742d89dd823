//! Little-endian encoding of pointer-sized words, and small helpers over
//! byte vectors that the patcher and scanner share.

use vstd::prelude::*;

verus! {

/// Byte `i` of the 8-byte little-endian encoding of `v`.
pub open spec fn le_byte(v: u64, i: int) -> u8
    recommends
        0 <= i < 8,
{
    ((v >> ((8 * i) as u64)) & 0xff) as u8
}

/// The 8-byte little-endian encoding of `v`, least significant byte first.
pub open spec fn u64_le_bytes(v: u64) -> Seq<u8> {
    Seq::new(8, |i: int| le_byte(v, i))
}

/// Two words with the same little-endian encoding are the same word.
pub proof fn lemma_le_bytes_injective(a: u64, b: u64)
    requires
        u64_le_bytes(a) == u64_le_bytes(b),
    ensures
        a == b,
{
    assert forall|i: int| 0 <= i < 8 implies #[trigger] le_byte(a, i) == le_byte(b, i) by {
        assert(u64_le_bytes(a)[i] == le_byte(a, i));
        assert(u64_le_bytes(b)[i] == le_byte(b, i));
        assert(u64_le_bytes(a)[i] == u64_le_bytes(b)[i]);
    }
    assert(le_byte(a, 0) == le_byte(b, 0));
    assert(le_byte(a, 1) == le_byte(b, 1));
    assert(le_byte(a, 2) == le_byte(b, 2));
    assert(le_byte(a, 3) == le_byte(b, 3));
    assert(le_byte(a, 4) == le_byte(b, 4));
    assert(le_byte(a, 5) == le_byte(b, 5));
    assert(le_byte(a, 6) == le_byte(b, 6));
    assert(le_byte(a, 7) == le_byte(b, 7));
    assert(a == b) by (bit_vector)
        requires
            ((a >> 0u64) & 0xff) as u8 == ((b >> 0u64) & 0xff) as u8,
            ((a >> 8u64) & 0xff) as u8 == ((b >> 8u64) & 0xff) as u8,
            ((a >> 16u64) & 0xff) as u8 == ((b >> 16u64) & 0xff) as u8,
            ((a >> 24u64) & 0xff) as u8 == ((b >> 24u64) & 0xff) as u8,
            ((a >> 32u64) & 0xff) as u8 == ((b >> 32u64) & 0xff) as u8,
            ((a >> 40u64) & 0xff) as u8 == ((b >> 40u64) & 0xff) as u8,
            ((a >> 48u64) & 0xff) as u8 == ((b >> 48u64) & 0xff) as u8,
            ((a >> 56u64) & 0xff) as u8 == ((b >> 56u64) & 0xff) as u8,
    ;
}

/// Appends the 8-byte little-endian encoding of `v` to `out`.
pub fn push_u64_le(out: &mut Vec<u8>, v: u64)
    ensures
        final(out)@ == old(out)@ + u64_le_bytes(v),
{
    let mut i: usize = 0;
    while i < 8
        invariant
            i <= 8,
            out@.len() == old(out)@.len() + i,
            out@.subrange(0, old(out)@.len() as int) == old(out)@,
            forall|j: int| 0 <= j < i ==> out@[old(out)@.len() + j] == le_byte(v, j),
        decreases 8 - i,
    {
        let shift: u64 = 8 * (i as u64);
        let b: u8 = ((v >> shift) & 0xff) as u8;
        assert(b == le_byte(v, i as int));
        out.push(b);
        assert(out@.subrange(0, old(out)@.len() as int) =~= old(out)@);
        i = i + 1;
    }
    assert(out@ =~= old(out)@ + u64_le_bytes(v));
}

/// The 8-byte little-endian encoding of `v` as a fresh vector.
pub fn u64_to_le_bytes(v: u64) -> (r: Vec<u8>)
    ensures
        r@ == u64_le_bytes(v),
{
    let mut out: Vec<u8> = Vec::new();
    push_u64_le(&mut out, v);
    assert(out@ =~= u64_le_bytes(v));
    out
}

/// Reads the word whose little-endian encoding sits at `offset` in `bytes`.
pub fn read_u64_le(bytes: &Vec<u8>, offset: usize) -> (r: u64)
    requires
        offset + 8 <= bytes@.len(),
    ensures
        u64_le_bytes(r) == bytes@.subrange(offset as int, offset as int + 8),
{
    let n: usize = bytes.len();
    let b0 = bytes[offset];
    let b1 = bytes[offset + 1];
    let b2 = bytes[offset + 2];
    let b3 = bytes[offset + 3];
    let b4 = bytes[offset + 4];
    let b5 = bytes[offset + 5];
    let b6 = bytes[offset + 6];
    let b7 = bytes[offset + 7];
    let r: u64 = (b0 as u64) | ((b1 as u64) << 8u64) | ((b2 as u64) << 16u64) | ((b3 as u64)
        << 24u64) | ((b4 as u64) << 32u64) | ((b5 as u64) << 40u64) | ((b6 as u64) << 48u64) | ((
    b7 as u64) << 56u64);
    proof {
        assert(((r >> 0u64) & 0xff) as u8 == b0 && ((r >> 8u64) & 0xff) as u8 == b1 && ((r
            >> 16u64) & 0xff) as u8 == b2 && ((r >> 24u64) & 0xff) as u8 == b3 && ((r >> 32u64)
            & 0xff) as u8 == b4 && ((r >> 40u64) & 0xff) as u8 == b5 && ((r >> 48u64) & 0xff) as u8
            == b6 && ((r >> 56u64) & 0xff) as u8 == b7) by (bit_vector)
            requires
                r == (b0 as u64) | ((b1 as u64) << 8u64) | ((b2 as u64) << 16u64) | ((b3 as u64)
                    << 24u64) | ((b4 as u64) << 32u64) | ((b5 as u64) << 40u64) | ((b6 as u64)
                    << 48u64) | ((b7 as u64) << 56u64),
        ;
        assert(u64_le_bytes(r) =~= bytes@.subrange(offset as int, offset as int + 8));
    }
    r
}

/// Byte `i` of the 4-byte little-endian encoding of `v`.
pub open spec fn le_byte32(v: u32, i: int) -> u8
    recommends
        0 <= i < 4,
{
    ((v >> ((8 * i) as u32)) & 0xff) as u8
}

/// The 4-byte little-endian encoding of `v`, least significant byte first.
pub open spec fn u32_le_bytes(v: u32) -> Seq<u8> {
    Seq::new(4, |i: int| le_byte32(v, i))
}

/// Reads the 32-bit word whose little-endian encoding sits at `offset`.
pub fn read_u32_le(bytes: &Vec<u8>, offset: usize) -> (r: u32)
    requires
        offset + 4 <= bytes@.len(),
    ensures
        u32_le_bytes(r) == bytes@.subrange(offset as int, offset as int + 4),
{
    let n: usize = bytes.len();
    let b0 = bytes[offset];
    let b1 = bytes[offset + 1];
    let b2 = bytes[offset + 2];
    let b3 = bytes[offset + 3];
    let r: u32 = (b0 as u32) | ((b1 as u32) << 8u32) | ((b2 as u32) << 16u32) | ((b3 as u32)
        << 24u32);
    proof {
        assert(((r >> 0u32) & 0xff) as u8 == b0 && ((r >> 8u32) & 0xff) as u8 == b1 && ((r
            >> 16u32) & 0xff) as u8 == b2 && ((r >> 24u32) & 0xff) as u8 == b3) by (bit_vector)
            requires
                r == (b0 as u32) | ((b1 as u32) << 8u32) | ((b2 as u32) << 16u32) | ((b3 as u32)
                    << 24u32),
        ;
        assert(u32_le_bytes(r) =~= bytes@.subrange(offset as int, offset as int + 4));
    }
    r
}

/// Appends every byte of `src` to `dst`, in order.
pub fn push_all(dst: &mut Vec<u8>, src: &Vec<u8>)
    ensures
        final(dst)@ == old(dst)@ + src@,
{
    let mut i: usize = 0;
    while i < src.len()
        invariant
            i <= src@.len(),
            dst@ == old(dst)@ + src@.subrange(0, i as int),
        decreases src@.len() - i,
    {
        dst.push(src[i]);
        assert(old(dst)@ + src@.subrange(0, i as int) + seq![src@[i as int]] =~= old(dst)@
            + src@.subrange(0, i as int + 1));
        i = i + 1;
    }
    assert(src@.subrange(0, src@.len() as int) =~= src@);
}

/// Appends `count` copies of `b` to `dst`.
pub fn push_repeated(dst: &mut Vec<u8>, b: u8, count: usize)
    ensures
        final(dst)@.len() == old(dst)@.len() + count,
        final(dst)@.subrange(0, old(dst)@.len() as int) == old(dst)@,
        forall|j: int| old(dst)@.len() <= j < final(dst)@.len() ==> final(dst)@[j] == b,
{
    let mut i: usize = 0;
    while i < count
        invariant
            i <= count,
            dst@.len() == old(dst)@.len() + i,
            dst@.subrange(0, old(dst)@.len() as int) == old(dst)@,
            forall|j: int| old(dst)@.len() <= j < dst@.len() ==> dst@[j] == b,
        decreases count - i,
    {
        dst.push(b);
        assert(dst@.subrange(0, old(dst)@.len() as int) =~= old(dst)@);
        i = i + 1;
    }
}

/// True exactly when `a` and `b` hold the same bytes.
pub fn bytes_eq(a: &Vec<u8>, b: &Vec<u8>) -> (r: bool)
    ensures
        r <==> a@ == b@,
{
    if a.len() != b.len() {
        return false;
    }
    let eq = bytes_eq_at(a, 0, b);
    proof {
        if a@.subrange(0, b@.len() as int) == b@ {
            assert(a@ =~= b@);
        }
        if a@ == b@ {
            assert(a@.subrange(0, b@.len() as int) =~= b@);
        }
    }
    eq
}

/// True exactly when the bytes of `pat` appear in `hay` starting at `off`.
pub fn bytes_eq_at(hay: &Vec<u8>, off: usize, pat: &Vec<u8>) -> (r: bool)
    requires
        off + pat@.len() <= hay@.len(),
    ensures
        r <==> hay@.subrange(off as int, off as int + pat@.len() as int) == pat@,
{
    let hay_len: usize = hay.len();
    let mut i: usize = 0;
    while i < pat.len()
        invariant
            i <= pat@.len(),
            off + pat@.len() <= hay@.len(),
            hay@.len() == hay_len,
            forall|j: int| 0 <= j < i ==> hay@[off + j] == pat@[j],
        decreases pat@.len() - i,
    {
        if hay[off + i] != pat[i] {
            assert(hay@.subrange(off as int, off as int + pat@.len() as int)[i as int] != pat@[i as int]);
            return false;
        }
        i = i + 1;
    }
    assert(hay@.subrange(off as int, off as int + pat@.len() as int) =~= pat@);
    true
}

} // verus!
