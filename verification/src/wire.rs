//! Big-endian byte-level primitives for the wire format.
//!
//! Every multi-byte integer on the wire is big-endian.  Signed fields are
//! carried as their two's-complement unsigned image, so the byte layout is
//! defined once, over `u32`/`u64`, and the signed view is a separate,
//! invertible mapping.

use vstd::prelude::*;

verus! {

/// The four bytes of `v`, most significant first.
pub open spec fn be32(v: u32) -> Seq<u8> {
    seq![
        ((v >> 24) & 0xff) as u8,
        ((v >> 16) & 0xff) as u8,
        ((v >> 8) & 0xff) as u8,
        (v & 0xff) as u8,
    ]
}

/// The eight bytes of `v`, most significant first.
pub open spec fn be64(v: u64) -> Seq<u8> {
    seq![
        ((v >> 56) & 0xff) as u8,
        ((v >> 48) & 0xff) as u8,
        ((v >> 40) & 0xff) as u8,
        ((v >> 32) & 0xff) as u8,
        ((v >> 24) & 0xff) as u8,
        ((v >> 16) & 0xff) as u8,
        ((v >> 8) & 0xff) as u8,
        (v & 0xff) as u8,
    ]
}

/// The value of four big-endian bytes.
pub open spec fn be32_val(s: Seq<u8>) -> u32
    recommends
        s.len() == 4,
{
    ((s[0] as u32) << 24) | ((s[1] as u32) << 16) | ((s[2] as u32) << 8) | (s[3] as u32)
}

/// The value of eight big-endian bytes.
pub open spec fn be64_val(s: Seq<u8>) -> u64
    recommends
        s.len() == 8,
{
    ((s[0] as u64) << 56) | ((s[1] as u64) << 48) | ((s[2] as u64) << 40) | ((s[3] as u64) << 32)
        | ((s[4] as u64) << 24) | ((s[5] as u64) << 16) | ((s[6] as u64) << 8) | (s[7] as u64)
}

/// Reading back the four bytes of `v` yields `v`.
pub proof fn lemma_be32_roundtrip(v: u32)
    ensures
        be32_val(be32(v)) == v,
{
    assert((v >> 24) & 0xff < 256 && (v >> 16) & 0xff < 256 && (v >> 8) & 0xff < 256 && v & 0xff
        < 256) by (bit_vector);
    assert((((v >> 24) & 0xff) << 24) | (((v >> 16) & 0xff) << 16) | (((v >> 8) & 0xff) << 8) | (
    v & 0xff) == v) by (bit_vector);
}

/// Reading back the eight bytes of `v` yields `v`.
pub proof fn lemma_be64_roundtrip(v: u64)
    ensures
        be64_val(be64(v)) == v,
{
    assert((v >> 56) & 0xff < 256 && (v >> 48) & 0xff < 256 && (v >> 40) & 0xff < 256 && (v >> 32)
        & 0xff < 256 && (v >> 24) & 0xff < 256 && (v >> 16) & 0xff < 256 && (v >> 8) & 0xff < 256
        && v & 0xff < 256) by (bit_vector);
    assert((((v >> 56) & 0xff) << 56) | (((v >> 48) & 0xff) << 48) | (((v >> 40) & 0xff) << 40) | (
    ((v >> 32) & 0xff) << 32) | (((v >> 24) & 0xff) << 24) | (((v >> 16) & 0xff) << 16) | (((v
        >> 8) & 0xff) << 8) | (v & 0xff) == v) by (bit_vector);
}

/// Two's-complement image of a signed 32-bit value.
pub open spec fn i32_to_wire(v: i32) -> u32 {
    if v >= 0 {
        v as u32
    } else {
        (v + 0x1_0000_0000) as u32
    }
}

/// Signed reading of a 32-bit wire value.
pub open spec fn wire_to_i32(u: u32) -> i32 {
    if u < 0x8000_0000 {
        u as i32
    } else {
        (u - 0x1_0000_0000) as i32
    }
}

/// Two's-complement image of a signed 64-bit value.
pub open spec fn i64_to_wire(v: i64) -> u64 {
    if v >= 0 {
        v as u64
    } else {
        (v + 0x1_0000_0000_0000_0000) as u64
    }
}

/// Signed reading of a 64-bit wire value.
pub open spec fn wire_to_i64(u: u64) -> i64 {
    if u < 0x8000_0000_0000_0000 {
        u as i64
    } else {
        (u - 0x1_0000_0000_0000_0000) as i64
    }
}

/// The signed reading inverts the two's-complement image.
pub proof fn lemma_i32_wire_roundtrip(v: i32)
    ensures
        wire_to_i32(i32_to_wire(v)) == v,
{
}

/// The signed reading inverts the two's-complement image.
pub proof fn lemma_i64_wire_roundtrip(v: i64)
    ensures
        wire_to_i64(i64_to_wire(v)) == v,
{
}

/// Executable counterpart of `i32_to_wire`.
pub fn i32_to_u32(v: i32) -> (r: u32)
    ensures
        r == i32_to_wire(v),
{
    if v >= 0 {
        v as u32
    } else {
        ((v as i64) + 0x1_0000_0000i64) as u32
    }
}

/// Executable counterpart of `wire_to_i32`.
pub fn u32_to_i32(u: u32) -> (r: i32)
    ensures
        r == wire_to_i32(u),
{
    if u < 0x8000_0000 {
        u as i32
    } else {
        ((u as i64) - 0x1_0000_0000i64) as i32
    }
}

/// Executable counterpart of `i64_to_wire`.
pub fn i64_to_u64(v: i64) -> (r: u64)
    ensures
        r == i64_to_wire(v),
{
    if v >= 0 {
        v as u64
    } else {
        ((v as i128) + 0x1_0000_0000_0000_0000i128) as u64
    }
}

/// Executable counterpart of `wire_to_i64`.
pub fn u64_to_i64(u: u64) -> (r: i64)
    ensures
        r == wire_to_i64(u),
{
    if u < 0x8000_0000_0000_0000 {
        u as i64
    } else {
        ((u as i128) - 0x1_0000_0000_0000_0000i128) as i64
    }
}

/// Appends the four big-endian bytes of `v`.
pub fn push_u32_be(buf: &mut Vec<u8>, v: u32)
    ensures
        final(buf)@ == old(buf)@ + be32(v),
{
    proof {
        assert((v >> 24) & 0xff < 256 && (v >> 16) & 0xff < 256 && (v >> 8) & 0xff < 256 && v
            & 0xff < 256) by (bit_vector);
    }
    buf.push(((v >> 24) & 0xff) as u8);
    buf.push(((v >> 16) & 0xff) as u8);
    buf.push(((v >> 8) & 0xff) as u8);
    buf.push((v & 0xff) as u8);
    assert(buf@ =~= old(buf)@ + be32(v));
}

/// Appends the eight big-endian bytes of `v`.
pub fn push_u64_be(buf: &mut Vec<u8>, v: u64)
    ensures
        final(buf)@ == old(buf)@ + be64(v),
{
    proof {
        assert((v >> 56) & 0xff < 256 && (v >> 48) & 0xff < 256 && (v >> 40) & 0xff < 256 && (v
            >> 32) & 0xff < 256 && (v >> 24) & 0xff < 256 && (v >> 16) & 0xff < 256 && (v >> 8)
            & 0xff < 256 && v & 0xff < 256) by (bit_vector);
    }
    buf.push(((v >> 56) & 0xff) as u8);
    buf.push(((v >> 48) & 0xff) as u8);
    buf.push(((v >> 40) & 0xff) as u8);
    buf.push(((v >> 32) & 0xff) as u8);
    buf.push(((v >> 24) & 0xff) as u8);
    buf.push(((v >> 16) & 0xff) as u8);
    buf.push(((v >> 8) & 0xff) as u8);
    buf.push((v & 0xff) as u8);
    assert(buf@ =~= old(buf)@ + be64(v));
}

/// Appends all of `src` to `dst`.
pub fn push_bytes(dst: &mut Vec<u8>, src: &Vec<u8>)
    ensures
        final(dst)@ == old(dst)@ + src@,
{
    let mut i: usize = 0;
    while i < src.len()
        invariant
            i <= src@.len(),
            dst@ == old(dst)@ + src@.take(i as int),
        decreases src@.len() - i,
    {
        dst.push(src[i]);
        assert(dst@ =~= old(dst)@ + src@.take(i as int + 1));
        i = i + 1;
    }
    assert(dst@ =~= old(dst)@ + src@);
}

/// Copies the bytes of `src` from `from` (inclusive) to `to` (exclusive).
pub fn copy_range(src: &Vec<u8>, from: usize, to: usize) -> (r: Vec<u8>)
    requires
        from <= to <= src@.len(),
    ensures
        r@ == src@.subrange(from as int, to as int),
{
    let mut r: Vec<u8> = Vec::new();
    let mut i: usize = from;
    while i < to
        invariant
            from <= i <= to <= src@.len(),
            r@ == src@.subrange(from as int, i as int),
        decreases to - i,
    {
        r.push(src[i]);
        assert(r@ =~= src@.subrange(from as int, i as int + 1));
        i = i + 1;
    }
    r
}

/// Reads four big-endian bytes starting at `at`.
pub fn read_u32_be(buf: &Vec<u8>, at: usize) -> (r: u32)
    requires
        at + 4 <= buf@.len(),
    ensures
        r == be32_val(buf@.subrange(at as int, at as int + 4)),
{
    let n = buf.len();
    let r = ((buf[at] as u32) << 24) | ((buf[at + 1] as u32) << 16) | ((buf[at + 2] as u32) << 8)
        | (buf[at + 3] as u32);
    proof {
        let s = buf@.subrange(at as int, at as int + 4);
        assert(s[0] == buf@[at as int] && s[1] == buf@[at as int + 1] && s[2] == buf@[at as int + 2]
            && s[3] == buf@[at as int + 3]);
    }
    r
}

/// Reads eight big-endian bytes starting at `at`.
pub fn read_u64_be(buf: &Vec<u8>, at: usize) -> (r: u64)
    requires
        at + 8 <= buf@.len(),
    ensures
        r == be64_val(buf@.subrange(at as int, at as int + 8)),
{
    let n = buf.len();
    let r = ((buf[at] as u64) << 56) | ((buf[at + 1] as u64) << 48) | ((buf[at + 2] as u64) << 40)
        | ((buf[at + 3] as u64) << 32) | ((buf[at + 4] as u64) << 24) | ((buf[at + 5] as u64) << 16)
        | ((buf[at + 6] as u64) << 8) | (buf[at + 7] as u64);
    proof {
        let s = buf@.subrange(at as int, at as int + 8);
        assert(s[0] == buf@[at as int] && s[1] == buf@[at as int + 1] && s[2] == buf@[at as int + 2]
            && s[3] == buf@[at as int + 3] && s[4] == buf@[at as int + 4] && s[5] == buf@[at as int
            + 5] && s[6] == buf@[at as int + 6] && s[7] == buf@[at as int + 7]);
    }
    r
}

} // verus!
