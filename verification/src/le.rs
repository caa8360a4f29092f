//! Little-endian scalar codec: 16- and 32-bit values into and out of byte
//! buffers, with signed values carried in two's complement.

use vstd::prelude::*;

verus! {

/// The two's-complement 16-bit pattern of a signed value.
pub open spec fn spec_u16_of_i16(v: i16) -> int {
    if v >= 0 {
        v as int
    } else {
        v + 0x10000
    }
}

/// The two little-endian octets of a 16-bit pattern.
pub open spec fn spec_u16_le(u: int) -> Seq<u8> {
    seq![(u % 256) as u8, (u / 256 % 256) as u8]
}

/// The two little-endian octets of a signed 16-bit value.
pub open spec fn spec_i16_le(v: i16) -> Seq<u8> {
    spec_u16_le(spec_u16_of_i16(v))
}

/// The signed 16-bit value two little-endian octets stand for.
pub open spec fn spec_i16_from(b0: u8, b1: u8) -> i16 {
    if b0 + b1 * 256 < 0x8000 {
        (b0 + b1 * 256) as i16
    } else {
        (b0 + b1 * 256 - 0x10000) as i16
    }
}

/// The two's-complement 32-bit pattern of a signed value.
pub open spec fn spec_u32_of_i32(v: i32) -> int {
    if v >= 0 {
        v as int
    } else {
        v + 0x100000000
    }
}

/// The four little-endian octets of a 32-bit pattern.
pub open spec fn spec_u32_le(u: int) -> Seq<u8> {
    seq![
        (u % 256) as u8,
        (u / 256 % 256) as u8,
        (u / 0x10000 % 256) as u8,
        (u / 0x1000000 % 256) as u8,
    ]
}

/// The four little-endian octets of a signed 32-bit value.
pub open spec fn spec_i32_le(v: i32) -> Seq<u8> {
    spec_u32_le(spec_u32_of_i32(v))
}

/// The signed 32-bit value four little-endian octets stand for.
pub open spec fn spec_i32_from(b0: u8, b1: u8, b2: u8, b3: u8) -> i32 {
    let u = b0 + b1 * 256 + b2 * 0x10000 + b3 * 0x1000000;
    if u < 0x80000000 {
        u as i32
    } else {
        (u - 0x100000000) as i32
    }
}

/// The unsigned 32-bit value four little-endian octets stand for.
pub open spec fn spec_u32_from(b0: u8, b1: u8, b2: u8, b3: u8) -> u32 {
    (b0 + b1 * 256 + b2 * 0x10000 + b3 * 0x1000000) as u32
}

/// Append a signed 16-bit value, little-endian.
pub fn push_i16_le(buf: &mut Vec<u8>, v: i16)
    ensures
        final(buf)@ == old(buf)@ + spec_i16_le(v),
{
    let u: u32 = if v >= 0 {
        v as u32
    } else {
        (v as i32 + 0x10000) as u32
    };
    buf.push((u % 256) as u8);
    buf.push((u / 256 % 256) as u8);
    proof {
        assert(buf@ =~= old(buf)@ + spec_i16_le(v));
    }
}

/// Append an unsigned 16-bit value, little-endian.
pub fn push_u16_le(buf: &mut Vec<u8>, v: u16)
    ensures
        final(buf)@ == old(buf)@ + spec_u16_le(v as int),
{
    buf.push((v % 256) as u8);
    buf.push((v / 256) as u8);
    proof {
        assert(v / 256 % 256 == v / 256) by (nonlinear_arith);
        assert(buf@ =~= old(buf)@ + spec_u16_le(v as int));
    }
}

/// Append a signed 32-bit value, little-endian.
pub fn push_i32_le(buf: &mut Vec<u8>, v: i32)
    ensures
        final(buf)@ == old(buf)@ + spec_i32_le(v),
{
    let u: u64 = if v >= 0 {
        v as u64
    } else {
        (v as i64 + 0x100000000) as u64
    };
    buf.push((u % 256) as u8);
    buf.push((u / 256 % 256) as u8);
    buf.push((u / 0x10000 % 256) as u8);
    buf.push((u / 0x1000000 % 256) as u8);
    proof {
        assert((u as int) / 0x1000000 % 256 == (u as int) / 0x1000000) by (nonlinear_arith)
            requires u < 0x100000000,
        ;
        assert(buf@ =~= old(buf)@ + spec_i32_le(v));
    }
}

/// Append an unsigned 32-bit value, little-endian.
pub fn push_u32_le(buf: &mut Vec<u8>, v: u32)
    ensures
        final(buf)@ == old(buf)@ + spec_u32_le(v as int),
{
    buf.push((v % 256) as u8);
    buf.push((v / 256 % 256) as u8);
    buf.push((v / 0x10000 % 256) as u8);
    buf.push((v / 0x1000000 % 256) as u8);
    proof {
        assert((v as int) / 0x1000000 % 256 == (v as int) / 0x1000000) by (nonlinear_arith)
            requires v < 0x100000000,
        ;
        assert(buf@ =~= old(buf)@ + spec_u32_le(v as int));
    }
}

/// Read a signed 16-bit value at `pos`, little-endian.
pub fn read_i16_le(buf: &Vec<u8>, pos: usize) -> (r: i16)
    requires
        pos + 2 <= buf@.len(),
    ensures
        r == spec_i16_from(buf@[pos as int], buf@[pos + 1]),
{
    let n: usize = buf.len();
    let u: u32 = buf[pos] as u32 + buf[pos + 1] as u32 * 256;
    if u < 0x8000 {
        u as i16
    } else {
        (u as i32 - 0x10000) as i16
    }
}

/// Read a signed 32-bit value at `pos`, little-endian.
pub fn read_i32_le(buf: &Vec<u8>, pos: usize) -> (r: i32)
    requires
        pos + 4 <= buf@.len(),
    ensures
        r == spec_i32_from(buf@[pos as int], buf@[pos + 1], buf@[pos + 2], buf@[pos + 3]),
{
    let n: usize = buf.len();
    let u: u64 = buf[pos] as u64 + buf[pos + 1] as u64 * 256 + buf[pos + 2] as u64 * 0x10000
        + buf[pos + 3] as u64 * 0x1000000;
    if u < 0x80000000 {
        u as i32
    } else {
        (u as i64 - 0x100000000) as i32
    }
}

/// Read an unsigned 32-bit value at `pos`, little-endian.
pub fn read_u32_le(buf: &Vec<u8>, pos: usize) -> (r: u32)
    requires
        pos + 4 <= buf@.len(),
    ensures
        r == spec_u32_from(buf@[pos as int], buf@[pos + 1], buf@[pos + 2], buf@[pos + 3]),
{
    let n: usize = buf.len();
    buf[pos] as u32 + buf[pos + 1] as u32 * 256 + buf[pos + 2] as u32 * 0x10000 + buf[pos
        + 3] as u32 * 0x1000000
}

/// A signed 16-bit value survives the little-endian round trip.
pub proof fn lemma_i16_le_round_trip(v: i16)
    ensures
        spec_i16_from(spec_i16_le(v)[0], spec_i16_le(v)[1]) == v,
{
    let u = spec_u16_of_i16(v);
    assert(u % 256 + (u / 256 % 256) * 256 == u) by (nonlinear_arith)
        requires 0 <= u < 0x10000,
    ;
}

/// A signed 32-bit value survives the little-endian round trip.
pub proof fn lemma_i32_le_round_trip(v: i32)
    ensures
        spec_i32_from(
            spec_i32_le(v)[0],
            spec_i32_le(v)[1],
            spec_i32_le(v)[2],
            spec_i32_le(v)[3],
        ) == v,
{
    let u = spec_u32_of_i32(v);
    lemma_u32_le_join(u);
}

/// An unsigned 32-bit value survives the little-endian round trip.
pub proof fn lemma_u32_le_round_trip(v: u32)
    ensures
        spec_u32_from(
            spec_u32_le(v as int)[0],
            spec_u32_le(v as int)[1],
            spec_u32_le(v as int)[2],
            spec_u32_le(v as int)[3],
        ) == v,
{
    lemma_u32_le_join(v as int);
}

/// Joining the four little-endian octets of a 32-bit pattern restores it.
proof fn lemma_u32_le_join(u: int)
    requires
        0 <= u < 0x100000000,
    ensures
        spec_u32_le(u)[0] + spec_u32_le(u)[1] * 256 + spec_u32_le(u)[2] * 0x10000 + spec_u32_le(
            u,
        )[3] * 0x1000000 == u,
{
    assert(u % 256 + (u / 256 % 256) * 256 + (u / 0x10000 % 256) * 0x10000 + (u / 0x1000000 % 256)
        * 0x1000000 == u) by (nonlinear_arith)
        requires 0 <= u < 0x100000000,
    ;
}

} // verus!
