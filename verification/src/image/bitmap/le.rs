//! Little-endian integers, as bitmap files store them.
use vstd::prelude::*;

use crate::bits::{be_i32, be_u32};
use vstd::arithmetic::div_mod::lemma_fundamental_div_mod_converse;

verus! {

/// The `u32` stored at `off`, least significant byte first.
pub open spec fn le_u32_at(b: Seq<u8>, off: int) -> int {
    be_u32(b[off + 3], b[off + 2], b[off + 1], b[off])
}

/// The `i32` (two's complement) stored at `off`, least significant byte first.
pub open spec fn le_i32_at(b: Seq<u8>, off: int) -> int {
    be_i32(b[off + 3], b[off + 2], b[off + 1], b[off])
}

/// The `u16` stored at `off`, least significant byte first.
pub open spec fn le_u16_at(b: Seq<u8>, off: int) -> int {
    b[off + 1] as int * 256 + b[off] as int
}

/// The four bytes of `v` (in `0..2^32`), least significant first.
pub open spec fn le_u32_bytes(v: int) -> Seq<u8> {
    seq![
        (v % 256) as u8,
        ((v / 256) % 256) as u8,
        ((v / 65536) % 256) as u8,
        ((v / 16777216) % 256) as u8,
    ]
}

/// The four bytes of the two's complement form of `v`, least significant first.
pub open spec fn le_i32_bytes(v: i32) -> Seq<u8> {
    le_u32_bytes(if v < 0 { v + 4294967296 } else { v as int })
}

/// The two bytes of `v`, least significant first.
pub open spec fn le_u16_bytes(v: u16) -> Seq<u8> {
    seq![(v % 256) as u8, (v / 256) as u8]
}

pub fn push_le_u32(buf: &mut Vec<u8>, v: u32)
    ensures
        final(buf)@ == old(buf)@ + le_u32_bytes(v as int),
{
    buf.push((v % 256) as u8);
    buf.push(((v / 256) % 256) as u8);
    buf.push(((v / 65536) % 256) as u8);
    buf.push(((v / 16777216) % 256) as u8);
    assert(final(buf)@ =~= old(buf)@ + le_u32_bytes(v as int));
}

pub fn push_le_i32(buf: &mut Vec<u8>, v: i32)
    ensures
        final(buf)@ == old(buf)@ + le_i32_bytes(v),
{
    let u: u32 = if v < 0 {
        (v as i64 + 4294967296i64) as u32
    } else {
        v as u32
    };
    push_le_u32(buf, u);
}

pub fn push_le_u16(buf: &mut Vec<u8>, v: u16)
    ensures
        final(buf)@ == old(buf)@ + le_u16_bytes(v),
{
    buf.push((v % 256) as u8);
    buf.push((v / 256) as u8);
    assert(final(buf)@ =~= old(buf)@ + le_u16_bytes(v));
}

/// Reading back the bytes of an unsigned value gives the value.
pub proof fn lemma_le_u32_round_trip(v: int, b: Seq<u8>, off: int)
    requires
        0 <= v < 4294967296,
        0 <= off,
        off + 4 <= b.len(),
        b.subrange(off, off + 4) == le_u32_bytes(v),
    ensures
        le_u32_at(b, off) == v,
{
    assert(b[off] == le_u32_bytes(v)[0]);
    assert(b[off + 1] == le_u32_bytes(v)[1]);
    assert(b[off + 2] == le_u32_bytes(v)[2]);
    assert(b[off + 3] == le_u32_bytes(v)[3]);
}

/// Reading back the bytes of a signed value gives the value.
pub proof fn lemma_le_i32_round_trip(v: i32, b: Seq<u8>, off: int)
    requires
        0 <= off,
        off + 4 <= b.len(),
        b.subrange(off, off + 4) == le_i32_bytes(v),
    ensures
        le_i32_at(b, off) == v,
{
    let u = if v < 0 { v + 4294967296 } else { v as int };
    lemma_le_u32_round_trip(u, b, off);
}

/// Reading back the bytes of a `u16` gives the value.
pub proof fn lemma_le_u16_round_trip(v: u16, b: Seq<u8>, off: int)
    requires
        0 <= off,
        off + 2 <= b.len(),
        b.subrange(off, off + 2) == le_u16_bytes(v),
    ensures
        le_u16_at(b, off) == v,
{
    assert(b[off] == le_u16_bytes(v)[0]);
    assert(b[off + 1] == le_u16_bytes(v)[1]);
}

/// The bytes of the `u32` read at `off` are the four bytes there.
pub proof fn lemma_le_u32_bytes_at(b: Seq<u8>, off: int)
    requires
        0 <= off,
        off + 4 <= b.len(),
    ensures
        0 <= le_u32_at(b, off) < 4294967296,
        le_u32_bytes(le_u32_at(b, off)) == b.subrange(off, off + 4),
{
    let b0 = b[off] as int;
    let b1 = b[off + 1] as int;
    let b2 = b[off + 2] as int;
    let b3 = b[off + 3] as int;
    let v = le_u32_at(b, off);
    assert(v == b3 * 16777216 + b2 * 65536 + b1 * 256 + b0);
    lemma_fundamental_div_mod_converse(v, 256, b3 * 65536 + b2 * 256 + b1, b0);
    lemma_fundamental_div_mod_converse(b3 * 65536 + b2 * 256 + b1, 256, b3 * 256 + b2, b1);
    lemma_fundamental_div_mod_converse(v, 65536, b3 * 256 + b2, b1 * 256 + b0);
    lemma_fundamental_div_mod_converse(b3 * 256 + b2, 256, b3, b2);
    lemma_fundamental_div_mod_converse(v, 16777216, b3, b2 * 65536 + b1 * 256 + b0);
    lemma_fundamental_div_mod_converse(b3, 256, 0, b3);
    assert(le_u32_bytes(v) =~= b.subrange(off, off + 4));
}

/// The bytes of the `i32` read at `off` are the four bytes there.
pub proof fn lemma_le_i32_bytes_at(b: Seq<u8>, off: int)
    requires
        0 <= off,
        off + 4 <= b.len(),
    ensures
        i32::MIN <= le_i32_at(b, off) <= i32::MAX,
        le_i32_bytes(le_i32_at(b, off) as i32) == b.subrange(off, off + 4),
{
    lemma_le_u32_bytes_at(b, off);
    let u = le_u32_at(b, off);
    let v = le_i32_at(b, off);
    assert(b[off + 3] < 128 <==> u < 2147483648) by (nonlinear_arith)
        requires
            u == (b[off + 3] as int) * 16777216 + (b[off + 2] as int) * 65536 + (b[off + 1] as int)
                * 256 + b[off] as int,
            0 <= b[off] < 256,
            0 <= b[off + 1] < 256,
            0 <= b[off + 2] < 256,
            0 <= b[off + 3] < 256,
    ;
    assert((if (v as i32) < 0 { (v as i32) + 4294967296 } else { (v as i32) as int }) == u);
}

/// The bytes of the `u16` read at `off` are the two bytes there.
pub proof fn lemma_le_u16_bytes_at(b: Seq<u8>, off: int)
    requires
        0 <= off,
        off + 2 <= b.len(),
    ensures
        0 <= le_u16_at(b, off) < 65536,
        le_u16_bytes(le_u16_at(b, off) as u16) == b.subrange(off, off + 2),
{
    let v = le_u16_at(b, off);
    assert((v as u16) % 256 == b[off] && (v as u16) / 256 == b[off + 1]);
    assert(le_u16_bytes(v as u16) =~= b.subrange(off, off + 2));
}

} // verus!
