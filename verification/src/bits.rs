//! Byte and bit helpers shared by the binary formats (DNS messages, bitmaps).
//!
//! Bits inside a byte are numbered from the most significant one: bit zero is the
//! highest bit, bit seven the lowest.
use vstd::prelude::*;

verus! {

/// Reads a `u16` from two bytes, most significant byte first.
pub fn u8_arr_to_u16(b0: u8, b1: u8) -> (res: u16)
    ensures
        res == b0 as int * 256 + b1 as int,
{
    (b0 as u16) * 256 + (b1 as u16)
}

/// The unsigned value of four bytes, most significant byte first.
pub open spec fn be_u32(b3: u8, b2: u8, b1: u8, b0: u8) -> int {
    b3 as int * 16777216 + b2 as int * 65536 + b1 as int * 256 + b0 as int
}

/// Reads a `u32` from four bytes, most significant byte first.
pub fn u8_to_u32(b3: u8, b2: u8, b1: u8, b0: u8) -> (res: u32)
    ensures
        res == be_u32(b3, b2, b1, b0),
{
    (b3 as u32) * 16777216 + (b2 as u32) * 65536 + (b1 as u32) * 256 + (b0 as u32)
}

/// The two's complement reading of four bytes, most significant byte first.
pub open spec fn be_i32(b3: u8, b2: u8, b1: u8, b0: u8) -> int {
    if b3 < 128 {
        be_u32(b3, b2, b1, b0)
    } else {
        be_u32(b3, b2, b1, b0) - 4294967296
    }
}

/// Reads an `i32` (two's complement) from four bytes, most significant byte first.
pub fn u8_to_i32(b3: u8, b2: u8, b1: u8, b0: u8) -> (res: i32)
    ensures
        res == be_i32(b3, b2, b1, b0),
{
    let low: i32 = (b2 as i32) * 65536 + (b1 as i32) * 256 + (b0 as i32);
    if b3 < 128 {
        (b3 as i32) * 16777216 + low
    } else {
        ((b3 as i32) - 256) * 16777216 + low
    }
}

/// Names one bit of a byte, counted from the most significant bit.
#[derive(Clone, Copy, Debug, PartialEq, Eq, Structural)]
pub enum Bit {
    Zero,
    One,
    Two,
    Three,
    Four,
    Five,
    Six,
    Seven,
}

impl Bit {
    /// The position of the bit, counted from the most significant bit.
    pub open spec fn index(self) -> int {
        match self {
            Bit::Zero => 0,
            Bit::One => 1,
            Bit::Two => 2,
            Bit::Three => 3,
            Bit::Four => 4,
            Bit::Five => 5,
            Bit::Six => 6,
            Bit::Seven => 7,
        }
    }

    /// The bit at position `offset % 8`.
    pub fn from_u8(offset: u8) -> (res: Bit)
        ensures
            res.index() == offset % 8,
    {
        match offset % 8 {
            0 => Bit::Zero,
            1 => Bit::One,
            2 => Bit::Two,
            3 => Bit::Three,
            4 => Bit::Four,
            5 => Bit::Five,
            6 => Bit::Six,
            _ => Bit::Seven,
        }
    }
}

/// Whether bit `n` (counted from the most significant bit) of `byte` is set.
pub open spec fn bit_set(byte: u8, n: int) -> bool {
    (byte as int / pow2_u8(7 - n)) % 2 == 1
}

/// `2^k` for `0 <= k <= 8`.
pub open spec fn pow2_u8(k: int) -> int {
    if k <= 0 {
        1
    } else if k == 1 {
        2
    } else if k == 2 {
        4
    } else if k == 3 {
        8
    } else if k == 4 {
        16
    } else if k == 5 {
        32
    } else if k == 6 {
        64
    } else if k == 7 {
        128
    } else {
        256
    }
}

/// Whether the given bit of `byte` is set.
pub fn get_bit(byte: u8, bit: Bit) -> (res: bool)
    ensures
        res == bit_set(byte, bit.index()),
{
    let divisor: u8 = match bit {
        Bit::Zero => 128,
        Bit::One => 64,
        Bit::Two => 32,
        Bit::Three => 16,
        Bit::Four => 8,
        Bit::Five => 4,
        Bit::Six => 2,
        Bit::Seven => 1,
    };
    (byte / divisor) % 2 == 1
}

/// Where a four-bit value starts inside a byte, counted from the most significant bit.
#[derive(Clone, Copy, Debug, PartialEq, Eq, Structural)]
pub enum U4BitOffset {
    Zero,
    One,
    Two,
    Three,
    Four,
}

impl U4BitOffset {
    pub open spec fn index(self) -> int {
        match self {
            U4BitOffset::Zero => 0,
            U4BitOffset::One => 1,
            U4BitOffset::Two => 2,
            U4BitOffset::Three => 3,
            U4BitOffset::Four => 4,
        }
    }
}

/// The four bits of `byte` that start at bit `start` (counted from the most significant bit).
pub open spec fn nibble_at(byte: u8, start: int) -> int {
    (byte as int / pow2_u8(4 - start)) % 16
}

/// Extracts four consecutive bits of a byte as a number in `0..16`.
pub fn u4_from_u8(byte: u8, offset: U4BitOffset) -> (res: u8)
    ensures
        res == nibble_at(byte, offset.index()),
        res < 16,
{
    let divisor: u8 = match offset {
        U4BitOffset::Zero => 16,
        U4BitOffset::One => 8,
        U4BitOffset::Two => 4,
        U4BitOffset::Three => 2,
        U4BitOffset::Four => 1,
    };
    (byte / divisor) % 16
}

/// Drops the bits of `high` before `bit` and appends `low` as the low byte.
pub fn offset_bit_merge(high: u8, bit: Bit, low: u8) -> (res: u16)
    ensures
        res == (high as int % pow2_u8(8 - bit.index())) * 256 + low as int,
{
    let modulus: u16 = match bit {
        Bit::Zero => 256,
        Bit::One => 128,
        Bit::Two => 64,
        Bit::Three => 32,
        Bit::Four => 16,
        Bit::Five => 8,
        Bit::Six => 4,
        Bit::Seven => 2,
    };
    ((high as u16) % modulus) * 256 + (low as u16)
}

} // verus!
