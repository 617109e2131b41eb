use vstd::prelude::*;

use super::bitmap_compression_method::{
    compression_code, is_compression_code, lemma_compression_code_round_trip,
    BitmapCompressionMethod,
};
use super::le::{
    le_i32_at, le_i32_bytes, le_u16_at, le_u16_bytes, le_u32_at, le_u32_bytes,
    lemma_le_i32_bytes_at, lemma_le_i32_round_trip, lemma_le_u16_bytes_at, lemma_le_u16_round_trip,
    lemma_le_u32_bytes_at, lemma_le_u32_round_trip, push_le_i32,
    push_le_u16, push_le_u32,
};
use crate::bits::{u8_arr_to_u16, u8_to_i32, u8_to_u32};
use crate::text::{format_radix, radix_digits};
use vstd::string::StringExecFns;

verus! {

/// The BITMAPINFOHEADER of a bitmap file: forty bytes that describe the image.
#[derive(Debug, Clone, Copy, PartialEq, Eq, Structural)]
pub struct BitmapInfoHeader {
    pub header_size: u32,
    pub width: i32,
    pub height: i32,
    pub color_planes: u16,
    pub bits_per_pixel: u16,
    pub compression_method: BitmapCompressionMethod,
    pub image_size: u32,
    pub h_resolution: i32,
    pub v_resolution: i32,
    pub num_of_colors: u32,
    pub num_of_important_colors: u32,
}

/// The compression method with the given code (meaningful for valid codes).
pub open spec fn compression_of(code: int) -> BitmapCompressionMethod {
    if code == 0 {
        BitmapCompressionMethod::Rgb
    } else if code == 1 {
        BitmapCompressionMethod::Rle8
    } else if code == 2 {
        BitmapCompressionMethod::Rle4
    } else if code == 3 {
        BitmapCompressionMethod::BitFields
    } else if code == 4 {
        BitmapCompressionMethod::Jpeg
    } else if code == 5 {
        BitmapCompressionMethod::Png
    } else if code == 6 {
        BitmapCompressionMethod::AlphaBitFields
    } else if code == 11 {
        BitmapCompressionMethod::Cmyk
    } else if code == 12 {
        BitmapCompressionMethod::CmykRle8
    } else {
        BitmapCompressionMethod::CmykRle4
    }
}

/// Whether forty bytes hold an info header that `parse` accepts: its size field says 40 and
/// its compression code is known.
pub open spec fn info_header_ok(b: Seq<u8>) -> bool {
    &&& b.len() == 40
    &&& le_u32_at(b, 0) == 40
    &&& is_compression_code(le_u32_at(b, 16))
}

/// The info header that forty bytes hold, every field little-endian.
pub open spec fn info_header_of(b: Seq<u8>) -> BitmapInfoHeader {
    BitmapInfoHeader {
        header_size: le_u32_at(b, 0) as u32,
        width: le_i32_at(b, 4) as i32,
        height: le_i32_at(b, 8) as i32,
        color_planes: le_u16_at(b, 12) as u16,
        bits_per_pixel: le_u16_at(b, 14) as u16,
        compression_method: compression_of(le_u32_at(b, 16)),
        image_size: le_u32_at(b, 20) as u32,
        h_resolution: le_i32_at(b, 24) as i32,
        v_resolution: le_i32_at(b, 28) as i32,
        num_of_colors: le_u32_at(b, 32) as u32,
        num_of_important_colors: le_u32_at(b, 36) as u32,
    }
}

/// The forty bytes of an info header, every field little-endian.
pub open spec fn info_header_bytes(h: BitmapInfoHeader) -> Seq<u8> {
    le_u32_bytes(h.header_size as int) + le_i32_bytes(h.width) + le_i32_bytes(h.height)
        + le_u16_bytes(h.color_planes) + le_u16_bytes(h.bits_per_pixel) + le_u32_bytes(
        compression_code(h.compression_method) as int,
    ) + le_u32_bytes(h.image_size as int) + le_i32_bytes(h.h_resolution) + le_i32_bytes(
        h.v_resolution,
    ) + le_u32_bytes(h.num_of_colors as int) + le_u32_bytes(h.num_of_important_colors as int)
}

/// The message of the error that reading an info header from `b` ends in: not forty bytes,
/// a size field other than 40 (with the size read), or an unknown compression code.
pub open spec fn info_header_error(b: Seq<u8>) -> Seq<char> {
    if b.len() != 40 {
        "Unexpected number of bytes provided to parse bitmap info header"@
    } else if le_u32_at(b, 0) != 40 {
        "Header of unexpected length: "@ + radix_digits(le_u32_at(b, 0) as nat, 10)
    } else {
        "Invalid Compression Method values"@
    }
}

impl BitmapInfoHeader {
    /// Reads an info header from exactly forty bytes.
    pub fn parse(bytes: &[u8]) -> (res: Result<BitmapInfoHeader, String>)
        ensures
            res is Ok <==> info_header_ok(bytes@),
            res matches Ok(h) ==> h == info_header_of(bytes@),
            res matches Err(e) ==> e@ == info_header_error(bytes@),
    {
        if bytes.len() != 40 {
            return Err(
                String::from_str("Unexpected number of bytes provided to parse bitmap info header"),
            );
        }
        let header_size = u8_to_u32(bytes[3], bytes[2], bytes[1], bytes[0]);

        if header_size != 40 {
            let mut message = String::from_str("Header of unexpected length: ");
            let digits = format_radix(header_size as u64, 10);
            message.append(digits.as_str());
            return Err(message);
        }

        let compression_method = match BitmapCompressionMethod::deserialize(
            u8_to_u32(bytes[19], bytes[18], bytes[17], bytes[16]),
        ) {
            Some(m) => m,
            None => return Err(String::from_str("Invalid Compression Method values")),
        };
        proof {
            lemma_compression_code_round_trip(compression_method);
        }

        Ok(BitmapInfoHeader {
            header_size,
            width: u8_to_i32(bytes[7], bytes[6], bytes[5], bytes[4]),
            height: u8_to_i32(bytes[11], bytes[10], bytes[9], bytes[8]),
            color_planes: u8_arr_to_u16(bytes[13], bytes[12]),
            bits_per_pixel: u8_arr_to_u16(bytes[15], bytes[14]),
            compression_method,
            image_size: u8_to_u32(bytes[23], bytes[22], bytes[21], bytes[20]),
            h_resolution: u8_to_i32(bytes[27], bytes[26], bytes[25], bytes[24]),
            v_resolution: u8_to_i32(bytes[31], bytes[30], bytes[29], bytes[28]),
            num_of_colors: u8_to_u32(bytes[35], bytes[34], bytes[33], bytes[32]),
            num_of_important_colors: u8_to_u32(bytes[39], bytes[38], bytes[37], bytes[36]),
        })
    }

    /// Appends the forty bytes of the header to `writer`.
    pub fn write(&self, writer: &mut Vec<u8>)
        ensures
            final(writer)@ == old(writer)@ + info_header_bytes(*self),
    {
        push_le_u32(writer, self.header_size);
        push_le_i32(writer, self.width);
        push_le_i32(writer, self.height);
        push_le_u16(writer, self.color_planes);
        push_le_u16(writer, self.bits_per_pixel);
        push_le_u32(writer, self.compression_method.serialize());
        push_le_u32(writer, self.image_size);
        push_le_i32(writer, self.h_resolution);
        push_le_i32(writer, self.v_resolution);
        push_le_u32(writer, self.num_of_colors);
        push_le_u32(writer, self.num_of_important_colors);
        assert(final(writer)@ =~= old(writer)@ + info_header_bytes(*self));
    }
}

/// What `write` writes, `parse` reads back: the bytes of an info header whose size field
/// is 40 parse to that same header.
#[verifier::rlimit(40)]
pub proof fn lemma_info_header_round_trip(h: BitmapInfoHeader)
    requires
        h.header_size == 40,
    ensures
        info_header_ok(info_header_bytes(h)),
        info_header_of(info_header_bytes(h)) == h,
{
    let p0 = le_u32_bytes(h.header_size as int);
    let p1 = le_i32_bytes(h.width);
    let p2 = le_i32_bytes(h.height);
    let p3 = le_u16_bytes(h.color_planes);
    let p4 = le_u16_bytes(h.bits_per_pixel);
    let p5 = le_u32_bytes(compression_code(h.compression_method) as int);
    let p6 = le_u32_bytes(h.image_size as int);
    let p7 = le_i32_bytes(h.h_resolution);
    let p8 = le_i32_bytes(h.v_resolution);
    let p9 = le_u32_bytes(h.num_of_colors as int);
    let p10 = le_u32_bytes(h.num_of_important_colors as int);
    let b = info_header_bytes(h);
    let flat = p0 + p1 + p2 + p3 + p4 + p5 + p6 + p7 + p8 + p9 + p10;
    assert(b == flat);
    assert(b.len() == 40);
    assert(b.subrange(0, 4) =~= p0) by {
        assert forall|i: int| 0 <= i < 4 implies b.subrange(0, 4)[i] == p0[i] by {}
    }
    lemma_le_u32_round_trip(h.header_size as int, b, 0);
    assert(b.subrange(4, 8) =~= p1);
    lemma_le_i32_round_trip(h.width, b, 4);
    assert(b.subrange(8, 12) =~= p2);
    lemma_le_i32_round_trip(h.height, b, 8);
    assert(b.subrange(12, 14) =~= p3);
    lemma_le_u16_round_trip(h.color_planes, b, 12);
    assert(b.subrange(14, 16) =~= p4);
    lemma_le_u16_round_trip(h.bits_per_pixel, b, 14);
    assert(b.subrange(16, 20) =~= p5);
    lemma_le_u32_round_trip(compression_code(h.compression_method) as int, b, 16);
    assert(b.subrange(20, 24) =~= p6);
    lemma_le_u32_round_trip(h.image_size as int, b, 20);
    assert(b.subrange(24, 28) =~= p7);
    lemma_le_i32_round_trip(h.h_resolution, b, 24);
    assert(b.subrange(28, 32) =~= p8);
    lemma_le_i32_round_trip(h.v_resolution, b, 28);
    assert(b.subrange(32, 36) =~= p9);
    lemma_le_u32_round_trip(h.num_of_colors as int, b, 32);
    assert(b.subrange(36, 40) =~= p10);
    lemma_le_u32_round_trip(h.num_of_important_colors as int, b, 36);
    lemma_compression_code_round_trip(h.compression_method);
}

/// What `parse` reads, `write` writes back: the header read from forty bytes that `parse`
/// accepts gives those same bytes.
#[verifier::rlimit(40)]
pub proof fn lemma_parsed_info_header_writes_back(b: Seq<u8>)
    requires
        info_header_ok(b),
    ensures
        info_header_bytes(info_header_of(b)) == b,
{
    let h = info_header_of(b);
    lemma_le_u32_bytes_at(b, 0);
    lemma_le_i32_bytes_at(b, 4);
    lemma_le_i32_bytes_at(b, 8);
    lemma_le_u16_bytes_at(b, 12);
    lemma_le_u16_bytes_at(b, 14);
    lemma_le_u32_bytes_at(b, 16);
    lemma_le_u32_bytes_at(b, 20);
    lemma_le_i32_bytes_at(b, 24);
    lemma_le_i32_bytes_at(b, 28);
    lemma_le_u32_bytes_at(b, 32);
    lemma_le_u32_bytes_at(b, 36);
    assert(compression_code(h.compression_method) as int == le_u32_at(b, 16));
    let flat = b.subrange(0, 4) + b.subrange(4, 8) + b.subrange(8, 12) + b.subrange(12, 14)
        + b.subrange(14, 16) + b.subrange(16, 20) + b.subrange(20, 24) + b.subrange(24, 28)
        + b.subrange(28, 32) + b.subrange(32, 36) + b.subrange(36, 40);
    assert(info_header_bytes(h) == flat);
    assert(flat =~= b);
}

} // verus!
