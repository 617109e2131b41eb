//! The text of a bitmap's headers, as their derived `Debug` writes it, for error messages.
use vstd::prelude::*;

use super::bitmap_compression_method::BitmapCompressionMethod;
use super::bitmap_header::{BitmapHeader, BitmapHeaderView};
use super::bitmap_info_header::BitmapInfoHeader;
use crate::text::{format_radix, radix_digits};
use vstd::string::StringExecFns;

verus! {

/// An integer in decimal, with a minus sign when it is negative.
pub open spec fn dec(n: int) -> Seq<char> {
    if n < 0 {
        seq!['-'] + radix_digits((-n) as nat, 10)
    } else {
        radix_digits(n as nat, 10)
    }
}

/// An integer in decimal, as `dec` states.
pub fn dec_text(n: i64) -> (r: String)
    requires
        n > i64::MIN,
    ensures
        r@ == dec(n as int),
{
    if n < 0 {
        let mut r = String::from_str("-");
        let digits = format_radix((-n) as u64, 10);
        r.append(digits.as_str());
        proof {
            reveal_strlit("-");
        }
        r
    } else {
        format_radix(n as u64, 10)
    }
}

/// The name of a compression method.
pub open spec fn method_name(m: BitmapCompressionMethod) -> Seq<char> {
    match m {
        BitmapCompressionMethod::Rgb => "Rgb"@,
        BitmapCompressionMethod::Rle8 => "Rle8"@,
        BitmapCompressionMethod::Rle4 => "Rle4"@,
        BitmapCompressionMethod::BitFields => "BitFields"@,
        BitmapCompressionMethod::Jpeg => "Jpeg"@,
        BitmapCompressionMethod::Png => "Png"@,
        BitmapCompressionMethod::AlphaBitFields => "AlphaBitFields"@,
        BitmapCompressionMethod::Cmyk => "Cmyk"@,
        BitmapCompressionMethod::CmykRle8 => "CmykRle8"@,
        BitmapCompressionMethod::CmykRle4 => "CmykRle4"@,
    }
}

/// The name of a compression method, as `method_name` states.
pub fn method_name_text(m: BitmapCompressionMethod) -> (r: &'static str)
    ensures
        r@ == method_name(m),
{
    match m {
        BitmapCompressionMethod::Rgb => "Rgb",
        BitmapCompressionMethod::Rle8 => "Rle8",
        BitmapCompressionMethod::Rle4 => "Rle4",
        BitmapCompressionMethod::BitFields => "BitFields",
        BitmapCompressionMethod::Jpeg => "Jpeg",
        BitmapCompressionMethod::Png => "Png",
        BitmapCompressionMethod::AlphaBitFields => "AlphaBitFields",
        BitmapCompressionMethod::Cmyk => "Cmyk",
        BitmapCompressionMethod::CmykRle8 => "CmykRle8",
        BitmapCompressionMethod::CmykRle4 => "CmykRle4",
    }
}

/// Bytes as a list: each in decimal, separated by a comma and a space.
pub open spec fn byte_items(bs: Seq<u8>) -> Seq<char>
    decreases bs.len(),
{
    if bs.len() == 0 {
        Seq::empty()
    } else if bs.len() == 1 {
        dec(bs[0] as int)
    } else {
        byte_items(bs.drop_last()) + ", "@ + dec(bs.last() as int)
    }
}

/// Bytes in square brackets, as `byte_items` lists them.
pub open spec fn byte_list(bs: Seq<u8>) -> Seq<char> {
    "["@ + byte_items(bs) + "]"@
}

/// Bytes as a list, as `byte_list` states.
pub fn byte_list_text(bs: &[u8]) -> (r: String)
    ensures
        r@ == byte_list(bs@),
{
    let mut items = String::new();
    let mut i: usize = 0;
    while i < bs.len()
        invariant
            i <= bs@.len(),
            items@ == byte_items(bs@.take(i as int)),
        decreases bs@.len() - i,
    {
        let d = dec_text(bs[i] as i64);
        if i > 0 {
            items.append(", ");
        }
        items.append(d.as_str());
        proof {
            let t = bs@.take(i + 1);
            assert(t.drop_last() =~= bs@.take(i as int));
            if i == 0 {
                assert(items@ =~= dec(bs@[0] as int));
            }
        }
        i = i + 1;
    }
    assert(bs@.take(bs@.len() as int) =~= bs@);
    let mut r = String::from_str("[");
    r.append(items.as_str());
    r.append("]");
    r
}

/// An info header as its derived `Debug` writes it.
pub open spec fn info_header_debug(h: BitmapInfoHeader) -> Seq<char> {
    "BitmapInfoHeader { header_size: "@ + dec(h.header_size as int) + ", width: "@ + dec(
        h.width as int,
    ) + ", height: "@ + dec(h.height as int) + ", color_planes: "@ + dec(h.color_planes as int)
        + ", bits_per_pixel: "@ + dec(h.bits_per_pixel as int) + ", compression_method: "@
        + method_name(h.compression_method) + ", image_size: "@ + dec(h.image_size as int)
        + ", h_resolution: "@ + dec(h.h_resolution as int) + ", v_resolution: "@ + dec(
        h.v_resolution as int,
    ) + ", num_of_colors: "@ + dec(h.num_of_colors as int) + ", num_of_important_colors: "@
        + dec(h.num_of_important_colors as int) + " }"@
}

/// The headers as their derived `Debug` writes them. The id is written between double
/// quotes as it is; an id with quotes, backslashes or control characters, which `Debug`
/// would escape, is never shown (only headers whose id is "BM" are).
pub open spec fn header_debug(h: BitmapHeaderView) -> Seq<char> {
    "BitmapHeader { id: \""@ + h.id + "\", size: "@ + dec(h.size as int)
        + ", reserved_chunk_a: "@ + byte_list(h.reserved_chunk_a) + ", reserved_chunk_b: "@
        + byte_list(h.reserved_chunk_b) + ", pixel_offset: "@ + dec(h.pixel_offset as int)
        + ", bitmap_info_header: "@ + info_header_debug(h.bitmap_info_header) + " }"@
}

/// An info header as `info_header_debug` writes it.
pub fn info_header_debug_text(h: &BitmapInfoHeader) -> (r: String)
    ensures
        r@ == info_header_debug(*h),
{
    let mut r = String::from_str("BitmapInfoHeader { header_size: ");
    r.append(dec_text(h.header_size as i64).as_str());
    r.append(", width: ");
    r.append(dec_text(h.width as i64).as_str());
    r.append(", height: ");
    r.append(dec_text(h.height as i64).as_str());
    r.append(", color_planes: ");
    r.append(dec_text(h.color_planes as i64).as_str());
    r.append(", bits_per_pixel: ");
    r.append(dec_text(h.bits_per_pixel as i64).as_str());
    r.append(", compression_method: ");
    r.append(method_name_text(h.compression_method));
    r.append(", image_size: ");
    r.append(dec_text(h.image_size as i64).as_str());
    r.append(", h_resolution: ");
    r.append(dec_text(h.h_resolution as i64).as_str());
    r.append(", v_resolution: ");
    r.append(dec_text(h.v_resolution as i64).as_str());
    r.append(", num_of_colors: ");
    r.append(dec_text(h.num_of_colors as i64).as_str());
    r.append(", num_of_important_colors: ");
    r.append(dec_text(h.num_of_important_colors as i64).as_str());
    r.append(" }");
    assert(r@ =~= info_header_debug(*h));
    r
}

/// The headers as `header_debug` writes them.
pub fn header_debug_text(h: &BitmapHeader) -> (r: String)
    ensures
        r@ == header_debug(h@),
{
    let mut r = String::from_str("BitmapHeader { id: \"");
    r.append(h.id.as_str());
    r.append("\", size: ");
    r.append(dec_text(h.size as i64).as_str());
    r.append(", reserved_chunk_a: ");
    r.append(byte_list_text(h.reserved_chunk_a.as_slice()).as_str());
    r.append(", reserved_chunk_b: ");
    r.append(byte_list_text(h.reserved_chunk_b.as_slice()).as_str());
    r.append(", pixel_offset: ");
    r.append(dec_text(h.pixel_offset as i64).as_str());
    r.append(", bitmap_info_header: ");
    r.append(info_header_debug_text(&h.bitmap_info_header).as_str());
    r.append(" }");
    assert(r@ =~= header_debug(h@));
    r
}

} // verus!
