//! Decoding and encoding of BMP images (uncompressed, with a BITMAPINFOHEADER).
use vstd::prelude::*;

use super::bitmap_compression_method::BitmapCompressionMethod;
use super::bitmap_header::{header_error, header_outcome, BitmapHeader, BitmapHeaderView};
use super::bitmap_text::{header_debug, header_debug_text, method_name, method_name_text};
use super::bitmap_info_header::BitmapInfoHeader;
use crate::bits::{bit_set, get_bit, nibble_at, u4_from_u8, Bit, U4BitOffset};
use crate::image::color::Color;
use crate::outcome::{error_message_is, Outcome};
use vstd::string::StringExecFns;

verus! {

/// A decoded image: `pixels` holds `height` rows of `width` colors each, row after row.
#[derive(Debug, PartialEq)]
pub struct Bitmap {
    pub width: usize,
    pub height: usize,
    pub pixels: Vec<Color>,
}

pub struct BitmapView {
    pub width: usize,
    pub height: usize,
    pub pixels: Seq<Color>,
}

impl View for Bitmap {
    type V = BitmapView;

    open spec fn view(&self) -> BitmapView {
        BitmapView { width: self.width, height: self.height, pixels: self.pixels@ }
    }
}

/// The colors of a grid of `h` rows of `w` columns, row after row.
pub open spec fn grid(h: nat, w: nat, f: spec_fn(int, int) -> Color) -> Seq<Color>
    decreases h,
{
    if h == 0 {
        Seq::empty()
    } else {
        grid((h - 1) as nat, w, f) + Seq::new(w, |x: int| f(h - 1, x))
    }
}

/// The opaque color stored as blue, green, red at `off`.
pub open spec fn color_at(b: Seq<u8>, off: int) -> Color {
    Color { b: b[off], g: b[off + 1], r: b[off + 2], a: 255 }
}

/// The byte of its row that holds pixel `x`, for 8, 4 or 1 bits per pixel.
pub open spec fn byte_in_row(bpp: int, x: int) -> int {
    if bpp == 8 {
        x
    } else if bpp == 4 {
        x / 2
    } else {
        x / 8
    }
}

/// The distance between rows of a palette image: the bits its pixels take, rounded up to a
/// whole number of four-byte words.
pub open spec fn palette_stride(bpp: int, w: int) -> int {
    (bpp * w + 31) / 32 * 4
}

/// The palette entry of pixel `x`, read from the byte that holds it: the whole byte for 8
/// bits, the high then the low nibble for 4 bits, one bit (the highest first) for 1 bit.
pub open spec fn palette_index(bpp: int, byte: u8, x: int) -> int {
    if bpp == 8 {
        byte as int
    } else if bpp == 4 {
        if x % 2 == 0 {
            nibble_at(byte, 0)
        } else {
            nibble_at(byte, 4)
        }
    } else {
        if bit_set(byte, x % 8) {
            1
        } else {
            0
        }
    }
}

/// Where pixel (`y`, `x`) of a palette image is stored, from the start of the pixel data.
pub open spec fn palette_pos(bpp: int, w: int, y: int, x: int) -> int {
    y * palette_stride(bpp, w) + byte_in_row(bpp, x)
}

/// The number of colors in the table: every four bytes from offset 54 to the end of the file.
pub open spec fn table_len(bytes: Seq<u8>) -> int {
    (bytes.len() - 54) / 4
}

/// Whether pixel (`y`, `x`) can be read: its byte is in the data and its entry in the table.
pub open spec fn palette_pixel_ok(bytes: Seq<u8>, start: int, bpp: int, w: int, y: int, x: int) -> bool {
    &&& start + palette_pos(bpp, w, y, x) < bytes.len()
    &&& palette_index(bpp, bytes[start + palette_pos(bpp, w, y, x)], x) < table_len(bytes)
}

/// The color of pixel (`y`, `x`) of a palette image whose pixel data starts at `start`.
pub open spec fn palette_pixel(bytes: Seq<u8>, start: int, bpp: int, w: int, y: int, x: int) -> Color {
    color_at(bytes, 54 + 4 * palette_index(bpp, bytes[start + palette_pos(bpp, w, y, x)], x))
}

/// The distance between rows of a 24-bit image: three bytes a pixel, padded to four.
pub open spec fn rgb_stride(w: int) -> int {
    3 * w + (4 - (3 * w) % 4) % 4
}

/// Whether the three bytes of pixel (`y`, `x`) of a 24-bit image lie in the file.
pub open spec fn rgb_pixel_ok(bytes: Seq<u8>, w: int, y: int, x: int) -> bool {
    54 + y * rgb_stride(w) + 3 * x + 2 < bytes.len()
}

/// Whether the product of the dimensions fits an `i32` and is not negative.
pub open spec fn area_ok(w: i32, h: i32) -> bool {
    0 <= w * h <= i32::MAX
}

/// Decoding the pixels of a palette image. A negative height always crashes: with a width
/// the area is negative, and with no width the rows cannot be cut apart.
pub open spec fn palette_outcome(bytes: Seq<u8>, start: int, bpp: int, w: i32, h: i32) -> Outcome<BitmapView> {
    if !area_ok(w, h) || h < 0 {
        Outcome::Crash
    } else if h == 0 || w == 0 {
        Outcome::Value(BitmapView { width: w as usize, height: h as usize, pixels: Seq::empty() })
    } else if !(bpp == 1 || bpp == 4 || bpp == 8) {
        Outcome::Crash
    } else if !(forall|y: int, x: int|
        0 <= y < h && 0 <= x < w ==> #[trigger] palette_pixel_ok(bytes, start, bpp, w as int, y, x)) {
        Outcome::Crash
    } else {
        Outcome::Value(
            BitmapView {
                width: w as usize,
                height: h as usize,
                pixels: grid(h as nat, w as nat, |y: int, x: int| palette_pixel(bytes, start, bpp, w as int, y, x)),
            },
        )
    }
}

/// Decoding the pixels of a 24-bit image. A negative height always crashes: with a width the
/// area is negative or the reads run off the file, and with no width the rows never end.
pub open spec fn rgb_outcome(bytes: Seq<u8>, w: i32, h: i32) -> Outcome<BitmapView> {
    if !area_ok(w, h) || h < 0 {
        Outcome::Crash
    } else if h == 0 || w == 0 {
        Outcome::Value(BitmapView { width: w as usize, height: h as usize, pixels: Seq::empty() })
    } else if !(forall|y: int, x: int|
        0 <= y < h && 0 <= x < w ==> #[trigger] rgb_pixel_ok(bytes, w as int, y, x)) {
        Outcome::Crash
    } else {
        Outcome::Value(
            BitmapView {
                width: w as usize,
                height: h as usize,
                pixels: grid(h as nat, w as nat, |y: int, x: int| color_at(bytes, 54 + y * rgb_stride(w as int) + 3 * x)),
            },
        )
    }
}

/// `2^k` for `k <= 8`.
pub open spec fn pow2_small(k: int) -> int
    decreases k,
{
    if k <= 0 {
        1
    } else {
        2 * pow2_small(k - 1)
    }
}

/// Decoding a bitmap file. Only uncompressed (RGB) images are read. Up to 8 bits per pixel
/// the pixel data must start just past a color table of `2^bpp` entries; at 24 bits it must
/// start at offset 54. Other depths are refused.
pub open spec fn bitmap_outcome(bytes: Seq<u8>) -> Outcome<BitmapView> {
    match header_outcome(bytes) {
        Outcome::Crash => Outcome::Crash,
        Outcome::Error => Outcome::Error,
        Outcome::Value(header) => {
            let info = header.bitmap_info_header;
            let bpp = info.bits_per_pixel as int;
            if info.compression_method != BitmapCompressionMethod::Rgb {
                Outcome::Error
            } else if bpp <= 8 {
                let start = 54 + 4 * pow2_small(bpp);
                if start != header.pixel_offset || start > bytes.len() {
                    Outcome::Crash
                } else {
                    palette_outcome(bytes, start, bpp, info.width, info.height)
                }
            } else if bpp == 24 {
                if header.pixel_offset != 54 {
                    Outcome::Crash
                } else {
                    rgb_outcome(bytes, info.width, info.height)
                }
            } else {
                Outcome::Error
            }
        },
    }
}


/// The color table: every four bytes of `bytes` read as blue, green, red (the fourth byte is
/// not read), together with the length that a table of `2^bits_per_pixel` entries takes.
fn parse_color_table(bytes: &[u8], bits_per_pixel: u16) -> (res: (Vec<Color>, usize))
    requires
        bits_per_pixel <= 8,
    ensures
        res.0@ == Seq::new(bytes@.len() / 4, |j: int| color_at(bytes@, 4 * j)),
        res.1 == 4 * pow2_small(bits_per_pixel as int),
{
    let mut num_of_colors: usize = 1;
    let mut k: u16 = 0;
    while k < bits_per_pixel
        invariant
            k <= bits_per_pixel <= 8,
            num_of_colors == pow2_small(k as int),
            num_of_colors <= 256,
        decreases bits_per_pixel - k,
    {
        num_of_colors = num_of_colors * 2;
        k = k + 1;
        assert(pow2_small(k as int) == 2 * pow2_small(k - 1));
        assert(pow2_small(k as int) <= 256) by {
            lemma_pow2_small_bound(k as int);
        }
    }
    let mut colors: Vec<Color> = Vec::new();
    let blen = bytes.len();
    let n = blen / 4;
    let mut i: usize = 0;
    while i < n
        invariant
            blen == bytes@.len(),
            n == bytes@.len() / 4,
            i <= n,
            colors@ == Seq::new(i as nat, |j: int| color_at(bytes@, 4 * j)),
        decreases n - i,
    {
        assert(i * 4 + 4 <= bytes@.len()) by (nonlinear_arith)
            requires
                i < bytes@.len() / 4,
        ;
        let base: usize = i * 4;
        assert(base + 3 < bytes@.len());
        colors.push(Color { b: bytes[base], g: bytes[base + 1], r: bytes[base + 2], a: 255 });
        i = i + 1;
        assert(colors@ =~= Seq::new(i as nat, |j: int| color_at(bytes@, 4 * j)));
    }
    (colors, num_of_colors * 4)
}

proof fn lemma_pow2_small_bound(k: int)
    requires
        k <= 8,
    ensures
        1 <= pow2_small(k) <= 256,
{
    reveal_with_fuel(pow2_small, 9);
}

fn byte_in_row_exec(bpp: u16, x: u64) -> (res: u64)
    requires
        bpp == 1 || bpp == 4 || bpp == 8,
    ensures
        res == byte_in_row(bpp as int, x as int),
        res <= x,
{
    if bpp == 8 {
        x
    } else if bpp == 4 {
        x / 2
    } else {
        x / 8
    }
}

/// Decodes the pixels of a palette image whose data starts at `start`; `None` stands for the
/// inputs on which decoding crashes.
fn get_pixels(
    bytes: &[u8],
    start: usize,
    colors: &[Color],
    bits_per_pixel: u16,
    width: i32,
    height: i32,
) -> (res: Option<Vec<Color>>)
    requires
        start <= bytes@.len(),
        bytes@.len() >= 54,
        colors@ == Seq::new((table_len(bytes@)) as nat, |j: int| color_at(bytes@, 54 + 4 * j)),
    ensures
        match palette_outcome(bytes@, start as int, bits_per_pixel as int, width, height) {
            Outcome::Crash => res is None,
            Outcome::Value(v) => res matches Some(p) && p@ == v.pixels,
            Outcome::Error => false,
        },
{
    assert(-4611686018427387904 <= (width as int) * (height as int) <= 4611686018427387904)
        by (nonlinear_arith)
        requires
            -2147483648 <= height <= 2147483647,
            -2147483648 <= width <= 2147483647,
    ;
    let area: i64 = (width as i64) * (height as i64);
    if area < 0 || area > 2147483647i64 || height < 0 {
        return None;
    }
    if height == 0 || width == 0 {
        return Some(Vec::new());
    }
    if !(bits_per_pixel == 1 || bits_per_pixel == 4 || bits_per_pixel == 8) {
        return None;
    }
    let bpp = bits_per_pixel;
    assert(width > 0) by (nonlinear_arith)
        requires
            height > 0,
            width * height == area,
            area >= 0,
            width != 0,
    ;
    let w: u64 = width as u64;
    let h: u64 = height as u64;
    let ghost wi = w as int;
    let ghost hi = h as int;
    let ghost f = |y: int, x: int| palette_pixel(bytes@, start as int, bpp as int, wi, y, x);
    assert(w * h <= 2147483647) by (nonlinear_arith)
        requires
            w * h == area,
            area <= 2147483647,
    ;
    assert((bpp as u64) * w <= 8 * 2147483647) by (nonlinear_arith)
        requires
            bpp <= 8,
            w <= 2147483647,
    ;
    let stride: u64 = ((bpp as u64) * w + 31) / 32 * 4;
    assert(stride == palette_stride(bpp as int, wi));
    assert(stride <= w + 4) by (nonlinear_arith)
        requires
            stride == ((bpp as u64) * w + 31) / 32 * 4,
            bpp <= 8,
    ;
    let data_len = (bytes.len() - start) as u64;
    assert(bytes@.len() <= usize::MAX);
    let mut pixels: Vec<Color> = Vec::new();
    let mut y: u64 = 0;
    let mut row_start: u64 = 0;
    while y < h
        invariant
            0 < h == hi == height,
            0 < w == wi == width,
            w <= 2147483647,
            h <= 2147483647,
            w * h <= 2147483647,
            stride == palette_stride(bpp as int, wi),
            stride <= w + 4,
            bpp == bits_per_pixel,
            bpp == 1 || bpp == 4 || bpp == 8,
            data_len == bytes@.len() - start,
            bytes@.len() <= usize::MAX,
            start <= bytes@.len(),
            bytes@.len() >= 54,
            colors@ == Seq::new((table_len(bytes@)) as nat, |j: int| color_at(bytes@, 54 + 4 * j)),
            f == (|yy: int, xx: int| palette_pixel(bytes@, start as int, bpp as int, wi, yy, xx)),
            y <= h,
            row_start == y * stride,
            pixels@ == grid(y as nat, w as nat, f),
            forall|yy: int, xx: int|
                0 <= yy < y && 0 <= xx < w ==> #[trigger] palette_pixel_ok(bytes@, start as int, bpp as int, wi, yy, xx),
        decreases h - y,
    {
        assert(y * stride <= h * w + 4 * h) by (nonlinear_arith)
            requires
                y < h,
                stride <= w + 4,
        ;
        assert(y * stride + stride <= h * w + 4 * h) by (nonlinear_arith)
            requires
                y < h,
                stride <= w + 4,
        ;
        let ghost before = pixels@;
        let mut x: u64 = 0;
        while x < w
            invariant
                0 < h == hi == height,
                0 < w == wi == width,
                w <= 2147483647,
                h <= 2147483647,
                w * h <= 2147483647,
                y < h,
                row_start == y * stride,
                row_start <= h * w + 4 * h,
                stride == palette_stride(bpp as int, wi),
                bpp == bits_per_pixel,
                bpp == 1 || bpp == 4 || bpp == 8,
                data_len == bytes@.len() - start,
                bytes@.len() <= usize::MAX,
            bytes@.len() <= usize::MAX,
                start <= bytes@.len(),
                bytes@.len() >= 54,
                colors@ == Seq::new((table_len(bytes@)) as nat, |j: int| color_at(bytes@, 54 + 4 * j)),
                f == (|yy: int, xx: int| palette_pixel(bytes@, start as int, bpp as int, wi, yy, xx)),
                x <= w,
                pixels@ == before + Seq::new(x as nat, |j: int| f(y as int, j)),
                forall|xx: int|
                    0 <= xx < x ==> #[trigger] palette_pixel_ok(bytes@, start as int, bpp as int, wi, y as int, xx),
            decreases w - x,
        {
            let pos = row_start + byte_in_row_exec(bpp, x);
            assert(pos == palette_pos(bpp as int, wi, y as int, x as int));
            if pos >= data_len {
                assert(!palette_pixel_ok(bytes@, start as int, bpp as int, wi, y as int, x as int));
                return None;
            }
            let pos_u: usize = pos as usize;
            assert(pos_u == pos);
            let byte = bytes[start + pos_u];
            let index: usize = if bpp == 8 {
                byte as usize
            } else if bpp == 4 {
                if x % 2 == 0 {
                    u4_from_u8(byte, U4BitOffset::Zero) as usize
                } else {
                    u4_from_u8(byte, U4BitOffset::Four) as usize
                }
            } else {
                if get_bit(byte, Bit::from_u8((x % 8) as u8)) {
                    1
                } else {
                    0
                }
            };
            assert(index == palette_index(bpp as int, byte, x as int));
            if index >= colors.len() {
                assert(!palette_pixel_ok(bytes@, start as int, bpp as int, wi, y as int, x as int));
                return None;
            }
            pixels.push(colors[index]);
            proof {
                assert(palette_pixel_ok(bytes@, start as int, bpp as int, wi, y as int, x as int));
                assert(colors@[index as int] == f(y as int, x as int));
                assert(pixels@ =~= before + Seq::new((x + 1) as nat, |j: int| f(y as int, j)));
            }
            x = x + 1;
        }
        assert(pixels@ =~= grid((y + 1) as nat, w as nat, f));
        assert((y + 1) * stride == y * stride + stride) by (nonlinear_arith);
        row_start = row_start + stride;
        y = y + 1;
    }
    Some(pixels)
}

/// Decodes the pixels of a 24-bit image; `None` stands for the inputs on which decoding crashes.
fn get_24bit_pixels(bytes: &[u8], width: i32, height: i32) -> (res: Option<Vec<Color>>)
    requires
        bytes@.len() >= 54,
    ensures
        match rgb_outcome(bytes@, width, height) {
            Outcome::Crash => res is None,
            Outcome::Value(v) => res matches Some(p) && p@ == v.pixels,
            Outcome::Error => false,
        },
{
    assert(-4611686018427387904 <= (width as int) * (height as int) <= 4611686018427387904)
        by (nonlinear_arith)
        requires
            -2147483648 <= height <= 2147483647,
            -2147483648 <= width <= 2147483647,
    ;
    let area: i64 = (width as i64) * (height as i64);
    if area < 0 || area > 2147483647i64 || height < 0 {
        return None;
    }
    if height == 0 || width == 0 {
        return Some(Vec::new());
    }
    assert(width > 0) by (nonlinear_arith)
        requires
            height > 0,
            width * height == area,
            area >= 0,
            width != 0,
    ;
    let w: u64 = width as u64;
    let h: u64 = height as u64;
    let ghost wi = w as int;
    let ghost f = |y: int, x: int| color_at(bytes@, 54 + y * rgb_stride(wi) + 3 * x);
    assert(w * h <= 2147483647) by (nonlinear_arith)
        requires
            w * h == area,
            area <= 2147483647,
    ;
    let stride: u64 = 3 * w + (4 - (3 * w) % 4) % 4;
    let data_len = (bytes.len() - 54) as u64;
    assert(bytes@.len() <= usize::MAX);
    let mut pixels: Vec<Color> = Vec::new();
    let mut y: u64 = 0;
    let mut row_start: u64 = 0;
    while y < h
        invariant
            0 < h == height,
            0 < w == wi == width,
            w <= 2147483647,
            h <= 2147483647,
            w * h <= 2147483647,
            stride == rgb_stride(wi),
            stride <= 3 * w + 3,
            data_len == bytes@.len() - 54,
            bytes@.len() <= usize::MAX,
            bytes@.len() >= 54,
            f == (|yy: int, xx: int| color_at(bytes@, 54 + yy * rgb_stride(wi) + 3 * xx)),
            y <= h,
            row_start == y * stride,
            pixels@ == grid(y as nat, w as nat, f),
            forall|yy: int, xx: int|
                0 <= yy < y && 0 <= xx < w ==> #[trigger] rgb_pixel_ok(bytes@, wi, yy, xx),
        decreases h - y,
    {
        assert(y * stride <= 3 * (h * w) + 3 * h) by (nonlinear_arith)
            requires
                y < h,
                stride <= 3 * w + 3,
        ;
        assert(y * stride + stride <= 3 * (h * w) + 3 * h) by (nonlinear_arith)
            requires
                y < h,
                stride <= 3 * w + 3,
        ;
        let ghost before = pixels@;
        let mut x: u64 = 0;
        while x < w
            invariant
                0 < h == height,
                0 < w == wi == width,
                w <= 2147483647,
                h <= 2147483647,
                w * h <= 2147483647,
                y < h,
                row_start == y * stride,
                row_start <= 3 * (h * w) + 3 * h,
                stride == rgb_stride(wi),
                data_len == bytes@.len() - 54,
                bytes@.len() <= usize::MAX,
            bytes@.len() <= usize::MAX,
                bytes@.len() >= 54,
                f == (|yy: int, xx: int| color_at(bytes@, 54 + yy * rgb_stride(wi) + 3 * xx)),
                x <= w,
                pixels@ == before + Seq::new(x as nat, |j: int| f(y as int, j)),
                forall|xx: int| 0 <= xx < x ==> #[trigger] rgb_pixel_ok(bytes@, wi, y as int, xx),
            decreases w - x,
        {
            let pos = row_start + 3 * x;
            if pos + 2 >= data_len {
                assert(!rgb_pixel_ok(bytes@, wi, y as int, x as int));
                return None;
            }
            let pos_u: usize = pos as usize;
            assert(pos_u == pos);
            let p = 54 + pos_u;
            pixels.push(Color { b: bytes[p], g: bytes[p + 1], r: bytes[p + 2], a: 255 });
            proof {
                assert(rgb_pixel_ok(bytes@, wi, y as int, x as int));
                assert(pixels@ =~= before + Seq::new((x + 1) as nat, |j: int| f(y as int, j)));
            }
            x = x + 1;
        }
        assert(pixels@ =~= grid((y + 1) as nat, w as nat, f));
        assert((y + 1) * stride == y * stride + stride) by (nonlinear_arith);
        row_start = row_start + stride;
        y = y + 1;
    }
    Some(pixels)
}


/// Whether an executable result agrees with the outcome of decoding.
pub open spec fn agrees_bitmap(res: Option<Result<Bitmap, String>>, o: Outcome<BitmapView>) -> bool {
    match res {
        None => o is Crash,
        Some(Err(_)) => o is Error,
        Some(Ok(b)) => o == Outcome::Value(b@),
    }
}

/// The message of the error that decoding a bitmap file ends in: the headers' error, one for
/// a compression other than RGB (with its name), or one for a depth other than 1, 4, 8 or 24
/// bits (with the headers). `None` where there is no error.
pub open spec fn bitmap_error(bytes: Seq<u8>) -> Option<Seq<char>> {
    match header_outcome(bytes) {
        Outcome::Value(header) => {
            let info = header.bitmap_info_header;
            if info.compression_method != BitmapCompressionMethod::Rgb {
                Some(
                    "Currently unsupported bitmap compression method: "@ + method_name(
                        info.compression_method,
                    ),
                )
            } else if info.bits_per_pixel <= 8 || info.bits_per_pixel == 24 {
                None
            } else {
                Some("Unsupported Bitmap: "@ + header_debug(header))
            }
        },
        _ => header_error(bytes),
    }
}

impl Bitmap {
    /// Decodes a bitmap file; `None` stands for the inputs on which decoding crashes.
    pub fn new_checked(bytes: &[u8]) -> (res: Option<Result<Bitmap, String>>)
        ensures
            agrees_bitmap(res, bitmap_outcome(bytes@)),
            error_message_is(res, bitmap_error(bytes@)),
    {
        let header = match BitmapHeader::parse_checked(bytes) {
            None => return None,
            Some(Err(e)) => return Some(Err(e)),
            Some(Ok(h)) => h,
        };
        let bitmap_info_header = header.bitmap_info_header;
        if bitmap_info_header.compression_method != BitmapCompressionMethod::Rgb {
            let mut message = String::from_str("Currently unsupported bitmap compression method: ");
            message.append(method_name_text(bitmap_info_header.compression_method));
            return Some(Err(message));
        }
        let init_header_size: u32 = 14;
        let color_table_offset = (init_header_size + bitmap_info_header.header_size) as usize;
        assert(color_table_offset == 54);
        let width = bitmap_info_header.width;
        let height = bitmap_info_header.height;
        if bitmap_info_header.bits_per_pixel <= 8 {
            let (colors, color_table_length) = parse_color_table(
                &bytes[color_table_offset..bytes.len()],
                bitmap_info_header.bits_per_pixel,
            );
            proof {
                lemma_pow2_small_bound(bitmap_info_header.bits_per_pixel as int);
                assert(colors@ =~= Seq::new((table_len(bytes@)) as nat, |j: int| color_at(bytes@, 54 + 4 * j)));
            }
            let pixel_bits_offset = color_table_offset + color_table_length;
            if pixel_bits_offset != header.pixel_offset as usize || pixel_bits_offset > bytes.len() {
                return None;
            }
            let pixels = match get_pixels(
                bytes,
                pixel_bits_offset,
                colors.as_slice(),
                bitmap_info_header.bits_per_pixel,
                width,
                height,
            ) {
                None => return None,
                Some(p) => p,
            };
            Some(Ok(Bitmap { width: width as usize, height: height as usize, pixels }))
        } else if bitmap_info_header.bits_per_pixel == 24 {
            if header.pixel_offset != 54 {
                return None;
            }
            let pixels = match get_24bit_pixels(bytes, width, height) {
                None => return None,
                Some(p) => p,
            };
            Some(Ok(Bitmap { width: width as usize, height: height as usize, pixels }))
        } else {
            let mut message = String::from_str("Unsupported Bitmap: ");
            message.append(header_debug_text(&header).as_str());
            Some(Err(message))
        }
    }

    /// Decodes a bitmap file: an uncompressed image with a palette of 1, 4 or 8 bits per
    /// pixel, or 24 bits per pixel. Other compressions and depths are refused.
    pub fn new(bytes: &[u8]) -> (res: Result<Bitmap, String>)
        requires
            !(bitmap_outcome(bytes@) is Crash),
        ensures
            agrees_bitmap(Some(res), bitmap_outcome(bytes@)),
            error_message_is(Some(res), bitmap_error(bytes@)),
    {
        match Self::new_checked(bytes) {
            Some(r) => r,
            None => Err(String::new()),
        }
    }
}

} // verus!
