//! Encoding of a decoded image as a 24-bit uncompressed BMP file.
use vstd::prelude::*;

use super::bitmap::{bitmap_outcome, color_at, grid, rgb_pixel_ok, rgb_stride, Bitmap, BitmapView};
use super::bitmap_header::header_outcome;
use super::bitmap_info_header::{info_header_bytes, info_header_ok, info_header_of, lemma_info_header_round_trip};
use super::le::{le_u32_at, le_u32_bytes, lemma_le_u32_round_trip};
use crate::outcome::Outcome;
use vstd::utf8::{decode_utf8, encode_utf8, valid_utf8};
use super::bitmap_compression_method::BitmapCompressionMethod;
use super::bitmap_header::{header_bytes, BitmapHeader, BitmapHeaderView};
use super::bitmap_info_header::BitmapInfoHeader;
use crate::bits::{be_u32, u8_to_u32};
use crate::image::color::Color;
use std::collections::HashSet;
use vstd::string::StringExecFns;

verus! {

broadcast use vstd::std_specs::hash::group_hash_axioms;

/// The zero bytes that bring a row of `w` three-byte pixels to a multiple of four bytes.
pub open spec fn row_padding(w: int) -> int {
    (4 - (3 * w) % 4) % 4
}

/// `n` zero bytes.
pub open spec fn zeros(n: int) -> Seq<u8> {
    Seq::new(n as nat, |i: int| 0u8)
}

/// Three bytes a pixel: blue, green, red.
pub open spec fn bgr_bytes(p: Seq<Color>) -> Seq<u8>
    decreases p.len(),
{
    if p.len() == 0 {
        Seq::empty()
    } else {
        bgr_bytes(p.drop_last()) + seq![p.last().b, p.last().g, p.last().r]
    }
}

/// The pixel data of an image `w` pixels wide: its pixels row after row, each complete row
/// followed by the zero bytes that pad it to a multiple of four bytes. An incomplete last
/// row is not padded, and with no width nothing is.
pub open spec fn pixel_data(p: Seq<Color>, w: int) -> Seq<u8>
    decreases p.len(),
{
    if w <= 0 || p.len() < w {
        bgr_bytes(p)
    } else {
        bgr_bytes(p.take(w)) + zeros(row_padding(w)) + pixel_data(p.skip(w), w)
    }
}

/// The key under which a color is counted: its channels as one 32-bit number.
pub open spec fn color_key(c: Color) -> u32 {
    be_u32(c.r, c.g, c.b, c.a) as u32
}

/// The number of distinct colors among the pixels.
pub open spec fn distinct_colors(p: Seq<Color>) -> nat {
    p.to_set().len()
}

/// The size field of the written file: the two headers, three bytes a pixel and the row
/// padding, each of the last two cut to 32 bits.
pub open spec fn written_size(b: BitmapView) -> int {
    54 + ((b.width * b.height * 3) as u32) + ((b.height * row_padding(b.width as int)) as u32)
}

/// The info header of the written file: 24 bits per pixel, uncompressed, with the number of
/// distinct colors.
pub open spec fn written_info_header(b: BitmapView) -> BitmapInfoHeader {
    BitmapInfoHeader {
        header_size: 40,
        width: b.width as i32,
        height: b.height as i32,
        color_planes: 1,
        bits_per_pixel: 24,
        compression_method: BitmapCompressionMethod::Rgb,
        image_size: 0,
        h_resolution: 0,
        v_resolution: 0,
        num_of_colors: distinct_colors(b.pixels) as u32,
        num_of_important_colors: 0,
    }
}

/// The file header of the written file: id "BM", zero reserved bytes, pixels at offset 54.
pub open spec fn written_header(b: BitmapView) -> BitmapHeaderView {
    BitmapHeaderView {
        id: seq!['B', 'M'],
        size: written_size(b) as u32,
        reserved_chunk_a: seq![0u8, 0u8],
        reserved_chunk_b: seq![0u8, 0u8],
        pixel_offset: 54,
        bitmap_info_header: written_info_header(b),
    }
}

/// The bytes of the written file.
pub open spec fn bitmap_bytes(b: BitmapView) -> Seq<u8> {
    header_bytes(written_header(b)) + pixel_data(b.pixels, b.width as int)
}

/// Whether the sizes that `write` computes fit their machine types.
pub open spec fn write_ok(b: BitmapView) -> bool {
    &&& b.width * b.height * 3 <= usize::MAX
    &&& b.width * 3 <= usize::MAX
    &&& b.height * row_padding(b.width as int) <= usize::MAX
    &&& written_size(b) <= u32::MAX
}

/// Distinct colors have distinct keys.
proof fn lemma_color_key_injective(c1: Color, c2: Color)
    requires
        color_key(c1) == color_key(c2),
    ensures
        c1 == c2,
{
    let (r1, g1, b1, a1) = (c1.r, c1.g, c1.b, c1.a);
    let (r2, g2, b2, a2) = (c2.r, c2.g, c2.b, c2.a);
    assert(r1 == r2 && g1 == g2 && b1 == b2 && a1 == a2) by (bit_vector)
        requires
            r1 * 16777216 + g1 * 65536 + b1 * 256 + a1 == r2 * 16777216 + g2 * 65536 + b2
                * 256 + a2,
    ;
}

fn push_bgr(writer: &mut Vec<u8>, c: Color)
    ensures
        final(writer)@ == old(writer)@ + seq![c.b, c.g, c.r],
{
    writer.push(c.b);
    writer.push(c.g);
    writer.push(c.r);
    assert(final(writer)@ =~= old(writer)@ + seq![c.b, c.g, c.r]);
}

/// Appends the pixels `from..to` as blue, green, red.
fn push_pixels(writer: &mut Vec<u8>, pixels: &Vec<Color>, from: usize, to: usize)
    requires
        from <= to <= pixels@.len(),
    ensures
        final(writer)@ == old(writer)@ + bgr_bytes(pixels@.subrange(from as int, to as int)),
{
    let mut j: usize = from;
    while j < to
        invariant
            from <= j <= to <= pixels@.len(),
            writer@ == old(writer)@ + bgr_bytes(pixels@.subrange(from as int, j as int)),
        decreases to - j,
    {
        push_bgr(writer, pixels[j]);
        assert(pixels@.subrange(from as int, j + 1).drop_last() =~= pixels@.subrange(
            from as int,
            j as int,
        ));
        j = j + 1;
        assert(writer@ =~= old(writer)@ + bgr_bytes(pixels@.subrange(from as int, j as int)));
    }
}

/// The number of distinct colors, counted through their keys in a hash set.
fn count_colors(pixels: &Vec<Color>) -> (res: usize)
    ensures
        res == distinct_colors(pixels@),
{
    let mut keys: HashSet<u32> = HashSet::new();
    let n = pixels.len();
    let mut i: usize = 0;
    while i < n
        invariant
            n == pixels@.len(),
            i <= n,
            forall|k: u32|
                keys@.contains(k) <==> exists|j: int| 0 <= j < i && color_key(#[trigger] pixels@[j]) == k,
        decreases n - i,
    {
        let c = pixels[i];
        let key = u8_to_u32(c.r, c.g, c.b, c.a);
        keys.insert(key);
        proof {
            assert forall|k: u32|
                keys@.contains(k) <==> exists|j: int|
                    0 <= j < i + 1 && color_key(#[trigger] pixels@[j]) == k by {
                if k == key {
                    assert(color_key(pixels@[i as int]) == k);
                }
            }
        }
        i = i + 1;
    }
    let ghost f = |c: Color| color_key(c);
    let ghost colors = pixels@.to_set();
    proof {
        assert(keys@ =~= colors.map(f)) by {
            assert forall|k: u32| keys@.contains(k) implies colors.map(f).contains(k) by {
                let j = choose|j: int| 0 <= j < n && color_key(#[trigger] pixels@[j]) == k;
                assert(colors.contains(pixels@[j]));
            }
            assert forall|k: u32| colors.map(f).contains(k) implies keys@.contains(k) by {
                let c = choose|c: Color| colors.contains(c) && f(c) == k;
                assert(pixels@.contains(c));
                let j = choose|j: int| 0 <= j < pixels@.len() && pixels@[j] == c;
                assert(color_key(pixels@[j]) == k);
            }
        }
        assert(vstd::relations::injective_on(f, colors)) by {
            assert forall|c1: Color, c2: Color|
                colors.contains(c1) && colors.contains(c2) && #[trigger] f(c1) == #[trigger] f(
                    c2,
                ) implies c1 == c2 by {
                lemma_color_key_injective(c1, c2);
            }
        }
        vstd::set_lib::lemma_map_size(colors, keys@, f);
    }
    keys.len()
}

impl Bitmap {
    /// Appends the image to `writer` as a 24-bit uncompressed bitmap file: the file header,
    /// the info header (with the number of distinct colors), then the pixels row after row,
    /// each complete row padded with zeros to a multiple of four bytes.
    pub fn write(&self, writer: &mut Vec<u8>)
        requires
            write_ok(self@),
        ensures
            final(writer)@ == old(writer)@ + bitmap_bytes(self@),
    {
        let num_of_colors = count_colors(&self.pixels);
        let bh_size: u32 = 14;
        let bih_size: u32 = 40;
        let pixel_bytes = (self.width * self.height * 3) as u32;
        let pixel_shortage = (self.width * 3) % 4;
        let pad: usize = if pixel_shortage > 0 {
            4 - pixel_shortage
        } else {
            0
        };
        assert(pad == row_padding(self.width as int));
        let pixel_padding = (self.height * pad) as u32;
        let file_size = bh_size + bih_size + pixel_bytes + pixel_padding;
        let mut reserved_chunk_a: Vec<u8> = Vec::new();
        reserved_chunk_a.push(0);
        reserved_chunk_a.push(0);
        let mut reserved_chunk_b: Vec<u8> = Vec::new();
        reserved_chunk_b.push(0);
        reserved_chunk_b.push(0);
        let header = BitmapHeader {
            id: String::from_str("BM"),
            size: file_size,
            reserved_chunk_a,
            reserved_chunk_b,
            pixel_offset: bh_size + bih_size,
            bitmap_info_header: BitmapInfoHeader {
                header_size: bih_size,
                width: self.width as i32,
                height: self.height as i32,
                color_planes: 1,
                bits_per_pixel: 24,
                compression_method: BitmapCompressionMethod::Rgb,
                image_size: 0,
                h_resolution: 0,
                v_resolution: 0,
                num_of_colors: num_of_colors as u32,
                num_of_important_colors: 0,
            },
        };
        proof {
            reveal_strlit("BM");
            assert(header@.id =~= seq!['B', 'M']);
            assert(header@.reserved_chunk_a =~= seq![0u8, 0u8]);
            assert(header@.reserved_chunk_b =~= seq![0u8, 0u8]);
            assert(header@ == written_header(self@));
        }
        header.write(writer);
        let ghost start = writer@;
        let w = self.width;
        let n = self.pixels.len();
        let mut i: usize = 0;
        assert(self.pixels@.skip(0) =~= self.pixels@);
        while w > 0 && n - i >= w
            invariant
                w == self.width,
                n == self.pixels@.len(),
                pad == row_padding(w as int),
                i <= n,
                start + pixel_data(self.pixels@, w as int) == writer@ + pixel_data(
                    self.pixels@.skip(i as int),
                    w as int,
                ),
            decreases n - i,
        {
            let ghost rest = self.pixels@.skip(i as int);
            let ghost before = writer@;
            push_pixels(writer, &self.pixels, i, i + w);
            let mut k: usize = 0;
            while k < pad
                invariant
                    k <= pad,
                    writer@ == before + bgr_bytes(self.pixels@.subrange(i as int, i + w))
                        + zeros(k as int),
                decreases pad - k,
            {
                writer.push(0);
                k = k + 1;
                assert(writer@ =~= before + bgr_bytes(self.pixels@.subrange(i as int, i + w))
                    + zeros(k as int));
            }
            proof {
                assert(rest.take(w as int) =~= self.pixels@.subrange(i as int, i + w));
                assert(rest.skip(w as int) =~= self.pixels@.skip(i + w));
                assert(pixel_data(rest, w as int) == bgr_bytes(rest.take(w as int)) + zeros(
                    row_padding(w as int),
                ) + pixel_data(rest.skip(w as int), w as int));
            }
            i = i + w;
            assert(start + pixel_data(self.pixels@, w as int) =~= writer@ + pixel_data(
                self.pixels@.skip(i as int),
                w as int,
            ));
        }
        let ghost before = writer@;
        push_pixels(writer, &self.pixels, i, n);
        proof {
            let rest = self.pixels@.skip(i as int);
            assert(rest =~= self.pixels@.subrange(i as int, n as int));
            assert(pixel_data(rest, w as int) == bgr_bytes(rest));
            assert(writer@ =~= old(writer)@ + bitmap_bytes(self@));
        }
    }
}

/// Channel `k` of a pixel as it is stored: blue, green, then red.
pub open spec fn channel(c: Color, k: int) -> u8 {
    if k == 0 {
        c.b
    } else if k == 1 {
        c.g
    } else {
        c.r
    }
}

proof fn lemma_bgr_bytes(p: Seq<Color>, i: int, k: int)
    requires
        0 <= i < p.len(),
        0 <= k < 3,
    ensures
        bgr_bytes(p).len() == 3 * p.len(),
        bgr_bytes(p)[3 * i + k] == channel(p[i], k),
    decreases p.len(),
{
    lemma_bgr_bytes_len(p);
    if i < p.len() - 1 {
        lemma_bgr_bytes(p.drop_last(), i, k);
    }
}

proof fn lemma_bgr_bytes_len(p: Seq<Color>)
    ensures
        bgr_bytes(p).len() == 3 * p.len(),
    decreases p.len(),
{
    if p.len() > 0 {
        lemma_bgr_bytes_len(p.drop_last());
    }
}

proof fn lemma_pixel_data_len(p: Seq<Color>, w: int, h: int)
    requires
        w > 0,
        h >= 0,
        p.len() == h * w,
    ensures
        pixel_data(p, w).len() == h * rgb_stride(w),
    decreases h,
{
    if h == 0 {
        assert(h * w == 0) by (nonlinear_arith)
            requires
                h == 0,
        ;
    } else {
        assert(p.len() >= w) by (nonlinear_arith)
            requires
                p.len() == h * w,
                h >= 1,
                w > 0,
        ;
        assert((h - 1) * w == h * w - w) by (nonlinear_arith);
        assert((h - 1) * rgb_stride(w) == h * rgb_stride(w) - rgb_stride(w)) by (nonlinear_arith);
        lemma_pixel_data_len(p.skip(w), w, h - 1);
        lemma_bgr_bytes_len(p.take(w));
    }
}

proof fn lemma_pixel_data_at(p: Seq<Color>, w: int, h: int, y: int, x: int, k: int)
    requires
        w > 0,
        p.len() == h * w,
        0 <= y < h,
        0 <= x < w,
        0 <= k < 3,
    ensures
        pixel_data(p, w)[y * rgb_stride(w) + 3 * x + k] == channel(p[y * w + x], k),
    decreases h,
{
    assert(p.len() >= w) by (nonlinear_arith)
        requires
            p.len() == h * w,
            h > y >= 0,
            w > 0,
    ;
    let stride = rgb_stride(w);
    let head = bgr_bytes(p.take(w)) + zeros(row_padding(w));
    let rest = pixel_data(p.skip(w), w);
    lemma_bgr_bytes_len(p.take(w));
    assert(head.len() == stride);
    assert(pixel_data(p, w) == head + rest);
    assert((h - 1) * w == h * w - w) by (nonlinear_arith);
    lemma_pixel_data_len(p.skip(w), w, h - 1);
    if y == 0 {
        lemma_bgr_bytes(p.take(w), x, k);
        assert(y * stride == 0 && y * w == 0) by (nonlinear_arith)
            requires
                y == 0,
        ;
        assert(3 * x + k < 3 * w);
        assert(head[3 * x + k] == bgr_bytes(p.take(w))[3 * x + k]);
    } else {
        assert((y - 1) * stride == y * stride - stride) by (nonlinear_arith);
        assert((y - 1) * w == y * w - w) by (nonlinear_arith);
        assert((y - 1) * stride + 3 * x + k < (h - 1) * stride) by (nonlinear_arith)
            requires
                0 <= y - 1 < h - 1,
                0 <= x < w,
                0 <= k < 3,
                stride >= 3 * w,
        ;
        assert((y - 1) * stride >= 0) by (nonlinear_arith)
            requires
                y >= 1,
                stride >= 0,
        ;
        lemma_pixel_data_at(p.skip(w), w, h - 1, y - 1, x, k);
        let i = y * stride + 3 * x + k;
        assert(i >= stride);
        assert(pixel_data(p, w)[i] == rest[i - stride]);
        assert(i - stride == (y - 1) * stride + 3 * x + k);
        assert(0 <= (y - 1) * w + x && y * w + x < h * w) by (nonlinear_arith)
            requires
                1 <= y < h,
                0 <= x < w,
        ;
        assert(p.skip(w)[(y - 1) * w + x] == p[y * w + x]);
    }
}

proof fn lemma_grid_of_pixels(p: Seq<Color>, w: nat, h: nat, f: spec_fn(int, int) -> Color)
    requires
        p.len() == h * w,
        forall|y: int, x: int| 0 <= y < h && 0 <= x < w ==> #[trigger] f(y, x) == p[y * w + x],
    ensures
        grid(h, w, f) == p,
    decreases h,
{
    if h > 0 {
        let hh = (h - 1) as nat;
        assert(hh * w == h * w - w) by (nonlinear_arith)
            requires
                hh == h - 1,
        ;
        let q = p.take((hh * w) as int);
        assert forall|y: int, x: int| 0 <= y < hh && 0 <= x < w implies #[trigger] f(y, x) == q[y
            * w + x] by {
            assert(y * w + x < hh * w) by (nonlinear_arith)
                requires
                    y < hh,
                    x < w,
            ;
        }
        lemma_grid_of_pixels(q, w, hh, f);
        assert forall|x: int| 0 <= x < w implies #[trigger] f(hh as int, x) == p[hh * w + x] by {}
        assert(p =~= q + Seq::new(w, |x: int| f(hh as int, x)));
    } else {
        assert(h * w == 0) by (nonlinear_arith)
            requires
                h == 0,
        ;
        assert(p =~= Seq::<Color>::empty());
    }
}

/// Decoding a written file gives back the image: an image whose pixels fill its `width` by
/// `height` rectangle, all opaque, with sides and area within `i32` and with sizes that
/// `write` can compute, reads back as itself.
#[verifier::rlimit(50)]
proof fn lemma_written_header(b: BitmapView)
    ensures
        bitmap_bytes(b).len() == 54 + pixel_data(b.pixels, b.width as int).len(),
        bitmap_bytes(b).subrange(54, bitmap_bytes(b).len() as int) == pixel_data(
            b.pixels,
            b.width as int,
        ),
        header_outcome(bitmap_bytes(b)) == Outcome::Value(written_header(b)),
{
    let hv = written_header(b);
    let info = written_info_header(b);
    let bytes = bitmap_bytes(b);
    let id = seq!['B', 'M'];
    assert(encode_utf8(id).len() == 2) by {
        reveal_with_fuel(encode_utf8, 3);
        assert(id.drop_first().drop_first() =~= Seq::<char>::empty());
    }
    vstd::utf8::encode_utf8_decode_utf8(id);
    vstd::utf8::encode_utf8_valid_utf8(id);
    let hb = header_bytes(hv);
    assert(hb.len() == 54);
    let pd = pixel_data(b.pixels, b.width as int);
    assert(bytes == hb + pd);
    assert(bytes.subrange(54, bytes.len() as int) =~= pd);
    assert(bytes.subrange(0, 2) =~= encode_utf8(id));
    assert(bytes.subrange(2, 6) =~= le_u32_bytes(hv.size as int));
    lemma_le_u32_round_trip(hv.size as int, bytes, 2);
    assert(bytes.subrange(10, 14) =~= le_u32_bytes(54));
    lemma_le_u32_round_trip(54, bytes, 10);
    assert(bytes.subrange(6, 8) =~= seq![0u8, 0u8]);
    assert(bytes.subrange(8, 10) =~= seq![0u8, 0u8]);
    assert(bytes.subrange(14, 54) =~= info_header_bytes(info));
    lemma_info_header_round_trip(info);
}

/// Decoding a written file gives back the image: an image whose pixels fill its `width` by
/// `height` rectangle, all opaque, with sides and area within `i32` and with sizes that
/// `write` can compute, reads back as itself.
pub proof fn lemma_write_then_decode(b: BitmapView)
    requires
        b.pixels.len() == b.width * b.height,
        b.width <= i32::MAX,
        b.height <= i32::MAX,
        b.width * b.height <= i32::MAX,
        forall|i: int| 0 <= i < b.pixels.len() ==> (#[trigger] b.pixels[i]).a == 255,
        write_ok(b),
    ensures
        bitmap_outcome(bitmap_bytes(b)) == Outcome::Value(b),
{
    let bytes = bitmap_bytes(b);
    let w = b.width as int;
    let h = b.height as int;
    lemma_written_header(b);
    let info = written_info_header(b);
    assert(info.width == w && info.height == h);
    if w == 0 || h == 0 {
        assert(b.pixels.len() == 0) by (nonlinear_arith)
            requires
                b.pixels.len() == w * h,
                w == 0 || h == 0,
        ;
        assert(b.pixels =~= Seq::<Color>::empty());
    } else {
        assert(b.pixels.len() == h * w) by (nonlinear_arith)
            requires
                b.pixels.len() == w * h,
        ;
        lemma_rgb_pixels(b.pixels, w, h, bytes);
    }
}

proof fn lemma_rgb_pixels(p: Seq<Color>, w: int, h: int, bytes: Seq<u8>)
    requires
        w > 0,
        h > 0,
        p.len() == h * w,
        forall|i: int| 0 <= i < p.len() ==> (#[trigger] p[i]).a == 255,
        bytes.len() == 54 + pixel_data(p, w).len(),
        bytes.subrange(54, bytes.len() as int) == pixel_data(p, w),
    ensures
        forall|y: int, x: int| 0 <= y < h && 0 <= x < w ==> #[trigger] rgb_pixel_ok(bytes, w, y, x),
        grid(h as nat, w as nat, |y: int, x: int| color_at(bytes, 54 + y * rgb_stride(w) + 3 * x))
            == p,
{
    let stride = rgb_stride(w);
    let pd = pixel_data(p, w);
    lemma_pixel_data_len(p, w, h);
    let f = |y: int, x: int| color_at(bytes, 54 + y * rgb_stride(w) + 3 * x);
    assert forall|y: int, x: int|
        #![trigger rgb_pixel_ok(bytes, w, y, x)]
        #![trigger f(y, x)]
        0 <= y < h && 0 <= x < w implies rgb_pixel_ok(bytes, w, y, x) && f(y, x) == p[y * w
            + x] by {
        assert(y * stride + 3 * x + 2 < h * stride) by (nonlinear_arith)
            requires
                0 <= y < h,
                0 <= x < w,
                stride >= 3 * w,
        ;
        assert(0 <= y * w + x < h * w) by (nonlinear_arith)
            requires
                0 <= y < h,
                0 <= x < w,
        ;
        assert(y * stride >= 0) by (nonlinear_arith)
            requires
                y >= 0,
                stride >= 0,
        ;
        let o = y * stride + 3 * x;
        lemma_pixel_data_at(p, w, h, y, x, 0);
        lemma_pixel_data_at(p, w, h, y, x, 1);
        lemma_pixel_data_at(p, w, h, y, x, 2);
        assert(bytes[54 + o] == pd[o]);
        assert(bytes[54 + o + 1] == pd[o + 1]);
        assert(bytes[54 + o + 2] == pd[o + 2]);
        let c = p[y * w + x];
        assert(c.a == 255);
    }
    lemma_grid_of_pixels(p, w as nat, h as nat, f);
}

} // verus!
