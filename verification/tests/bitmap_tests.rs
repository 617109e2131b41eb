use wowser::image::bitmap::bitmap::Bitmap;
use wowser::image::bitmap::BitmapHeader;
use wowser::image::Color;

/// A bitmap file with a BITMAPINFOHEADER: the palette (as red, green, blue) padded with black
/// to `2^bpp` entries below 24 bits, then each row padded to a multiple of four bytes.
fn bmp_file(bpp: u16, width: i32, height: i32, palette: &[(u8, u8, u8)], rows: &[Vec<u8>]) -> Vec<u8> {
    let table_entries: usize = if bpp <= 8 { 1 << bpp } else { 0 };
    let pixel_offset = 54 + 4 * table_entries as u32;
    let mut pixel_data = vec![];
    for row in rows {
        let mut r = row.clone();
        while r.len() % 4 != 0 {
            r.push(0);
        }
        pixel_data.extend(r);
    }
    let size = pixel_offset + pixel_data.len() as u32;
    let mut out = vec![];
    out.extend(b"BM");
    out.extend(size.to_le_bytes());
    out.extend([0, 0, 0, 0]);
    out.extend(pixel_offset.to_le_bytes());
    out.extend(40u32.to_le_bytes());
    out.extend(width.to_le_bytes());
    out.extend(height.to_le_bytes());
    out.extend(1u16.to_le_bytes());
    out.extend(bpp.to_le_bytes());
    out.extend(0u32.to_le_bytes());
    out.extend((pixel_data.len() as u32).to_le_bytes());
    out.extend(2835i32.to_le_bytes());
    out.extend(2835i32.to_le_bytes());
    out.extend((palette.len() as u32).to_le_bytes());
    out.extend(0u32.to_le_bytes());
    for i in 0..table_entries {
        let (r, g, b) = if i < palette.len() { palette[i] } else { (0, 0, 0) };
        out.extend([b, g, r, 0]);
    }
    out.extend(pixel_data);
    out
}

#[test]
fn test_mono_bit() {
    // Most tools force monochrome to be black+white. There is technically a tiny color pallete that
    // should support two specific colors.
    let file = bmp_file(1, 3, 2, &[(0, 0, 255), (255, 0, 0)], &[vec![0b0010_0000], vec![0b0110_0000]]);
    let bitmap = Bitmap::new(&file).unwrap();
    assert_eq!(2, bitmap.height);
    assert_eq!(3, bitmap.width);
    assert_eq!(
        vec![Color::blue(), Color::blue(), Color::red(), Color::blue(), Color::red(), Color::red()],
        bitmap.pixels
    );
}

#[test]
fn test_16_bit() {
    let palette = [(128, 128, 128), (192, 192, 192), (0, 0, 255), (255, 0, 0), (0, 255, 0)];
    let file = bmp_file(4, 3, 2, &palette, &[vec![0x01, 0x20], vec![0x13, 0x40]]);
    let bitmap = Bitmap::new(&file).unwrap();
    assert_eq!(2, bitmap.height);
    assert_eq!(3, bitmap.width);
    assert_eq!(
        vec![
            Color::rgb(128, 128, 128),
            Color::rgb(192, 192, 192),
            Color::rgb(0, 0, 255),
            Color::rgb(192, 192, 192),
            Color::rgb(255, 0, 0),
            Color::rgb(0, 255, 0),
        ],
        bitmap.pixels
    );
}

#[test]
fn test_24_bit() {
    let file = bmp_file(
        24,
        3,
        2,
        &[],
        &[
            vec![128, 128, 128, 192, 160, 224, 192, 64, 64],
            vec![164, 160, 160, 64, 32, 224, 64, 192, 32],
        ],
    );
    let bitmap = Bitmap::new(&file).unwrap();
    assert_eq!(2, bitmap.height);
    assert_eq!(3, bitmap.width);
    assert_eq!(
        vec![
            Color::rgb(128, 128, 128),
            Color::rgb(224, 160, 192),
            Color::rgb(64, 64, 192),
            Color::rgb(160, 160, 164),
            Color::rgb(224, 32, 64),
            Color::rgb(32, 192, 64),
        ],
        bitmap.pixels
    );
}

#[test]
fn test_256_bit() {
    let palette = [
        (128, 128, 128),
        (224, 160, 192),
        (64, 64, 192),
        (160, 160, 164),
        (224, 32, 64),
        (32, 192, 64),
    ];
    let file = bmp_file(8, 3, 2, &palette, &[vec![0, 1, 2], vec![3, 4, 5]]);
    let bitmap = Bitmap::new(&file).unwrap();
    assert_eq!(2, bitmap.height);
    assert_eq!(3, bitmap.width);
    assert_eq!(
        vec![
            Color::rgb(128, 128, 128),
            Color::rgb(224, 160, 192),
            Color::rgb(64, 64, 192),
            Color::rgb(160, 160, 164),
            Color::rgb(224, 32, 64),
            Color::rgb(32, 192, 64),
        ],
        bitmap.pixels
    );
}

/// The file that `write` produces for a 24-bit image: no resolution, no image size, the
/// number of distinct colors.
fn written_file(width: i32, height: i32, distinct: u32, rows: &[Vec<u8>]) -> Vec<u8> {
    let mut file = bmp_file(24, width, height, &[], rows);
    file[34..38].copy_from_slice(&0u32.to_le_bytes());
    file[38..42].copy_from_slice(&0i32.to_le_bytes());
    file[42..46].copy_from_slice(&0i32.to_le_bytes());
    file[46..50].copy_from_slice(&distinct.to_le_bytes());
    file
}

#[test]
fn test_read_write() {
    let input = written_file(
        3,
        2,
        5,
        &[
            vec![128, 128, 128, 192, 160, 224, 192, 64, 64],
            vec![164, 160, 160, 64, 32, 224, 128, 128, 128],
        ],
    );
    let mut output_bytes = vec![];
    Bitmap::new(&input).unwrap().write(&mut output_bytes);
    assert_eq!(&output_bytes, &input);
}

#[test]
fn write_then_read_gives_back_the_image() {
    let pixels = vec![
        Color::rgb(1, 2, 3),
        Color::rgb(4, 5, 6),
        Color::rgb(1, 2, 3),
        Color::rgb(7, 8, 9),
        Color::rgb(10, 11, 12),
    ];
    let bitmap = Bitmap { width: 5, height: 1, pixels: pixels.clone() };
    let mut bytes = vec![];
    bitmap.write(&mut bytes);
    // 5 pixels of 3 bytes take 15 bytes, padded by one to 16.
    assert_eq!(bytes.len(), 54 + 16);
    assert_eq!(&bytes[46..50], &4u32.to_le_bytes());
    let read = Bitmap::new(&bytes).unwrap();
    assert_eq!(read, bitmap);
}

#[test]
fn unsupported_bitmaps_are_refused() {
    let mut file = bmp_file(24, 1, 1, &[], &[vec![1, 2, 3]]);
    file[30..34].copy_from_slice(&1u32.to_le_bytes());
    assert!(Bitmap::new(&file).is_err());
    let mut not_bm = bmp_file(24, 1, 1, &[], &[vec![1, 2, 3]]);
    not_bm[0] = b'X';
    assert!(Bitmap::new(&not_bm).is_err());
    let sixteen = bmp_file(16, 1, 1, &[], &[vec![1, 2]]);
    assert!(Bitmap::new(&sixteen).is_err());
}

#[test]
fn truncated_bitmaps_crash_in_the_checked_reading() {
    let file = bmp_file(24, 3, 2, &[], &[vec![1, 2, 3]]);
    assert!(Bitmap::new_checked(&file).is_none());
    assert!(Bitmap::new_checked(&file[0..10]).is_none());
}

#[test]
fn palette_rows_on_a_word_boundary_take_no_padding() {
    let palette = [(1, 1, 1), (2, 2, 2), (3, 3, 3), (4, 4, 4)];
    let file = bmp_file(8, 4, 2, &palette, &[vec![0, 1, 2, 3], vec![3, 2, 1, 0]]);
    let bitmap = Bitmap::new(&file).unwrap();
    let c: Vec<Color> = palette.iter().map(|&(r, g, b)| Color::rgb(r, g, b)).collect();
    assert_eq!(
        vec![c[0], c[1], c[2], c[3], c[3], c[2], c[1], c[0]],
        bitmap.pixels
    );
}

#[test]
fn bitmap_errors_say_what_was_refused() {
    let mut rle = bmp_file(8, 1, 1, &[], &[vec![0]]);
    rle[30..34].copy_from_slice(&1u32.to_le_bytes());
    assert_eq!(
        Err("Currently unsupported bitmap compression method: Rle8".to_string()),
        Bitmap::new(&rle)
    );
    let mut not_bm = bmp_file(24, 1, 1, &[], &[vec![1, 2, 3]]);
    not_bm[0] = b'X';
    assert_eq!(Err("Unsupported bitmap format: XM".to_string()), Bitmap::new(&not_bm));
    let mut long_header = bmp_file(24, 1, 1, &[], &[vec![1, 2, 3]]);
    long_header[14..18].copy_from_slice(&41u32.to_le_bytes());
    assert_eq!(Err("Header of unexpected length: 41".to_string()), Bitmap::new(&long_header));
    let sixteen = bmp_file(16, 1, -1, &[], &[vec![1, 2]]);
    let header = BitmapHeader::parse(&sixteen).unwrap();
    assert_eq!(Err(format!("Unsupported Bitmap: {:?}", header)), Bitmap::new(&sixteen));
}

#[test]
fn a_bitmap_id_that_is_not_utf8_gives_the_decoders_error() {
    let mut file = bmp_file(24, 1, 1, &[], &[vec![1, 2, 3]]);
    file[0] = 0xff;
    let expected = String::from_utf8(vec![0xff, b'M']).unwrap_err().to_string();
    assert_eq!(Err(expected.clone()), Bitmap::new(&file));
    assert_eq!(Some(expected), BitmapHeader::parse(&file).err());
}
