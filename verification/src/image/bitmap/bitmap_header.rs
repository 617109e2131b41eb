use vstd::prelude::*;

use super::bitmap_info_header::{
    info_header_bytes, info_header_error, info_header_of, info_header_ok, BitmapInfoHeader,
};
use super::le::{le_u32_at, le_u32_bytes, push_le_u32};
use crate::bits::u8_to_u32;
use crate::outcome::{error_message_is, Outcome};
use crate::text::{utf8_error_text, utf8_to_str};
use vstd::string::{StringExecFns, StringSliceAdditionalSpecFns};
use vstd::utf8::{decode_utf8, valid_utf8};

verus! {

/// The fourteen-byte file header of a bitmap, with the info header that follows it.
#[derive(Debug)]
pub struct BitmapHeader {
    pub id: String,
    pub size: u32,
    pub reserved_chunk_a: Vec<u8>,
    pub reserved_chunk_b: Vec<u8>,
    pub pixel_offset: u32,
    pub bitmap_info_header: BitmapInfoHeader,
}

pub struct BitmapHeaderView {
    pub id: Seq<char>,
    pub size: u32,
    pub reserved_chunk_a: Seq<u8>,
    pub reserved_chunk_b: Seq<u8>,
    pub pixel_offset: u32,
    pub bitmap_info_header: BitmapInfoHeader,
}

impl View for BitmapHeader {
    type V = BitmapHeaderView;

    open spec fn view(&self) -> BitmapHeaderView {
        BitmapHeaderView {
            id: self.id@,
            size: self.size,
            reserved_chunk_a: self.reserved_chunk_a@,
            reserved_chunk_b: self.reserved_chunk_b@,
            pixel_offset: self.pixel_offset,
            bitmap_info_header: self.bitmap_info_header,
        }
    }
}

/// Reading the headers at the start of a bitmap file: the two-byte id must be the text "BM"
/// and the info header must parse. Fewer than 14 bytes, or fewer than 54 bytes after a "BM",
/// crash.
pub open spec fn header_outcome(b: Seq<u8>) -> Outcome<BitmapHeaderView> {
    if b.len() < 14 {
        Outcome::Crash
    } else if !valid_utf8(b.subrange(0, 2)) {
        Outcome::Error
    } else if decode_utf8(b.subrange(0, 2)) != seq!['B', 'M'] {
        Outcome::Error
    } else if b.len() < 54 {
        Outcome::Crash
    } else if !info_header_ok(b.subrange(14, 54)) {
        Outcome::Error
    } else {
        Outcome::Value(
            BitmapHeaderView {
                id: decode_utf8(b.subrange(0, 2)),
                size: le_u32_at(b, 2) as u32,
                reserved_chunk_a: b.subrange(6, 8),
                reserved_chunk_b: b.subrange(8, 10),
                pixel_offset: le_u32_at(b, 10) as u32,
                bitmap_info_header: info_header_of(b.subrange(14, 54)),
            },
        )
    }
}

/// The message of the error that reading the headers ends in: the UTF-8 decoder's for an id
/// that is not UTF-8, one for an id other than "BM" (with the id read), or the info header's
/// error. `None` where there is no error.
pub open spec fn header_error(b: Seq<u8>) -> Option<Seq<char>> {
    if b.len() < 14 {
        None
    } else if !valid_utf8(b.subrange(0, 2)) {
        Some(utf8_error_text(b.subrange(0, 2)))
    } else if decode_utf8(b.subrange(0, 2)) != seq!['B', 'M'] {
        Some("Unsupported bitmap format: "@ + decode_utf8(b.subrange(0, 2)))
    } else if b.len() < 54 || info_header_ok(b.subrange(14, 54)) {
        None
    } else {
        Some(info_header_error(b.subrange(14, 54)))
    }
}

/// The bytes of a file header and its info header.
pub open spec fn header_bytes(h: BitmapHeaderView) -> Seq<u8> {
    vstd::utf8::encode_utf8(h.id) + le_u32_bytes(h.size as int) + h.reserved_chunk_a
        + h.reserved_chunk_b + le_u32_bytes(h.pixel_offset as int) + info_header_bytes(
        h.bitmap_info_header,
    )
}

impl BitmapHeader {
    /// Reads the headers; `None` stands for the inputs on which reading crashes.
    pub fn parse_checked(bytes: &[u8]) -> (res: Option<Result<BitmapHeader, String>>)
        ensures
            match res {
                None => header_outcome(bytes@) is Crash,
                Some(Err(_)) => header_outcome(bytes@) is Error,
                Some(Ok(h)) => header_outcome(bytes@) == Outcome::Value(h@),
            },
            error_message_is(res, header_error(bytes@)),
    {
        if bytes.len() < 14 {
            return None;
        }
        let id_bytes = &bytes[0..2];
        assert(id_bytes@ == bytes@.subrange(0, 2));
        let id = match utf8_to_str(id_bytes) {
            Ok(s) => String::from_str(s),
            Err(e) => return Some(Err(e)),
        };
        let size = u8_to_u32(bytes[5], bytes[4], bytes[3], bytes[2]);
        let pixel_offset = u8_to_u32(bytes[13], bytes[12], bytes[11], bytes[10]);
        let bm = String::from_str("BM");
        proof {
            reveal_strlit("BM");
            assert(bm@ =~= seq!['B', 'M']);
            assert(id@ == decode_utf8(bytes@.subrange(0, 2)));
        }
        if !(id == bm) {
            let mut message = String::from_str("Unsupported bitmap format: ");
            message.append(id.as_str());
            return Some(Err(message));
        }
        if bytes.len() < 54 {
            return None;
        }
        let bitmap_info_header = match BitmapInfoHeader::parse(&bytes[14..54]) {
            Ok(h) => h,
            Err(e) => return Some(Err(e)),
        };
        let mut reserved_chunk_a: Vec<u8> = Vec::new();
        reserved_chunk_a.push(bytes[6]);
        reserved_chunk_a.push(bytes[7]);
        let mut reserved_chunk_b: Vec<u8> = Vec::new();
        reserved_chunk_b.push(bytes[8]);
        reserved_chunk_b.push(bytes[9]);
        assert(reserved_chunk_a@ =~= bytes@.subrange(6, 8));
        assert(reserved_chunk_b@ =~= bytes@.subrange(8, 10));
        Some(
            Ok(
                BitmapHeader {
                    id,
                    size,
                    reserved_chunk_a,
                    reserved_chunk_b,
                    pixel_offset,
                    bitmap_info_header,
                },
            ),
        )
    }

    /// Reads the file header and the info header at the start of a bitmap file.
    pub fn parse(bytes: &[u8]) -> (res: Result<BitmapHeader, String>)
        requires
            !(header_outcome(bytes@) is Crash),
        ensures
            res is Err <==> header_outcome(bytes@) is Error,
            res matches Ok(h) ==> header_outcome(bytes@) == Outcome::Value(h@),
            error_message_is(Some(res), header_error(bytes@)),
    {
        match Self::parse_checked(bytes) {
            Some(r) => r,
            None => Err(String::new()),
        }
    }

    /// Appends the bytes of the headers to `writer`: the id, the size, the reserved chunks,
    /// the pixel offset, then the info header.
    pub fn write(&self, writer: &mut Vec<u8>)
        ensures
            final(writer)@ == old(writer)@ + header_bytes(self@),
    {
        writer.extend_from_slice(self.id.as_str().as_bytes());
        push_le_u32(writer, self.size);
        writer.extend_from_slice(self.reserved_chunk_a.as_slice());
        writer.extend_from_slice(self.reserved_chunk_b.as_slice());
        push_le_u32(writer, self.pixel_offset);
        self.bitmap_info_header.write(writer);
        assert(final(writer)@ =~= old(writer)@ + header_bytes(self@));
    }
}

} // verus!
