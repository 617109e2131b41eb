//! Reading the status line and the header fields at the start of a response.
use vstd::prelude::*;

use super::structures::{headers_view, HttpHeader, HttpHeaderView, HttpStatus, HttpStatusView};
use crate::outcome::Outcome;
use crate::text::{
    ascii_lower, chars_of, index_from, index_from_exec, lemma_index_from, parse_unsigned, parse_unsigned_exec, substring, to_ascii_lowercase,
    trim, trim_str, utf8_to_str,
};
use vstd::string::StrSliceExecFns;
use vstd::utf8::{decode_utf8, valid_utf8};

verus! {

/// The first position at or after `from` where a line break `\r\n` starts, or -1.
pub open spec fn find_crlf(b: Seq<u8>, from: int) -> int
    decreases b.len() - from,
{
    if from < 0 || from + 1 >= b.len() {
        -1
    } else if b[from] == 13 && b[from + 1] == 10 {
        from
    } else {
        find_crlf(b, from + 1)
    }
}

pub proof fn lemma_find_crlf(b: Seq<u8>, from: int)
    ensures
        find_crlf(b, from) == -1 || (from <= find_crlf(b, from) && find_crlf(b, from) + 1 < b.len()
            && b[find_crlf(b, from)] == 13 && b[find_crlf(b, from) + 1] == 10),
    decreases b.len() - from,
{
    if !(from < 0 || from + 1 >= b.len()) && !(b[from] == 13 && b[from + 1] == 10) {
        lemma_find_crlf(b, from + 1);
    }
}

/// A line break at `q` is found at or before `q`.
pub proof fn lemma_find_crlf_until(b: Seq<u8>, from: int, q: int)
    requires
        0 <= from <= q,
        q + 1 < b.len(),
        b[q] == 13,
        b[q + 1] == 10,
    ensures
        from <= find_crlf(b, from) <= q,
    decreases q - from,
{
    if !(b[from] == 13 && b[from + 1] == 10) {
        lemma_find_crlf_until(b, from + 1, q);
    }
}

/// The status line, as `splitn(3, ' ')` cuts it: the version up to the first space, the
/// code up to the next space (a decimal `u16`), and the reason phrase after it. The line must
/// be UTF-8 and hold two spaces.
pub open spec fn status_line(line: Seq<u8>) -> Option<HttpStatusView> {
    if !valid_utf8(line) {
        None
    } else {
        let s = decode_utf8(line);
        let i1 = index_from(s, ' ', 0);
        let i2 = index_from(s, ' ', i1 + 1);
        if i1 < 0 || i2 < 0 {
            None
        } else {
            match parse_unsigned(s.subrange(i1 + 1, i2), 10, 65535) {
                None => None,
                Some(code) => Some(
                    HttpStatusView {
                        http_version: s.take(i1),
                        status_code: code as u16,
                        reason_phrase: s.skip(i2 + 1),
                    },
                ),
            }
        }
    }
}

/// A header line: UTF-8 text with a colon; the name before the first colon in lower case,
/// the value after it without surrounding white space.
pub open spec fn header_line(line: Seq<u8>) -> Option<HttpHeaderView> {
    if !valid_utf8(line) {
        None
    } else {
        let s = decode_utf8(line);
        let i = index_from(s, ':', 0);
        if i < 0 {
            None
        } else {
            Some(
                HttpHeaderView {
                    name: s.take(i).map_values(|c: char| ascii_lower(c)),
                    value: trim(s.skip(i + 1)),
                },
            )
        }
    }
}

/// The header lines from `pos` on, up to the empty line that ends them, with the position
/// just past that empty line. A line that is not a header refuses the whole; header lines
/// that run to the end of the input with no empty line after them crash.
pub open spec fn headers_from(b: Seq<u8>, pos: int) -> Outcome<(Seq<HttpHeaderView>, int)>
    decreases b.len() - pos,
{
    if pos < 0 || pos > b.len() {
        Outcome::Crash
    } else {
        let e = find_crlf(b, pos);
        let end = if e < 0 {
            b.len() as int
        } else {
            e
        };
        if end == pos {
            if pos + 2 > b.len() {
                Outcome::Crash
            } else {
                Outcome::Value((Seq::empty(), pos + 2))
            }
        } else {
            match header_line(b.subrange(pos, end)) {
                None => Outcome::Error,
                Some(h) => if e < 0 {
                    Outcome::Crash
                } else {
                    proof {
                        lemma_find_crlf(b, pos);
                    }
                    match headers_from(b, e + 2) {
                        Outcome::Value((hs, off)) => Outcome::Value((seq![h] + hs, off)),
                        Outcome::Error => Outcome::Error,
                        Outcome::Crash => Outcome::Crash,
                    }
                },
            }
        }
    }
}

/// The body starts after the lines read and within the input.
pub proof fn lemma_headers_from_offset(b: Seq<u8>, pos: int)
    ensures
        headers_from(b, pos) matches Outcome::Value((hs, off)) ==> pos < off <= b.len(),
    decreases b.len() - pos,
{
    if 0 <= pos <= b.len() {
        lemma_find_crlf(b, pos);
        let e = find_crlf(b, pos);
        if e >= 0 && e != pos {
            lemma_headers_from_offset(b, e + 2);
        }
    }
}

/// The body of a response starts within it.
pub proof fn lemma_status_headers_offset(b: Seq<u8>)
    ensures
        status_headers(b) matches Outcome::Value((st, hs, off)) ==> 0 < off <= b.len(),
{
    lemma_find_crlf(b, 0);
    lemma_headers_from_offset(b, find_crlf(b, 0) + 2);
}

/// Reading the start of a response: the status line, the header lines, and where the body
/// starts (just past the empty line).
pub open spec fn status_headers(b: Seq<u8>) -> Outcome<(HttpStatusView, Seq<HttpHeaderView>, int)> {
    let e0 = find_crlf(b, 0);
    let first = if e0 < 0 {
        b
    } else {
        b.take(e0)
    };
    match status_line(first) {
        None => Outcome::Error,
        Some(st) => if e0 < 0 {
            Outcome::Crash
        } else {
            match headers_from(b, e0 + 2) {
                Outcome::Value((hs, off)) => Outcome::Value((st, hs, off)),
                Outcome::Error => Outcome::Error,
                Outcome::Crash => Outcome::Crash,
            }
        },
    }
}

/// Whether `b` holds the blank line `\r\n\r\n` that ends the headers.
pub open spec fn has_end_of_headers(b: Seq<u8>) -> bool {
    exists|q: int|
        0 <= q && q + 3 < b.len() && #[trigger] b[q] == 13 && b[q + 1] == 10 && b[q + 2] == 13
            && b[q + 3] == 10
}

/// The first line break at or after `from`.
fn find_crlf_exec(b: &[u8], from: usize) -> (r: Option<usize>)
    ensures
        match r {
            None => find_crlf(b@, from as int) < 0,
            Some(e) => e == find_crlf(b@, from as int),
        },
{
    let n = b.len();
    let mut i = from;
    while i < n && i + 1 < n
        invariant
            n == b@.len(),
            from <= i,
            find_crlf(b@, from as int) == find_crlf(b@, i as int),
        decreases n - i,
    {
        if b[i] == 13 && b[i + 1] == 10 {
            return Some(i);
        }
        i = i + 1;
    }
    None
}

/// Reads the status line.
fn parse_status_line(line: &[u8]) -> (res: Option<HttpStatus>)
    ensures
        match status_line(line@) {
            None => res is None,
            Some(st) => res matches Some(s) && s@ == st,
        },
{
    let text = match utf8_to_str(line) {
        Ok(t) => t,
        Err(_) => return None,
    };
    let chars = chars_of(text);
    let n = chars.len();
    let i1 = match index_from_exec(&chars, ' ', 0) {
        Some(i) => i,
        None => return None,
    };
    proof {
        lemma_index_from(chars@, ' ', 0);
    }
    let i2 = match index_from_exec(&chars, ' ', i1 + 1) {
        Some(i) => i,
        None => return None,
    };
    proof {
        lemma_index_from(chars@, ' ', i1 + 1);
    }
    let code_chars = &chars.as_slice()[i1 + 1..i2];
    assert(code_chars@ =~= chars@.subrange(i1 + 1, i2 as int));
    let ghost code_spec = parse_unsigned(chars@.subrange(i1 + 1, i2 as int), 10, 65535);
    let status_code = match parse_unsigned_exec(code_chars, 10, 65535) {
        Some(c) => {
            c as u16
        },
        None => return None,
    };
    assert(code_spec == Some(status_code as int));
    let http_version = substring(text, 0, i1);
    let reason_phrase = substring(text, i2 + 1, n);
    assert(text@.subrange(0, i1 as int) =~= text@.take(i1 as int));
    assert(text@.subrange(i2 + 1, n as int) =~= text@.skip(i2 + 1));
    Some(HttpStatus { http_version, status_code, reason_phrase })
}

/// Reads a header line.
fn parse_header_line(line: &[u8]) -> (res: Option<HttpHeader>)
    ensures
        match header_line(line@) {
            None => res is None,
            Some(h) => res matches Some(hh) && hh@ == h,
        },
{
    let text = match utf8_to_str(line) {
        Ok(t) => t,
        Err(_) => return None,
    };
    let chars = chars_of(text);
    let n = chars.len();
    let i = match index_from_exec(&chars, ':', 0) {
        Some(i) => i,
        None => return None,
    };
    proof {
        lemma_index_from(chars@, ':', 0);
    }
    let name = to_ascii_lowercase(text.substring_char(0, i));
    let value = trim_str(text.substring_char(i + 1, n));
    assert(text@.subrange(0, i as int) =~= text@.take(i as int));
    assert(text@.subrange(i + 1, n as int) =~= text@.skip(i + 1));
    Some(HttpHeader { name, value })
}

/// The outcome of the header lines with some already read in front.
pub open spec fn prepend_headers(
    acc: Seq<HttpHeaderView>,
    o: Outcome<(Seq<HttpHeaderView>, int)>,
) -> Outcome<(Seq<HttpHeaderView>, int)> {
    match o {
        Outcome::Value((hs, off)) => Outcome::Value((acc + hs, off)),
        Outcome::Error => Outcome::Error,
        Outcome::Crash => Outcome::Crash,
    }
}

/// Reads the status line and the header lines at the start of a response, and gives the
/// bytes after the empty line that ends them. The header names are brought to lower case
/// and the values trimmed. `None` when the status line or a header line cannot be read.
pub fn parse_status_headers(vec: &[u8]) -> (res: Option<(HttpStatus, Vec<HttpHeader>, &[u8])>)
    requires
        !(status_headers(vec@) is Crash),
    ensures
        match status_headers(vec@) {
            Outcome::Value((st, hs, off)) => res matches Some((s, h, body)) && s@ == st
                && headers_view(h@) == hs && body@ == vec@.skip(off),
            _ => res is None,
        },
{
    let n = vec.len();
    let e0 = find_crlf_exec(vec, 0);
    let first_end = match e0 {
        Some(e) => e,
        None => n,
    };
    proof {
        lemma_find_crlf(vec@, 0);
    }
    let first = &vec[0..first_end];
    assert(first@ =~= (if find_crlf(vec@, 0) < 0 {
        vec@
    } else {
        vec@.take(find_crlf(vec@, 0))
    }));
    let status = match parse_status_line(first) {
        Some(s) => s,
        None => return None,
    };
    let e0 = match e0 {
        Some(e) => e,
        None => return None,
    };
    let mut headers: Vec<HttpHeader> = Vec::new();
    let mut pos: usize = e0 + 2;
    loop
        invariant
            n == vec@.len(),
            pos <= n,
            find_crlf(vec@, 0) == e0 as int,
            status_line(vec@.take(e0 as int)) == Some(status@),
            prepend_headers(headers_view(headers@), headers_from(vec@, pos as int)) == headers_from(
                vec@,
                e0 + 2,
            ),
            !(headers_from(vec@, pos as int) is Crash),
        decreases n - pos,
    {
        let e = find_crlf_exec(vec, pos);
        proof {
            lemma_find_crlf(vec@, pos as int);
        }
        let end = match e {
            Some(e) => e,
            None => n,
        };
        if end == pos {
            if pos + 2 > n {
                return None;
            }
            let body = &vec[pos + 2..n];
            assert(body@ =~= vec@.skip(pos + 2));
            assert(headers_view(headers@) =~= headers_view(headers@) + Seq::<HttpHeaderView>::empty());
            return Some((status, headers, body));
        }
        let line = &vec[pos..end];
        assert(line@ =~= vec@.subrange(pos as int, end as int));
        let header = match parse_header_line(line) {
            Some(h) => h,
            None => return None,
        };
        let e = match e {
            Some(e) => e,
            None => return None,
        };
        let ghost before = headers_view(headers@);
        let ghost h = header@;
        headers.push(header);
        proof {
            assert(headers_view(headers@) =~= before + seq![h]);
            let rest = headers_from(vec@, e + 2);
            assert(headers_from(vec@, pos as int) == prepend_headers(seq![h], rest));
            match rest {
                Outcome::Value((hs, off)) => {
                    assert(before + (seq![h] + hs) =~= (before + seq![h]) + hs);
                },
                _ => {},
            }
        }
        pos = e + 2;
    }
}

} // verus!
