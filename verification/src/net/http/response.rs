//! The decisions of reading a response: what to do with each chunk of bytes that the
//! connection delivers, and when the response is complete. The connection itself is driven
//! by the caller, which hands each read to `ResponseReader::step` and acts on its answer.
use vstd::prelude::*;

use super::error::HttpRequestError;
use super::headers::{
    find_crlf, has_end_of_headers, headers_from, lemma_find_crlf, lemma_find_crlf_until,
    lemma_status_headers_offset,
    parse_status_headers, status_headers,
};
use super::http_header_map::{lookup, HttpHeaderMap};
use super::structures::{headers_view, HttpHeaderView, HttpResponse, HttpStatus, HttpStatusView, HttpVerb};
use crate::outcome::Outcome;
use crate::text::{
    chars_of, int_error, int_error_text, lemma_digits_value_nonneg, parse_unsigned,
    parse_unsigned_exec, trim, trim_str, utf8_error_text, utf8_to_str,
};
use vstd::string::StringExecFns;
use vstd::utf8::{decode_utf8, valid_utf8};

verus! {

/// Whether the bytes hold the blank line that ends the headers.
pub fn contains_end_of_headers(vec: &[u8]) -> (res: bool)
    ensures
        res == has_end_of_headers(vec@),
{
    let n = vec.len();
    let mut q: usize = 0;
    while q < n && n - q >= 4
        invariant
            n == vec@.len(),
            forall|k: int|
                0 <= k < q ==> !(#[trigger] vec@[k] == 13 && vec@[k + 1] == 10 && vec@[k + 2] == 13
                    && vec@[k + 3] == 10),
        decreases n - q,
    {
        if vec[q] == 13 && vec[q + 1] == 10 && vec[q + 2] == 13 && vec[q + 3] == 10 {
            return true;
        }
        q = q + 1;
    }
    false
}

/// With the blank line present, reading the start of a response does not crash.
pub proof fn lemma_end_of_headers_no_crash(b: Seq<u8>)
    requires
        has_end_of_headers(b),
    ensures
        !(status_headers(b) is Crash),
{
    let q = choose|q: int|
        0 <= q && q + 3 < b.len() && #[trigger] b[q] == 13 && b[q + 1] == 10 && b[q + 2] == 13
            && b[q + 3] == 10;
    lemma_find_crlf_until(b, 0, q);
    let e0 = find_crlf(b, 0);
    lemma_find_crlf(b, 0);
    lemma_headers_no_crash(b, e0 + 2, q);
}

proof fn lemma_headers_no_crash(b: Seq<u8>, pos: int, q: int)
    requires
        0 <= q && q + 3 < b.len(),
        b[q] == 13 && b[q + 1] == 10 && b[q + 2] == 13 && b[q + 3] == 10,
        2 <= pos,
        pos <= q || pos == q + 2,
        b[pos - 2] == 13 && b[pos - 1] == 10,
    ensures
        !(headers_from(b, pos) is Crash),
    decreases q + 2 - pos,
{
    if pos == q + 2 {
        lemma_find_crlf_until(b, pos, q + 2);
    } else {
        lemma_find_crlf_until(b, pos, q);
        lemma_find_crlf(b, pos);
        let e = find_crlf(b, pos);
        if e > pos {
            assert(e != q - 1);
            lemma_headers_no_crash(b, e + 2, q);
        }
    }
}

/// The content length that the status and headers announce: none for `HEAD` requests and
/// for statuses 1xx, 204 and 304; otherwise the `content-length` header (trimmed, a decimal
/// `u32`), or `u32::MAX` without it. `None` when the header cannot be read.
pub open spec fn content_length(verb: HttpVerb, code: u16, hs: Seq<HttpHeaderView>) -> Option<u32> {
    if verb == HttpVerb::Head {
        Some(0)
    } else if (100 <= code && code <= 199) || code == 204 || code == 304 {
        Some(0)
    } else {
        match lookup(hs, "content-length"@) {
            None => Some(u32::MAX),
            Some(v) => match parse_unsigned(trim(v), 10, u32::MAX as int) {
                None => None,
                Some(n) => Some(n as u32),
            },
        }
    }
}

/// A response to a `HEAD` request has no body, whatever its status and headers.
pub proof fn lemma_head_responses_have_no_body(code: u16, hs: Seq<HttpHeaderView>)
    ensures
        content_length(HttpVerb::Head, code, hs) == Some(0u32),
{
}

/// A response with an informational status (1xx), `204 No Content` or `304 Not Modified`
/// has no body, whatever the request's verb and the headers.
pub proof fn lemma_bodiless_statuses(verb: HttpVerb, code: u16, hs: Seq<HttpHeaderView>)
    requires
        (100 <= code <= 199) || code == 204 || code == 304,
    ensures
        content_length(verb, code, hs) == Some(0u32),
{
}

/// Otherwise, for a `GET` request, the body runs to the end of the connection without a
/// `content-length` header, and has the length that header gives when it reads as a
/// decimal `u32`.
pub proof fn lemma_get_body_length(code: u16, hs: Seq<HttpHeaderView>)
    requires
        !((100 <= code <= 199) || code == 204 || code == 304),
    ensures
        lookup(hs, "content-length"@) is None ==> content_length(HttpVerb::Get, code, hs) == Some(
            u32::MAX,
        ),
        lookup(hs, "content-length"@) matches Some(v) ==> content_length(HttpVerb::Get, code, hs)
            == (match parse_unsigned(trim(v), 10, u32::MAX as int) {
            Some(n) => Some(n as u32),
            None => None,
        }),
{
}

/// The message of the error of reading the `content-length` header: that of reading its
/// trimmed value as a decimal `u32`.
pub open spec fn content_length_error(hs: Seq<HttpHeaderView>) -> Seq<char> {
    match lookup(hs, "content-length"@) {
        Some(v) => int_error(trim(v), 10, u32::MAX as int),
        None => Seq::empty(),
    }
}

/// The length of the body that the status and headers announce.
fn determine_content_length(verb: &HttpVerb, status: &HttpStatus, header_map: &HttpHeaderMap) -> (res:
    Result<u32, HttpRequestError>)
    ensures
        match content_length(*verb, status.status_code, header_map@) {
            None => res matches Err(e) && e.message()@ == content_length_error(header_map@),
            Some(n) => res matches Ok(m) && m == n,
        },
{
    if *verb == HttpVerb::Head {
        return Ok(0);
    }
    let code = status.status_code;
    if (100 <= code && code <= 199) || code == 204 || code == 304 {
        return Ok(0);
    }
    match header_map.get("content-length") {
        None => Ok(u32::MAX),
        Some(length) => {
            let trimmed = trim_str(length.as_str());
            let chars = chars_of(trimmed.as_str());
            match parse_unsigned_exec(chars.as_slice(), 10, 4294967295) {
                Some(n) => Ok(n as u32),
                None => Err(
                    HttpRequestError::from(int_error_text(chars.as_slice(), 10, 4294967295)),
                ),
            }
        },
    }
}

/// A chunk of a body sent with `Transfer-Encoding: chunked`.
enum Chunk<'a> {
    Data { data: &'a [u8], offset: usize },
    Incomplete,
    End { offset: usize },
}

pub enum ChunkView {
    Data { data: Seq<u8>, offset: int },
    Incomplete,
    End { offset: int },
}

spec fn chunk_view(c: Chunk) -> ChunkView {
    match c {
        Chunk::Data { data, offset } => ChunkView::Data { data: data@, offset: offset as int },
        Chunk::Incomplete => ChunkView::Incomplete,
        Chunk::End { offset } => ChunkView::End { offset: offset as int },
    }
}

/// Reading one chunk at the start of `b`: a hexadecimal length on a line of its own, then
/// that many bytes and a line break. A length of zero ends the body. Without the whole chunk
/// the bytes are incomplete; a length that is not UTF-8 hexadecimal (with an optional `+`)
/// refuses them, and one whose chunk would end past `usize::MAX` crashes.
pub open spec fn chunk_outcome(b: Seq<u8>) -> Outcome<ChunkView> {
    let e = find_crlf(b, 0);
    if e < 0 {
        Outcome::Value(ChunkView::Incomplete)
    } else if !valid_utf8(b.take(e)) {
        Outcome::Error
    } else {
        match parse_unsigned(decode_utf8(b.take(e)), 16, usize::MAX as int) {
            None => Outcome::Error,
            Some(len) => {
                let total = e + 2 + len + 2;
                if total > usize::MAX {
                    Outcome::Crash
                } else if b.len() < total {
                    Outcome::Value(ChunkView::Incomplete)
                } else if len == 0 {
                    Outcome::Value(ChunkView::End { offset: total })
                } else {
                    Outcome::Value(ChunkView::Data { data: b.subrange(e + 2, e + 2 + len), offset: total })
                }
            },
        }
    }
}

/// The message of the error of reading a chunk's length: the UTF-8 decoder's for a length
/// that is not UTF-8, else that of reading it as a hexadecimal `usize`.
pub open spec fn chunk_error(b: Seq<u8>) -> Seq<char> {
    let e = find_crlf(b, 0);
    if !valid_utf8(b.take(e)) {
        utf8_error_text(b.take(e))
    } else {
        int_error(decode_utf8(b.take(e)), 16, usize::MAX as int)
    }
}

/// A chunk that is read is consumed from the front: its offset is positive and within the bytes.
pub proof fn lemma_chunk_offset(b: Seq<u8>)
    ensures
        chunk_outcome(b) matches Outcome::Value(ChunkView::Data { data, offset }) ==> 0 < offset
            <= b.len(),
        chunk_outcome(b) matches Outcome::Value(ChunkView::End { offset }) ==> 0 < offset <= b.len(),
{
    lemma_find_crlf(b, 0);
    let e = find_crlf(b, 0);
    if e >= 0 && valid_utf8(b.take(e)) {
        let s = decode_utf8(b.take(e));
        let t = if s.len() > 0 && s[0] == '+' {
            s.drop_first()
        } else {
            s
        };
        if crate::text::all_digits(t, 16) {
            lemma_digits_value_nonneg(t, 16);
        }
    }
}

/// Tries to read a chunk at the start of `bytes`; `None` stands for the inputs on which
/// reading crashes.
fn try_parse_chunk(bytes: &[u8]) -> (res: Option<Result<Chunk, HttpRequestError>>)
    ensures
        match chunk_outcome(bytes@) {
            Outcome::Value(c) => res matches Some(Ok(ch)) && chunk_view(ch) == c,
            Outcome::Error => res matches Some(Err(e)) && e.message()@ == chunk_error(bytes@),
            Outcome::Crash => res is None,
        },
{
    let end_of_length = match find_crlf_first(bytes) {
        Some(e) => e,
        None => return Some(Ok(Chunk::Incomplete)),
    };
    proof {
        lemma_find_crlf(bytes@, 0);
    }
    let hex_bytes = &bytes[0..end_of_length];
    assert(hex_bytes@ =~= bytes@.take(end_of_length as int));
    let hex = match utf8_to_str(hex_bytes) {
        Ok(s) => s,
        Err(e) => return Some(Err(HttpRequestError::from(e))),
    };
    let chars = chars_of(hex);
    let chunk_len = match parse_unsigned_exec(chars.as_slice(), 16, usize::MAX as u64) {
        Some(n) => n as usize,
        None => return Some(Err(HttpRequestError::from(int_error_text(chars.as_slice(), 16, usize::MAX as u64)))),
    };
    let n = bytes.len();
    assert(end_of_length + 1 < n);
    let data_offset = end_of_length + 2;
    if chunk_len > usize::MAX - data_offset || usize::MAX - data_offset - chunk_len < 2 {
        return None;
    }
    let total_chunk_len = data_offset + chunk_len + 2;
    if bytes.len() < total_chunk_len {
        return Some(Ok(Chunk::Incomplete));
    }
    if chunk_len == 0 {
        return Some(Ok(Chunk::End { offset: total_chunk_len }));
    }
    let data = &bytes[data_offset..data_offset + chunk_len];
    assert(data@ =~= bytes@.subrange(data_offset as int, data_offset + chunk_len));
    Some(Ok(Chunk::Data { data, offset: total_chunk_len }))
}

/// The first line break of `b`.
fn find_crlf_first(b: &[u8]) -> (r: Option<usize>)
    ensures
        match r {
            None => find_crlf(b@, 0) < 0,
            Some(e) => e == find_crlf(b@, 0),
        },
{
    let n = b.len();
    let mut i: usize = 0;
    while i < n && i + 1 < n
        invariant
            n == b@.len(),
            find_crlf(b@, 0) == find_crlf(b@, i as int),
        decreases n - i,
    {
        if b[i] == 13 && b[i + 1] == 10 {
            return Some(i);
        }
        i = i + 1;
    }
    None
}

/// Where decoding a chunked body stands.
pub enum ChunksView {
    /// More bytes are needed: the bytes not yet decoded and the body so far.
    Waiting { chunk: Seq<u8>, body: Seq<u8> },
    /// The last chunk came with nothing after it: the whole body.
    Finished { body: Seq<u8> },
    /// A chunk could not be read, or bytes followed the last chunk: the error's message.
    Failed { message: Seq<char> },
}

/// Decoding as many chunks as the bytes hold, appending their data to `body`.
pub open spec fn drain_chunks(chunk: Seq<u8>, body: Seq<u8>) -> Outcome<ChunksView>
    decreases chunk.len(),
{
    match chunk_outcome(chunk) {
        Outcome::Crash => Outcome::Crash,
        Outcome::Error => Outcome::Value(ChunksView::Failed { message: chunk_error(chunk) }),
        Outcome::Value(ChunkView::Incomplete) => Outcome::Value(ChunksView::Waiting { chunk, body }),
        Outcome::Value(ChunkView::End { offset }) => if chunk.len() == offset {
            Outcome::Value(ChunksView::Finished { body })
        } else {
            Outcome::Value(ChunksView::Failed { message: "Data at end of chunked transfer"@ })
        },
        Outcome::Value(ChunkView::Data { data, offset }) => {
            proof {
                lemma_chunk_offset(chunk);
            }
            if 0 < offset <= chunk.len() {
                drain_chunks(chunk.skip(offset), body + data)
            } else {
                Outcome::Crash
            }
        },
    }
}

enum Chunks {
    Waiting(Vec<u8>, Vec<u8>),
    Finished(Vec<u8>),
    Failed(HttpRequestError),
}

spec fn chunks_view(c: Chunks) -> ChunksView {
    match c {
        Chunks::Waiting(chunk, body) => ChunksView::Waiting { chunk: chunk@, body: body@ },
        Chunks::Finished(body) => ChunksView::Finished { body: body@ },
        Chunks::Failed(e) => ChunksView::Failed { message: e.message()@ },
    }
}

fn copy_bytes(s: &[u8]) -> (v: Vec<u8>)
    ensures
        v@ == s@,
{
    let mut v: Vec<u8> = Vec::new();
    v.extend_from_slice(s);
    assert(v@ =~= s@);
    v
}

/// Decodes the chunks that `chunk` holds; `None` stands for the inputs on which decoding
/// crashes.
fn drain_chunks_exec(chunk0: Vec<u8>, body0: Vec<u8>) -> (res: Option<Chunks>)
    ensures
        match drain_chunks(chunk0@, body0@) {
            Outcome::Crash => res is None,
            Outcome::Value(c) => res matches Some(r) && chunks_view(r) == c,
            Outcome::Error => false,
        },
{
    let ghost start = drain_chunks(chunk0@, body0@);
    let mut chunk = chunk0;
    let mut body = body0;
    loop
        invariant
            start == drain_chunks(chunk0@, body0@),
            start == drain_chunks(chunk@, body@),
        decreases chunk@.len(),
    {
        proof {
            lemma_chunk_offset(chunk@);
        }
        let parsed = match try_parse_chunk(chunk.as_slice()) {
            None => return None,
            Some(p) => p,
        };
        match parsed {
            Err(e) => return Some(Chunks::Failed(e)),
            Ok(Chunk::Incomplete) => return Some(Chunks::Waiting(chunk, body)),
            Ok(Chunk::End { offset }) => {
                if chunk.len() == offset {
                    return Some(Chunks::Finished(body));
                } else {
                    return Some(
                        Chunks::Failed(
                            HttpRequestError::from(String::from_str("Data at end of chunked transfer")),
                        ),
                    );
                }
            },
            Ok(Chunk::Data { data, offset }) => {
                let ghost b0 = body@;
                body.extend_from_slice(data);
                assert(body@ =~= b0 + data@);
                let rest = copy_bytes(&chunk.as_slice()[offset..chunk.len()]);
                assert(rest@ =~= chunk@.skip(offset as int));
                chunk = rest;
            },
        }
    }
}

/// What the connection delivered: bytes, or the end of the stream.
pub enum ReaderEvent {
    Bytes(Vec<u8>),
    End,
}

/// What to do next: read more bytes, or stop with the response (or the error).
pub enum ReaderAction {
    ReadMore,
    Done(Result<HttpResponse, HttpRequestError>),
}

/// The state of reading a response: the bytes received so far, the status and headers once
/// they are read, the body length they announce, and, for a chunked body, the bytes not yet
/// decoded and the body decoded so far.
pub struct ResponseReader {
    verb: HttpVerb,
    result: Vec<u8>,
    status: HttpStatus,
    header_map: HttpHeaderMap,
    content_length: u32,
    preamble_length: usize,
    chunked: bool,
    chunk: Vec<u8>,
    body: Vec<u8>,
}

pub struct ReaderView {
    pub verb: HttpVerb,
    pub result: Seq<u8>,
    pub status: HttpStatusView,
    pub headers: Seq<HttpHeaderView>,
    pub content_length: u32,
    pub preamble_length: int,
    pub chunked: bool,
    pub chunk: Seq<u8>,
    pub body: Seq<u8>,
}

impl View for ResponseReader {
    type V = ReaderView;

    closed spec fn view(&self) -> ReaderView {
        ReaderView {
            verb: self.verb,
            result: self.result@,
            status: self.status@,
            headers: self.header_map@,
            content_length: self.content_length,
            preamble_length: self.preamble_length as int,
            chunked: self.chunked,
            chunk: self.chunk@,
            body: self.body@,
        }
    }
}

/// An event as the bytes it carries, `None` for the end of the stream.
pub open spec fn event_view(ev: ReaderEvent) -> Option<Seq<u8>> {
    match ev {
        ReaderEvent::Bytes(b) => Some(b@),
        ReaderEvent::End => None,
    }
}

/// A step of reading: go on in a new state, or finish with the status, headers and body of
/// the response, or with the message of an error.
pub enum StepView {
    Continue(ReaderView),
    Finish(Result<(HttpStatusView, Seq<HttpHeaderView>, Seq<u8>), Seq<char>>),
}

/// The state before anything is read.
pub open spec fn initial_reader(verb: HttpVerb) -> ReaderView {
    ReaderView {
        verb,
        result: Seq::empty(),
        status: HttpStatusView { http_version: Seq::empty(), status_code: 0, reason_phrase: Seq::empty() },
        headers: Seq::empty(),
        content_length: u32::MAX,
        preamble_length: 0,
        chunked: false,
        chunk: Seq::empty(),
        body: Seq::empty(),
    }
}

/// Where a chunked body stands after decoding, with the status and headers read before it.
pub open spec fn chunked_step(
    s: ReaderView,
    result: Seq<u8>,
    st: HttpStatusView,
    hs: Seq<HttpHeaderView>,
    pre: int,
    o: Outcome<ChunksView>,
) -> Outcome<StepView> {
    match o {
        Outcome::Value(ChunksView::Waiting { chunk, body }) => Outcome::Value(
            StepView::Continue(
                ReaderView {
                    verb: s.verb,
                    result,
                    status: st,
                    headers: hs,
                    content_length: s.content_length,
                    preamble_length: pre,
                    chunked: true,
                    chunk,
                    body,
                },
            ),
        ),
        Outcome::Value(ChunksView::Finished { body }) => Outcome::Value(
            StepView::Finish(Ok((st, hs, body))),
        ),
        Outcome::Value(ChunksView::Failed { message }) => Outcome::Value(StepView::Finish(Err(message))),
        Outcome::Error => Outcome::Value(StepView::Finish(Err(Seq::empty()))),
        Outcome::Crash => Outcome::Crash,
    }
}

/// The state with the bytes received so far replaced.
pub open spec fn with_result(s: ReaderView, result: Seq<u8>) -> ReaderView {
    ReaderView { result, ..s }
}

/// One step of reading a response.
///
/// While the headers are not read, bytes are gathered until they hold the blank line; then
/// the status and headers are read (if they cannot be, gathering goes on). A chunked body is
/// decoded chunk by chunk, and the end of the stream before its last chunk is an error. For
/// another body, the announced length is taken: with none the response is complete; with
/// some, gathering goes on until a later read brings the body to that length, which is then
/// cut to it. The end of the stream completes the response with what was gathered.
pub open spec fn reader_step(s: ReaderView, ev: Option<Seq<u8>>) -> Outcome<StepView> {
    if s.chunked {
        match ev {
            None => Outcome::Value(
                StepView::Finish(Err("Unexpected end of stream during chunked transfer decoding"@)),
            ),
            Some(b) => chunked_step(
                s,
                s.result,
                s.status,
                s.headers,
                s.preamble_length,
                drain_chunks(s.chunk + b, s.body),
            ),
        }
    } else {
        match ev {
            None => Outcome::Value(StepView::Finish(Ok((s.status, s.headers, s.result)))),
            Some(b) => gathered_step(with_result(s, s.result + b)),
        }
    }
}

/// The decisions after bytes were added to those gathered, before the body is chunked.
pub open spec fn gathered_step(s: ReaderView) -> Outcome<StepView> {
    let r = s.result;
    if s.preamble_length == 0 && has_end_of_headers(r) {
        match status_headers(r) {
            Outcome::Crash => Outcome::Crash,
            Outcome::Error => Outcome::Value(StepView::Continue(s)),
            Outcome::Value((st, hs, off)) => if lookup(hs, "transfer-encoding"@) == Some(
                "chunked"@,
            ) {
                chunked_step(s, r, st, hs, off, drain_chunks(r.skip(off), Seq::empty()))
            } else {
                match content_length(s.verb, st.status_code, hs) {
                    None => Outcome::Value(StepView::Finish(Err(content_length_error(hs)))),
                    Some(cl) => if cl == 0 {
                        Outcome::Value(StepView::Finish(Ok((st, hs, r.skip(off)))))
                    } else {
                        Outcome::Value(
                            StepView::Continue(
                                ReaderView {
                                    verb: s.verb,
                                    result: r.skip(off),
                                    status: st,
                                    headers: hs,
                                    content_length: cl,
                                    preamble_length: off,
                                    chunked: false,
                                    chunk: s.chunk,
                                    body: s.body,
                                },
                            ),
                        )
                    },
                }
            },
        }
    } else if r.len() >= s.content_length {
        Outcome::Value(StepView::Finish(Ok((s.status, s.headers, r.take(s.content_length as int)))))
    } else {
        Outcome::Value(StepView::Continue(s))
    }
}

/// Whether an action finishes as a step says: with the same status, headers and body, or
/// with an error of the same message.
pub open spec fn action_matches(
    a: ReaderAction,
    r: Result<(HttpStatusView, Seq<HttpHeaderView>, Seq<u8>), Seq<char>>,
) -> bool {
    match a {
        ReaderAction::ReadMore => false,
        ReaderAction::Done(Err(e)) => r == Err::<(HttpStatusView, Seq<HttpHeaderView>, Seq<u8>), Seq<char>>(e.message()@),
        ReaderAction::Done(Ok(resp)) => r == Ok::<(HttpStatusView, Seq<HttpHeaderView>, Seq<u8>), Seq<char>>((resp.status@, resp.headers@, resp.body@)),
    }
}

impl ResponseReader {
    /// A reader for the response to a request made with `verb`.
    pub fn new(verb: HttpVerb) -> (res: ResponseReader)
        ensures
            res@ == initial_reader(verb),
    {
        let status = HttpStatus::default();
        let header_map = HttpHeaderMap::default();
        ResponseReader {
            verb,
            result: Vec::new(),
            status,
            header_map,
            content_length: u32::MAX,
            preamble_length: 0,
            chunked: false,
            chunk: Vec::new(),
            body: Vec::new(),
        }
    }

    /// The response made of the status and headers read, with the given body.
    fn finish(&mut self, body: Vec<u8>) -> (res: ReaderAction)
        ensures
            action_matches(res, Ok((old(self)@.status, old(self)@.headers, body@))),
    {
        let mut status = HttpStatus::default();
        std::mem::swap(&mut status, &mut self.status);
        let mut header_map = HttpHeaderMap::default();
        std::mem::swap(&mut header_map, &mut self.header_map);
        ReaderAction::Done(Ok(HttpResponse { status, headers: header_map, body }))
    }

    /// Decodes the chunks gathered, after the status and headers were read.
    fn continue_chunks(&mut self, chunk: Vec<u8>, body: Vec<u8>) -> (res: Option<ReaderAction>)
        requires
            old(self).chunked,
        ensures
            match chunked_step(
                old(self)@,
                old(self)@.result,
                old(self)@.status,
                old(self)@.headers,
                old(self)@.preamble_length,
                drain_chunks(chunk@, body@),
            ) {
                Outcome::Crash => res is None,
                Outcome::Value(StepView::Continue(v)) => res matches Some(ReaderAction::ReadMore)
                    && final(self)@ == v,
                Outcome::Value(StepView::Finish(r)) => res matches Some(a) && action_matches(a, r),
                Outcome::Error => false,
            },
    {
        match drain_chunks_exec(chunk, body) {
            None => None,
            Some(Chunks::Failed(e)) => Some(ReaderAction::Done(Err(e))),
            Some(Chunks::Finished(body)) => Some(self.finish(body)),
            Some(Chunks::Waiting(chunk, body)) => {
                self.chunk = chunk;
                self.body = body;
                Some(ReaderAction::ReadMore)
            },
        }
    }

    /// Takes the next event of the connection and says what to do next, as `reader_step`
    /// states. `None` stands for the inputs on which reading crashes.
    pub fn step(&mut self, event: ReaderEvent) -> (res: Option<ReaderAction>)
        ensures
            match reader_step(old(self)@, event_view(event)) {
                Outcome::Crash => res is None,
                Outcome::Value(StepView::Continue(v)) => res matches Some(ReaderAction::ReadMore)
                    && final(self)@ == v,
                Outcome::Value(StepView::Finish(r)) => res matches Some(a) && action_matches(a, r),
                Outcome::Error => false,
            },
    {
        let mut bytes = match event {
            ReaderEvent::End => {
                if self.chunked {
                    return Some(
                        ReaderAction::Done(
                            Err(
                                HttpRequestError::from(
                                    String::from_str(
                                        "Unexpected end of stream during chunked transfer decoding",
                                    ),
                                ),
                            ),
                        ),
                    );
                }
                let mut result: Vec<u8> = Vec::new();
                std::mem::swap(&mut result, &mut self.result);
                return Some(self.finish(result));
            },
            ReaderEvent::Bytes(b) => b,
        };
        if self.chunked {
            let mut chunk: Vec<u8> = Vec::new();
            std::mem::swap(&mut chunk, &mut self.chunk);
            chunk.append(&mut bytes);
            let mut body: Vec<u8> = Vec::new();
            std::mem::swap(&mut body, &mut self.body);
            return self.continue_chunks(chunk, body);
        }
        self.result.append(&mut bytes);
        self.gathered()
    }

    /// The decisions after bytes were added to those gathered, before the body is chunked.
    fn gathered(&mut self) -> (res: Option<ReaderAction>)
        requires
            !old(self).chunked,
        ensures
            match gathered_step(old(self)@) {
                Outcome::Crash => res is None,
                Outcome::Value(StepView::Continue(v)) => res matches Some(ReaderAction::ReadMore)
                    && final(self)@ == v,
                Outcome::Value(StepView::Finish(r)) => res matches Some(a) && action_matches(a, r),
                Outcome::Error => false,
            },
    {
        if self.preamble_length == 0 && contains_end_of_headers(self.result.as_slice()) {
            proof {
                lemma_end_of_headers_no_crash(self.result@);
                lemma_status_headers_offset(self.result@);
            }
            let (status, headers, rest) = match parse_status_headers(self.result.as_slice()) {
                None => return Some(ReaderAction::ReadMore),
                Some(p) => p,
            };
            let preamble = self.result.len() - rest.len();
            let rest = copy_bytes(rest);
            let header_map = HttpHeaderMap { headers };
            let chunked = match header_map.get("transfer-encoding") {
                Some(v) => v == String::from_str("chunked"),
                None => false,
            };
            proof {
                reveal_strlit("chunked");
            }
            if chunked {
                self.status = status;
                self.header_map = header_map;
                self.preamble_length = preamble;
                self.chunked = true;
                return self.continue_chunks(rest, Vec::new());
            }
            let content_length = match determine_content_length(&self.verb, &status, &header_map) {
                Ok(n) => n,
                Err(e) => return Some(ReaderAction::Done(Err(e))),
            };
            self.status = status;
            self.header_map = header_map;
            self.preamble_length = preamble;
            self.content_length = content_length;
            if content_length == 0 {
                return Some(self.finish(rest));
            }
            self.result = rest;
            Some(ReaderAction::ReadMore)
        } else if self.result.len() >= self.content_length as usize {
            let mut result: Vec<u8> = Vec::new();
            std::mem::swap(&mut result, &mut self.result);
            result.truncate(self.content_length as usize);
            Some(self.finish(result))
        } else {
            Some(ReaderAction::ReadMore)
        }
    }
}

} // verus!
