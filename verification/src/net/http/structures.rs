//! The values that an HTTP exchange is made of.
use vstd::prelude::*;

use super::http_header_map::HttpHeaderMap;
use vstd::string::StringExecFns;

verus! {

/// The status line of a response.
#[derive(Debug, PartialEq)]
pub struct HttpStatus {
    pub http_version: String,
    pub status_code: u16,
    pub reason_phrase: String,
}

pub struct HttpStatusView {
    pub http_version: Seq<char>,
    pub status_code: u16,
    pub reason_phrase: Seq<char>,
}

impl View for HttpStatus {
    type V = HttpStatusView;

    open spec fn view(&self) -> HttpStatusView {
        HttpStatusView {
            http_version: self.http_version@,
            status_code: self.status_code,
            reason_phrase: self.reason_phrase@,
        }
    }
}

impl Default for HttpStatus {
    /// An empty status line with code 0.
    fn default() -> (res: HttpStatus)
        ensures
            res@ == (HttpStatusView {
                http_version: Seq::empty(),
                status_code: 0,
                reason_phrase: Seq::empty(),
            }),
    {
        HttpStatus { http_version: String::new(), status_code: 0, reason_phrase: String::new() }
    }
}

impl HttpStatus {
    /// Whether the response carries the content that was asked for: status 200.
    pub fn contains_success_content(&self) -> (res: bool)
        ensures
            res == (self.status_code == 200),
    {
        self.status_code == 200
    }
}

/// A whole response: status line, headers and body.
#[derive(Debug, PartialEq)]
pub struct HttpResponse {
    pub status: HttpStatus,
    pub headers: HttpHeaderMap,
    pub body: Vec<u8>,
}

/// One header field.
#[derive(Debug, PartialEq)]
pub struct HttpHeader {
    pub name: String,
    pub value: String,
}

pub struct HttpHeaderView {
    pub name: Seq<char>,
    pub value: Seq<char>,
}

impl View for HttpHeader {
    type V = HttpHeaderView;

    open spec fn view(&self) -> HttpHeaderView {
        HttpHeaderView { name: self.name@, value: self.value@ }
    }
}

/// The views of a list of headers.
pub open spec fn headers_view(hs: Seq<HttpHeader>) -> Seq<HttpHeaderView> {
    hs.map_values(|h: HttpHeader| h@)
}

impl HttpHeader {
    /// A header with the given name and value.
    pub fn new(name: &str, value: &str) -> (res: HttpHeader)
        ensures
            res.name@ == name@,
            res.value@ == value@,
    {
        HttpHeader { name: String::from_str(name), value: String::from_str(value) }
    }
}

/// The methods that requests are made with.
#[derive(Debug, Clone, Copy, PartialEq, Eq, Structural)]
pub enum HttpVerb {
    Get,
    Head,
}

} // verus!
