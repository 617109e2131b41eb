//! HTTP/1.1 responses: the status line and headers, the header map, and the decisions of
//! reading a response from a stream of byte chunks.
pub mod error;
pub mod headers;

pub mod http_header_map;
pub mod response;

pub mod structures;

pub use error::HttpRequestError;
pub use headers::parse_status_headers;

pub use http_header_map::HttpHeaderMap;
pub use response::{ReaderAction, ReaderEvent, ResponseReader};

pub use structures::{HttpHeader, HttpResponse, HttpStatus, HttpVerb};
