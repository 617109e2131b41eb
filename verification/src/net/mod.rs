pub mod dns;
pub mod dns_resolve;
pub mod http;
pub mod url;

pub use dns::{build_resolve_bytes, compute_domain, parse_dns_response};

use vstd::prelude::*;

verus! {

/// The size of the buffers that network reads fill.
pub const NETWORK_BUFFER_SIZE: usize = 512;

} // verus!
