//! The first form of the query builder, with a fixed transaction id.
use vstd::prelude::*;

use super::dns::dns_resolve::query_bytes;
use vstd::string::StringSliceAdditionalSpecFns;

verus! {

/// Builds the bytes of a recursive query for the A record of `domain_name`, in the Internet
/// class, with the transaction id 56130 (0xdb42).
pub fn build_resolve_bytes(domain_name: &str) -> (ret: Vec<u8>)
    ensures
        ret@ == query_bytes(domain_name.spec_bytes(), 56130),
{
    super::dns::build_resolve_bytes(domain_name, 56130)
}

} // verus!
