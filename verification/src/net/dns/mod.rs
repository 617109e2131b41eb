pub mod dns_resolve;
pub mod message;

pub use dns_resolve::{
    build_resolve_bytes, compute_domain, pack_flags_byte_1, pack_flags_byte_2,
    parse_dns_response, parse_dns_response_checked, proper_domain_name, record_response,
    resolve_step, write_headers, write_name, DnsCache, DnsResult, DnsStep,
};
pub use message::{
    DNSAnswer, DNSFlagsHeader, DNSHeaders, DNSMessage, DNSQuestion, DNSRecord, Ipv4Address,
    OpCode, Protocol, RecordClass, RecordData, RecordType, ResponseCode,
};
