use wowser::net::dns::{
    build_resolve_bytes, compute_domain, parse_dns_response, record_response, resolve_step, DNSRecord, DnsCache,
    DnsStep, Ipv4Address, RecordClass, RecordData, RecordType,
};
use wowser::net::dns_resolve;
use wowser::net::NETWORK_BUFFER_SIZE;

#[test]
fn bit_shift() {
    let one = 1_u8;
    assert_eq!(1, one);
    assert_eq!(2, one << 1);
    assert_eq!(4, one << 2);
    assert_eq!(128, one << 7);
}

#[test]
fn dns_resolve_bit_shift() {
    let one = 1_u8;
    assert_eq!(1, one);
    assert_eq!(2, one << 1);
    assert_eq!(4, one << 2);
    assert_eq!(128, one << 7);
}

/// [Source](https://www2.cs.duke.edu/courses/fall16/compsci356/DNS/DNS-primer.pdf)
#[test]
fn build_resolve_bytes_northeastern() {
    let result = build_resolve_bytes("www.northeastern.edu", 1234);
    assert_eq!(
        result,
        vec![
            0x04, 0xd2, 0x01, 0x00, 0x00, 0x01, 0x00, 0x00, 0x00, 0x00, 0x00, 0x00, 0x03, 0x77,
            0x77, 0x77, 0x0c, 0x6e, 0x6f, 0x72, 0x74, 0x68, 0x65, 0x61, 0x73, 0x74, 0x65, 0x72,
            0x6e, 0x03, 0x65, 0x64, 0x75, 0x00, 0x00, 0x01, 0x00, 0x01,
        ]
    );
}

/// [Source](https://www2.cs.duke.edu/courses/fall16/compsci356/DNS/DNS-primer.pdf)
#[test]
fn dns_resolve_build_resolve_bytes_northeastern() {
    let result = dns_resolve::build_resolve_bytes("www.northeastern.edu");
    assert_eq!(
        result,
        vec![
            0xdb, 0x42, 0x01, 0x00, 0x00, 0x01, 0x00, 0x00, 0x00, 0x00, 0x00, 0x00, 0x03, 0x77,
            0x77, 0x77, 0x0c, 0x6e, 0x6f, 0x72, 0x74, 0x68, 0x65, 0x61, 0x73, 0x74, 0x65, 0x72,
            0x6e, 0x03, 0x65, 0x64, 0x75, 0x00, 0x00, 0x01, 0x00, 0x01,
        ]
    );
}

fn northeastern_reply() -> [u8; NETWORK_BUFFER_SIZE] {
    let bytes: Vec<u8> = vec![
        0xdb, 0x42, 0x81, 0x80, 0x00, 0x01, 0x00, 0x01, 0x00, 0x00, 0x00, 0x00, 0x03, 0x77, 0x77,
        0x77, 0x0c, 0x6e, 0x6f, 0x72, 0x74, 0x68, 0x65, 0x61, 0x73, 0x74, 0x65, 0x72, 0x6e, 0x03,
        0x65, 0x64, 0x75, 0x00, 0x00, 0x01, 0x00, 0x01, 0xc0, 0x0c, 0x00, 0x01, 0x00, 0x01, 0x00,
        0x00, 0x02, 0x58, 0x00, 0x04, 0x9b, 0x21, 0x11, 0x44,
    ];
    let mut byte_arr = [0_u8; NETWORK_BUFFER_SIZE];
    byte_arr[..bytes.len()].copy_from_slice(bytes.as_ref());
    byte_arr
}

#[test]
fn test_parse_dns_response() {
    let byte_arr = northeastern_reply();
    parse_dns_response(&byte_arr).expect("Must be valid");
}

#[test]
fn reply_is_read_in_full() {
    let message = parse_dns_response(&northeastern_reply()).unwrap();
    assert_eq!(message.headers.transaction_id, 0xdb42);
    assert!(message.headers.flags.is_reply);
    assert_eq!(message.headers.num_of_questions, 1);
    assert_eq!(message.headers.num_of_answers, 1);
    assert_eq!(message.sections.len(), 2);
    match &message.sections[0] {
        DNSRecord::Question(q) => {
            assert_eq!(q.domain_name, "www.northeastern.edu");
            assert_eq!(q.record_type, RecordType::A);
            assert_eq!(q.class, RecordClass::Internet);
        },
        other => panic!("unexpected record {:?}", other),
    }
    match &message.sections[1] {
        DNSRecord::Answer(a) => {
            assert_eq!(a.domain_name, "www.northeastern.edu.");
            assert_eq!(a.ttl, 600);
            match a.rdata {
                RecordData::A(ip) => assert_eq!(ip, Ipv4Address(155, 33, 17, 68)),
                ref other => panic!("unexpected data {:?}", other),
            }
        },
        other => panic!("unexpected record {:?}", other),
    }
}

#[test]
fn a_query_reads_back_as_its_question() {
    let query = build_resolve_bytes("example.com", 77);
    let mut byte_arr = [0_u8; NETWORK_BUFFER_SIZE];
    byte_arr[..query.len()].copy_from_slice(&query);
    let message = parse_dns_response(&byte_arr).unwrap();
    assert_eq!(message.headers.transaction_id, 77);
    assert!(!message.headers.flags.is_reply);
    assert_eq!(message.sections.len(), 1);
}

#[test]
fn resolving_follows_the_cache() {
    let mut cache = DnsCache::new();
    assert!(matches!(resolve_step("www.northeastern.edu", &cache), DnsStep::Missing));
    let message = parse_dns_response(&northeastern_reply()).unwrap();
    record_response(&mut cache, "www.northeastern.edu", &message);
    match resolve_step("www.northeastern.edu", &cache) {
        DnsStep::Resolved(ip) => assert_eq!(ip, Ipv4Address(155, 33, 17, 68)),
        _ => panic!("expected an address"),
    }
}

#[test]
fn domain_label_identifiers_01_and_10_are_refused() {
    assert_eq!(
        Err("Unsupported domain label identifier".to_string()),
        compute_domain(&[0x40, 0x00], 0)
    );
    assert_eq!(
        Err("Unsupported domain label identifier".to_string()),
        compute_domain(&[0x81, 0x02, 0x00], 0)
    );
}

#[test]
fn query_names_read_back_with_the_root_dot() {
    let bytes = build_resolve_bytes("www.northeastern.edu", 1234);
    assert_eq!(Ok(("www.northeastern.edu.".to_string(), 12 + 20 + 2)), compute_domain(&bytes, 12));
}

#[test]
fn refused_replies_say_why() {
    let mut r = northeastern_reply();
    r[2] = 0x80 | (3 << 3);
    assert_eq!(Some("Unsupported opcode".to_string()), parse_dns_response(&r).err());
    let mut r = northeastern_reply();
    r[37] = 9;
    assert_eq!(Some("Unsupported record class".to_string()), parse_dns_response(&r).err());
    let mut r = northeastern_reply();
    r[41] = 2;
    assert_eq!(Some("Unsupported record type NameServer".to_string()), parse_dns_response(&r).err());
    let mut r = northeastern_reply();
    r[49] = 5;
    assert_eq!(Some("Expected 4 bytes but got 5".to_string()), parse_dns_response(&r).err());
}
