use wowser::net::url::{IpAddress, Url, UrlHost, UrlProtocol};

#[test]
pub fn test_url_protocol() {
    assert_eq!("http", UrlProtocol::Http.to_string());
}

#[test]
pub fn test_url_host() {
    assert_eq!("example.com", UrlHost::DomainName("example.com".to_string()).to_string());
    assert_eq!("1.2.3.4", UrlHost::IP(IpAddress::V4(1, 2, 3, 4)).to_string());
    assert_eq!("1:2:3:4:5:6:7:8", UrlHost::IP(IpAddress::V6([1, 2, 3, 4, 5, 6, 7, 8])).to_string());
}

#[test]
fn url_host_text_compresses_zeros() {
    assert_eq!("::1", UrlHost::IP(IpAddress::V6([0, 0, 0, 0, 0, 0, 0, 1])).to_string());
    assert_eq!("1::2:0:3", UrlHost::IP(IpAddress::V6([1, 0, 0, 0, 0, 2, 0, 3])).to_string());
    assert_eq!(
        "::ffff:1.2.3.4",
        UrlHost::IP(IpAddress::V6([0, 0, 0, 0, 0, 0xffff, 0x0102, 0x0304])).to_string()
    );
}

#[test]
pub fn test_url_display_full() {
    assert_eq!(
        "http://example.com:80/path?query#fragment",
        Url::new(
            UrlProtocol::Http,
            UrlHost::DomainName("example.com".to_string()),
            80,
            "/path",
            "query",
            "fragment",
        )
        .to_string()
    );
}

#[test]
pub fn test_url_display_mimimal() {
    assert_eq!(
        "http://example.com:80/",
        Url::new(UrlProtocol::Http, UrlHost::DomainName("example.com".to_string()), 80, "", "", "",)
            .to_string()
    );
}

#[test]
pub fn test_http_request_path() {
    let mut url =
        Url::new(UrlProtocol::Http, UrlHost::DomainName("example.com".to_string()), 80, "", "", "");
    assert_eq!("/", url.http_request_path());
    url.path = "/".to_string();
    assert_eq!("/", url.http_request_path());
    url.query_string = "query".to_string();
    assert_eq!("/?query", url.http_request_path());
    url.fragment = "fragment".to_string();
    assert_eq!("/?query", url.http_request_path());
}

#[test]
pub fn test_url_parse_invalid() {
    assert_eq!(Url::parse("foo://example.com"), None);
    assert_eq!(Url::parse("http//example.com"), None);
    assert_eq!(Url::parse("http:/example.com/"), None);
    assert_eq!(Url::parse("http:/e/"), None);
    assert_eq!(Url::parse("http://example-"), None);
    assert_eq!(Url::parse("http://-example"), None);
    assert_eq!(Url::parse("http://example."), None);
    assert_eq!(Url::parse("http://.example"), None);
    assert_eq!(Url::parse("http://.example"), None);
    assert_eq!(Url::parse("http://example:"), None);
    assert_eq!(Url::parse("http://example:/"), None);
    assert_eq!(Url::parse("http://exam:ple"), None);
    assert_eq!(Url::parse("http://example::3"), None);
}

#[test]
pub fn test_url_parse_min_domain() {
    assert_eq!(
        Url::parse("http://a"),
        Some(Url::new(UrlProtocol::Http, UrlHost::DomainName("a".into()), 80, "/", "", "",))
    );
    assert_eq!(
        Url::parse("http://a-b"),
        Some(Url::new(UrlProtocol::Http, UrlHost::DomainName("a-b".into()), 80, "/", "", "",))
    );
    assert_eq!(
        Url::parse("http://a-b.c"),
        Some(Url::new(UrlProtocol::Http, UrlHost::DomainName("a-b.c".into()), 80, "/", "", "",))
    );
}

#[test]
pub fn test_url_parse_simple() {
    assert_eq!(
        Url::parse("http://example.com"),
        Some(Url::new(UrlProtocol::Http, UrlHost::DomainName("example.com".into()), 80, "/", "", "",))
    );
    assert_eq!(
        Url::parse("http://example.com/path"),
        Some(Url::new(
            UrlProtocol::Http,
            UrlHost::DomainName("example.com".into()),
            80,
            "/path",
            "",
            "",
        ))
    );
    assert_eq!(
        Url::parse("http://example.com?query"),
        Some(Url::new(
            UrlProtocol::Http,
            UrlHost::DomainName("example.com".into()),
            80,
            "/",
            "query",
            "",
        ))
    );
    assert_eq!(
        Url::parse("http://example.com#fragment"),
        Some(Url::new(
            UrlProtocol::Http,
            UrlHost::DomainName("example.com".into()),
            80,
            "/",
            "",
            "fragment",
        ))
    );
    assert_eq!(
        Url::parse("http://example.com:90#fragment"),
        Some(Url::new(
            UrlProtocol::Http,
            UrlHost::DomainName("example.com".into()),
            90,
            "/",
            "",
            "fragment",
        ))
    );
}

#[test]
pub fn test_url_parse_ip() {
    assert_eq!(
        Url::parse("http://1.2.3.4:5/6.7.8.9?10.11.12.13#14.15.16.17"),
        Some(Url::new(
            UrlProtocol::Http,
            UrlHost::IP(IpAddress::V4(1, 2, 3, 4)),
            5,
            "/6.7.8.9",
            "10.11.12.13",
            "14.15.16.17",
        ))
    );
}

#[test]
fn url_parse_ipv4_like_names_stay_names() {
    assert_eq!(
        Url::parse("http://1.2.3.256"),
        Some(Url::new(UrlProtocol::Http, UrlHost::DomainName("1.2.3.256".into()), 80, "/", "", ""))
    );
    assert_eq!(
        Url::parse("http://01.2.3.4"),
        Some(Url::new(UrlProtocol::Http, UrlHost::DomainName("01.2.3.4".into()), 80, "/", "", ""))
    );
}

#[test]
pub fn test_url_parse_complex() {
    assert_eq!(
        Url::parse("http://h:1/?#"),
        Some(Url::new(UrlProtocol::Http, UrlHost::DomainName("h".into()), 1, "/", "", "",))
    );
    assert_eq!(
        Url::parse("http://h:1?#"),
        Some(Url::new(UrlProtocol::Http, UrlHost::DomainName("h".into()), 1, "/", "", "",))
    );
    assert_eq!(
        Url::parse("http://example:999////?query//=?foo#frag?#frag://example"),
        Some(Url::new(
            UrlProtocol::Http,
            UrlHost::DomainName("example".into()),
            999,
            "////",
            "query//=?foo",
            "frag?#frag://example",
        ))
    );
}

#[test]
fn protocols_are_read_whatever_their_case() {
    assert_eq!(UrlProtocol::parse("HTTP"), Some(UrlProtocol::Http));
    assert_eq!(UrlProtocol::parse("ftp"), None);
    assert!(Url::parse("HtTp://example.com").is_some());
    assert_eq!(Url::parse("http://example.com:65536"), None);
}

#[test]
fn hosts_read_ipv6_addresses() {
    let v6 = |g: [u16; 8]| UrlHost::IP(IpAddress::V6(g));
    assert_eq!(v6([0, 0, 0, 0, 0, 0, 0, 1]), UrlHost::from_text("::1"));
    assert_eq!(v6([1, 2, 3, 4, 5, 6, 7, 8]), UrlHost::from_text("1:2:3:4:5:6:7:8"));
    assert_eq!(v6([0xabcd, 0, 0, 0, 0, 0, 0, 0]), UrlHost::from_text("ABcd::"));
    assert_eq!(v6([0; 8]), UrlHost::from_text("::"));
    assert_eq!(v6([0, 0, 0, 0, 0, 0xffff, 0x0102, 0x0304]), UrlHost::from_text("::ffff:1.2.3.4"));
    assert_eq!(v6([1, 2, 3, 4, 5, 6, 0x0102, 0x0304]), UrlHost::from_text("1:2:3:4:5:6:1.2.3.4"));
    assert_eq!(v6([1, 0, 0, 0, 0, 0, 0, 2]), UrlHost::from_text("1::2"));
    assert_eq!(UrlHost::IP(IpAddress::V4(1, 2, 3, 4)), UrlHost::from_text("1.2.3.4"));
    for name in ["1:::2", "12345::", ":1", "1:2:3:4:5:6:7:8:9", "1:2:3:4:5:6:7", "1.2.3.4::", "1::2::3", "example.com"] {
        assert_eq!(UrlHost::DomainName(name.to_string()), UrlHost::from_text(name));
    }
}
