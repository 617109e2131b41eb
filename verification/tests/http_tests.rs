use wowser::net::http::{
    parse_status_headers, HttpHeader, HttpHeaderMap, HttpStatus, HttpVerb, ReaderAction,
    ReaderEvent, ResponseReader,
};

const EXAMPLE_HEADERS: &[u8] = b"HTTP/2 200 \r\nage: 431430\r\ncache-control: max-age=604800\r\ncontent-type: text/html; charset=UTF-8\r\ndate: Sat, 25 Sep 2021 18:04:17 GMT\r\netag: \"3147526947+ident\"\r\nexpires: Sat, 02 Oct 2021 18:04:17 GMT\r\nlast-modified: Thu, 17 Oct 2019 07:18:26 GMT\r\nserver: ECS (phd/FD6D)\r\nvary: Accept-Encoding\r\nx-cache: HIT\r\ncontent-length: 6\r\n\r\n<html>";

#[test]
fn test_example_headers() {
    let headers = EXAMPLE_HEADERS;
    let (status, headers, body) =
        parse_status_headers(headers).expect("Unable to parse example headers");
    assert_eq!(
        status,
        HttpStatus {
            http_version: "HTTP/2".into(),
            status_code: 200,
            reason_phrase: "".into(),
        }
    );
    assert_eq!(
        headers,
        vec![
            HttpHeader::new("age", "431430"),
            HttpHeader::new("cache-control", "max-age=604800"),
            HttpHeader::new("content-type", "text/html; charset=UTF-8"),
            HttpHeader::new("date", "Sat, 25 Sep 2021 18:04:17 GMT"),
            HttpHeader::new("etag", "\"3147526947+ident\""),
            HttpHeader::new("expires", "Sat, 02 Oct 2021 18:04:17 GMT"),
            HttpHeader::new("last-modified", "Thu, 17 Oct 2019 07:18:26 GMT"),
            HttpHeader::new("server", "ECS (phd/FD6D)"),
            HttpHeader::new("vary", "Accept-Encoding"),
            HttpHeader::new("x-cache", "HIT"),
            HttpHeader::new("content-length", "6"),
        ],
    );
    assert_eq!(body, b"<html>");
}

#[test]
fn header_names_are_lower_cased_and_values_trimmed() {
    let (status, headers, body) =
        parse_status_headers(b"HTTP/1.1 404 Not Found\r\nContent-Type:   text/plain  \r\n\r\n").unwrap();
    assert_eq!(status.status_code, 404);
    assert_eq!(status.reason_phrase, "Not Found");
    assert_eq!(headers, vec![HttpHeader::new("content-type", "text/plain")]);
    assert!(body.is_empty());
}

#[test]
fn unreadable_status_lines_are_refused() {
    assert!(parse_status_headers(b"HTTP/1.1 200\r\n\r\n").is_none());
    assert!(parse_status_headers(b"HTTP/1.1 abc OK\r\n\r\n").is_none());
    assert!(parse_status_headers(b"HTTP/1.1 70000 OK\r\n\r\n").is_none());
    assert!(parse_status_headers(b"HTTP/1.1 200 OK\r\nno colon here\r\n\r\n").is_none());
}

#[test]
fn test_from() {
    let header_map = HttpHeaderMap::from(vec![HttpHeader::new("foo", "bar")]);
    assert_eq!(header_map.headers, vec![HttpHeader::new("foo", "bar")]);
}

#[test]
fn test_regular_values() {
    assert_eq!(HttpHeaderMap::from(vec![]).get("abc"), None);
    assert_eq!(HttpHeaderMap::from(vec![HttpHeader::new("foo", "bar")]).get("abc"), None);
    assert_eq!(
        HttpHeaderMap::from(vec![HttpHeader::new("abc", "123")]).get("abc"),
        Some("123".into())
    );
    assert_eq!(HttpHeaderMap::from(vec![HttpHeader::new("abc", "")]).get("abc"), Some("".into()));
    assert_eq!(
        HttpHeaderMap::from(vec![
            HttpHeader::new("foo", "bar"),
            HttpHeader::new("abc", "123"),
            // The second value should be ignored
            HttpHeader::new("abc", "456")
        ])
        .get("abc"),
        Some("123".into())
    );
}

#[test]
fn test_list_separated_values() {
    assert_eq!(HttpHeaderMap { headers: vec![] }.get("cache-control"), None);
    assert_eq!(
        HttpHeaderMap::from(vec![HttpHeader::new("foo", "bar")]).get("cache-control"),
        None
    );
    assert_eq!(
        HttpHeaderMap::from(vec![HttpHeader::new("cache-control", "abc")]).get("cache-control"),
        Some("abc".into())
    );
    assert_eq!(
        HttpHeaderMap::from(vec![HttpHeader::new("cache-control", "")]).get("cache-control"),
        Some("".into())
    );
    assert_eq!(
        HttpHeaderMap::from(vec![
            HttpHeader::new("cache-control", ""),
            HttpHeader::new("cache-control", "abc"),
            HttpHeader::new("cache-control", ""),
            HttpHeader::new("cache-control", "def"),
        ])
        .get("cache-control"),
        // Note the lack space after the appended one. The whitespace is optional
        Some("abc,def".into()),
        "Ignore empty header values"
    );

    assert_eq!(
        HttpHeaderMap::from(vec![
            HttpHeader::new("foo", "bar"),
            HttpHeader::new("cache-control", "abc, def"),
            // The second value should be appended
            HttpHeader::new("cache-control", "ghi")
        ])
        .get("cache-control"),
        // Note the lack space after the appended one. The whitespace is optional
        Some("abc, def,ghi".into())
    );
}

#[test]
fn test_http_header_new() {
    let http_header = HttpHeader::new("abc", "123");
    assert_eq!(http_header.name, "abc");
    assert_eq!(http_header.value, "123");
}

#[test]
fn success_content_is_status_200() {
    let mut status = HttpStatus::default();
    assert!(!status.contains_success_content());
    status.status_code = 200;
    assert!(status.contains_success_content());
}

fn feed(reader: &mut ResponseReader, chunks: &[&[u8]]) -> ReaderAction {
    for chunk in chunks {
        match reader.step(ReaderEvent::Bytes(chunk.to_vec())).expect("reading must not crash") {
            ReaderAction::ReadMore => {},
            done => return done,
        }
    }
    reader.step(ReaderEvent::End).expect("reading must not crash")
}

#[test]
fn a_body_is_read_to_its_content_length() {
    let mut reader = ResponseReader::new(HttpVerb::Get);
    let action = feed(
        &mut reader,
        &[b"HTTP/1.1 200 OK\r\nContent-Length: 5\r\n\r\nhel", b"lo world"],
    );
    match action {
        ReaderAction::Done(Ok(response)) => {
            assert_eq!(response.status.status_code, 200);
            assert_eq!(response.body, b"hello");
            assert_eq!(response.headers.get("content-length"), Some("5".into()));
        },
        _ => panic!("expected a response"),
    }
}

#[test]
fn head_responses_have_no_body() {
    let mut reader = ResponseReader::new(HttpVerb::Head);
    let action = feed(&mut reader, &[b"HTTP/1.1 200 OK\r\nContent-Length: 5\r\n\r\n"]);
    match action {
        ReaderAction::Done(Ok(response)) => assert!(response.body.is_empty()),
        _ => panic!("expected a response"),
    }
}

#[test]
fn chunked_bodies_are_decoded() {
    let mut reader = ResponseReader::new(HttpVerb::Get);
    let action = feed(
        &mut reader,
        &[
            b"HTTP/1.1 200 OK\r\nTransfer-Encoding: chunked\r\n\r\n4\r\nWiki\r\n",
            b"5\r\npedia\r\n",
            b"0\r\n\r\n",
        ],
    );
    match action {
        ReaderAction::Done(Ok(response)) => assert_eq!(response.body, b"Wikipedia"),
        _ => panic!("expected a response"),
    }
}

#[test]
fn a_chunked_body_cut_short_is_an_error() {
    let mut reader = ResponseReader::new(HttpVerb::Get);
    let action =
        feed(&mut reader, &[b"HTTP/1.1 200 OK\r\nTransfer-Encoding: chunked\r\n\r\n4\r\nWi"]);
    assert!(matches!(action, ReaderAction::Done(Err(_))));
}

#[test]
fn a_bad_content_length_is_an_error() {
    let mut reader = ResponseReader::new(HttpVerb::Get);
    let action = feed(&mut reader, &[b"HTTP/1.1 200 OK\r\nContent-Length: five\r\n\r\n"]);
    assert!(matches!(action, ReaderAction::Done(Err(_))));
}

#[test]
fn without_a_length_the_body_runs_to_the_end() {
    let mut reader = ResponseReader::new(HttpVerb::Get);
    let action = feed(&mut reader, &[b"HTTP/1.1 200 OK\r\n\r\nab", b"cd"]);
    match action {
        ReaderAction::Done(Ok(response)) => assert_eq!(response.body, b"abcd"),
        _ => panic!("expected a response"),
    }
}

#[test]
fn http_request_errors_display_their_message() {
    let e = wowser::net::http::HttpRequestError::from("connection reset".to_string());
    assert_eq!("HTTP Request error: connection reset", e.to_string());
    assert_eq!("connection reset", e.source());
}

/// The message of the error a response ends in.
fn error_message(action: ReaderAction) -> String {
    match action {
        ReaderAction::Done(Err(e)) => e.source().clone(),
        _ => panic!("expected an error"),
    }
}

#[test]
fn content_length_errors_are_those_of_reading_a_u32() {
    for value in ["five", "", "4294967296", "+", "-1", "12x"] {
        let mut reader = ResponseReader::new(HttpVerb::Get);
        let head = format!("HTTP/1.1 200 OK\r\nContent-Length: {value}\r\n\r\n");
        let action = feed(&mut reader, &[head.as_bytes()]);
        let expected = value.trim().parse::<u32>().unwrap_err().to_string();
        assert_eq!(expected, error_message(action));
    }
}

#[test]
fn chunk_length_errors_are_those_of_reading_a_hexadecimal_usize() {
    for length in ["g", "", "10000000000000000", "+"] {
        let mut reader = ResponseReader::new(HttpVerb::Get);
        let bytes = format!("HTTP/1.1 200 OK\r\nTransfer-Encoding: chunked\r\n\r\n{length}\r\nabc\r\n");
        let action = feed(&mut reader, &[bytes.as_bytes()]);
        let expected = usize::from_str_radix(length, 16).unwrap_err().to_string();
        assert_eq!(expected, error_message(action));
    }
    let mut reader = ResponseReader::new(HttpVerb::Get);
    let mut bytes = b"HTTP/1.1 200 OK\r\nTransfer-Encoding: chunked\r\n\r\n".to_vec();
    bytes.extend([0xff, b'\r', b'\n']);
    let action = feed(&mut reader, &[&bytes]);
    let expected = std::str::from_utf8(&[0xff]).unwrap_err().to_string();
    assert_eq!(expected, error_message(action));
}

#[test]
fn data_after_the_last_chunk_is_an_error() {
    let mut reader = ResponseReader::new(HttpVerb::Get);
    let action = feed(
        &mut reader,
        &[b"HTTP/1.1 200 OK\r\nTransfer-Encoding: chunked\r\n\r\n0\r\n\r\nextra"],
    );
    assert_eq!("Data at end of chunked transfer", error_message(action));
}

#[test]
fn a_chunked_body_cut_short_says_so() {
    let mut reader = ResponseReader::new(HttpVerb::Get);
    let action =
        feed(&mut reader, &[b"HTTP/1.1 200 OK\r\nTransfer-Encoding: chunked\r\n\r\n4\r\nWi"]);
    assert_eq!("Unexpected end of stream during chunked transfer decoding", error_message(action));
}
