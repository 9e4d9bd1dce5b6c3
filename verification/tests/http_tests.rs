use frame_responder::http::Request;

fn parse(s: &str) -> Result<Request, ()> {
    Request::from_str(&s.as_bytes().to_vec())
}

#[test]
fn request_line_and_headers() {
    let q = parse("GET / HTTP/1.1\nHost: example\nAccept: text/html\n\nhello").unwrap();
    assert_eq!(q.method, b"GET".to_vec());
    assert_eq!(q.route, b"/".to_vec());
    assert_eq!(q.headers.len(), 2);
    assert_eq!(q.headers[0].0, b"Host".to_vec());
    assert_eq!(q.headers[0].1, b"example".to_vec());
    assert_eq!(q.headers[1].0, b"Accept".to_vec());
    assert_eq!(q.headers[1].1, b"text/html".to_vec());
    assert_eq!(q.body, Some(b"hello".to_vec()));
}

#[test]
fn request_without_body() {
    let q = parse("POST /f HTTP/1.1").unwrap();
    assert_eq!(q.method, b"POST".to_vec());
    assert_eq!(q.route, b"/f".to_vec());
    assert_eq!(q.headers.len(), 0);
    assert_eq!(q.body, None);
}

#[test]
fn carriage_returns_stripped_from_lines() {
    // the blank-line split looks for two bare newlines, so a CRLF request
    // has no body; the carriage returns disappear from the header values
    let q = parse("GET /x HTTP/1.1\r\nHost: a\r\n").unwrap();
    assert_eq!(q.method, b"GET".to_vec());
    assert_eq!(q.route, b"/x".to_vec());
    assert_eq!(q.headers.len(), 1);
    assert_eq!(q.headers[0].0, b"Host".to_vec());
    assert_eq!(q.headers[0].1, b"a".to_vec());
    assert_eq!(q.body, None);
}

#[test]
fn body_reaches_to_second_blank_line() {
    let q = parse("GET / HTTP/1.1\n\nfirst\n\nsecond").unwrap();
    assert_eq!(q.body, Some(b"first".to_vec()));
}

#[test]
fn lines_without_colon_are_skipped() {
    let q = parse("GET / HTTP/1.1\njust a note\nHost: a\n\n").unwrap();
    assert_eq!(q.headers.len(), 1);
    assert_eq!(q.headers[0].0, b"Host".to_vec());
}

#[test]
fn header_value_stops_at_next_separator() {
    let q = parse("GET / HTTP/1.1\nKey: a: b\n\n").unwrap();
    assert_eq!(q.headers[0].0, b"Key".to_vec());
    assert_eq!(q.headers[0].1, b"a".to_vec());
}

#[test]
fn colon_without_space_is_refused() {
    assert!(parse("GET / HTTP/1.1\nHost:nospace\n\n").is_err());
}

#[test]
fn missing_route_is_refused() {
    assert!(parse("GET\nHost: a\n\n").is_err());
    assert!(parse("").is_err());
}

#[test]
fn too_many_headers_refused() {
    let mut s = String::from("GET / HTTP/1.1\n");
    for i in 0..17 {
        s.push_str(&format!("H{}: v\n", i));
    }
    assert!(parse(&s).is_err());
    let mut ok = String::from("GET / HTTP/1.1\n");
    for i in 0..16 {
        ok.push_str(&format!("H{}: v\n", i));
    }
    assert!(parse(&ok).is_ok());
}

#[test]
fn double_space_gives_empty_route() {
    let q = parse("GET  /").unwrap();
    assert_eq!(q.method, b"GET".to_vec());
    assert_eq!(q.route, b"".to_vec());
}
