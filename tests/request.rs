use http_codec::{Method, MethodError, ParseError, Request, Value};

#[test]
fn parse_search_request() {
    let buf = b"GET /search?name=abc&sort=1 HTTP/1.1\r\nHost: localhost\r\n\r\n";
    let req = Request::parse(buf).unwrap();
    assert_eq!(*req.method(), Method::GET);
    assert_eq!(req.path(), "/search");
    let q = req.query_string().unwrap();
    assert_eq!(q.get("name"), Some(&Value::Single("abc")));
    assert_eq!(q.get("sort"), Some(&Value::Single("1")));
}

#[test]
fn parse_rejects_other_protocol() {
    let r = Request::parse(b"GET / HTTP/1.0\r\n\r\n");
    assert_eq!(r.unwrap_err(), ParseError::InvalidProtocol);
}

#[test]
fn parse_rejects_unknown_method() {
    let r = Request::parse(b"FETCH / HTTP/1.1\r\n\r\n");
    assert_eq!(r.unwrap_err(), ParseError::InvalidMethod);
}

#[test]
fn parse_rejects_invalid_utf8() {
    let r = Request::parse(b"GET /\xff\xfe HTTP/1.1\r\n");
    assert_eq!(r.unwrap_err(), ParseError::InvalidEncoding);
}

#[test]
fn parse_rejects_missing_tokens() {
    assert_eq!(Request::parse(b"").unwrap_err(), ParseError::InvalidRequest);
    assert_eq!(Request::parse(b"GET").unwrap_err(), ParseError::InvalidRequest);
    assert_eq!(Request::parse(b"GET /").unwrap_err(), ParseError::InvalidRequest);
    assert_eq!(Request::parse(b"GET / HTTP/1.1").unwrap_err(), ParseError::InvalidRequest);
}

#[test]
fn parse_checks_protocol_before_method() {
    let r = Request::parse(b"FETCH / HTTP/2\r\n");
    assert_eq!(r.unwrap_err(), ParseError::InvalidProtocol);
}

#[test]
fn parse_path_without_query() {
    let req = Request::parse(b"POST /submit HTTP/1.1\r\n").unwrap();
    assert_eq!(*req.method(), Method::POST);
    assert_eq!(req.path(), "/submit");
    assert!(req.query_string().is_none());
}

#[test]
fn parse_empty_query() {
    let req = Request::parse(b"GET /a? HTTP/1.1\r\n").unwrap();
    assert_eq!(req.path(), "/a");
    let q = req.query_string().unwrap();
    assert_eq!(q.get(""), None);
}

#[test]
fn parse_splits_at_first_question_mark() {
    let req = Request::parse(b"GET /a?x=1?2 HTTP/1.1\r\n").unwrap();
    assert_eq!(req.path(), "/a");
    assert_eq!(req.query_string().unwrap().get("x"), Some(&Value::Single("1?2")));
}

#[test]
fn parse_tokens_ended_by_carriage_return() {
    let req = Request::parse(b"DELETE\r/x\rHTTP/1.1\r").unwrap();
    assert_eq!(*req.method(), Method::DELETE);
    assert_eq!(req.path(), "/x");
}

#[test]
fn parse_empty_path_token() {
    let req = Request::parse(b"GET  HTTP/1.1\r\n").unwrap();
    assert_eq!(*req.method(), Method::GET);
    assert_eq!(req.path(), "");
    assert!(req.query_string().is_none());
}

#[test]
fn parse_non_ascii_path() {
    let buf = "GET /café?ключ=значение HTTP/1.1\r\n".as_bytes();
    let req = Request::parse(buf).unwrap();
    assert_eq!(req.path(), "/café");
    assert_eq!(req.query_string().unwrap().get("ключ"), Some(&Value::Single("значение")));
}

#[test]
fn parse_ignores_trailing_zeros() {
    let mut buf = [0u8; 64];
    let line = b"PUT /f HTTP/1.1\r\n";
    buf[..line.len()].copy_from_slice(line);
    let req = Request::parse(&buf).unwrap();
    assert_eq!(*req.method(), Method::PUT);
    assert_eq!(req.path(), "/f");
}

#[test]
fn parse_every_method() {
    let cases = [
        ("GET", Method::GET),
        ("DELETE", Method::DELETE),
        ("POST", Method::POST),
        ("PUT", Method::PUT),
        ("HEAD", Method::HEAD),
        ("CONNECT", Method::CONNECT),
        ("OPTIONS", Method::OPTIONS),
        ("TRACE", Method::TRACE),
        ("PATCH", Method::PATCH),
    ];
    for (token, method) in cases {
        let line = format!("{} / HTTP/1.1\r\n", token);
        let req = Request::parse(line.as_bytes()).unwrap();
        assert_eq!(*req.method(), method);
        assert_eq!(Method::from_token(token), Ok(method));
        assert_eq!(method.name(), token);
    }
}

#[test]
fn method_tokens_are_case_sensitive() {
    assert_eq!(Method::from_token("get"), Err(MethodError));
    assert_eq!(Method::from_token("GETS"), Err(MethodError));
    assert_eq!(Method::from_token(""), Err(MethodError));
}

#[test]
fn parse_twice_gives_equal_requests() {
    let buf = b"GET /search?name=abc&sort=1&sort=2 HTTP/1.1\r\n";
    assert_eq!(Request::parse(buf), Request::parse(buf));
    let bad = b"GET / HTTP/1.0\r\n";
    assert_eq!(Request::parse(bad), Request::parse(bad));
}

#[test]
fn parse_error_messages() {
    assert_eq!(ParseError::InvalidRequest.message(), "InvalidRequest");
    assert_eq!(ParseError::InvalidEncoding.message(), "InvalidEncoding");
    assert_eq!(ParseError::InvalidProtocol.message(), "InvalidProtocol");
    assert_eq!(ParseError::InvalidMethod.message(), "InvalidMethod");
    assert_eq!(ParseError::from(MethodError), ParseError::InvalidMethod);
}
