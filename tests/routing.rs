use http_codec::{bad_request, route, Method, ParseError, Response, Route, StatusCode};

#[test]
fn routes_for_get() {
    assert_eq!(route(&Method::GET, "/"), Route::Page("index.html"));
    assert_eq!(route(&Method::GET, "/hello"), Route::Page("hello.html"));
    assert_eq!(route(&Method::GET, "/hello2"), Route::Fixed("<h1>Hello</h1>"));
    assert_eq!(route(&Method::GET, "/style.css"), Route::File("/style.css"));
}

#[test]
fn other_methods_are_not_found() {
    assert_eq!(route(&Method::POST, "/"), Route::NotFound);
    assert_eq!(route(&Method::HEAD, "/hello"), Route::NotFound);
}

#[test]
fn respond_to_routes() {
    let page = Route::Page("index.html");
    assert_eq!(page.respond(None), Response::new(StatusCode::OK, None));
    assert_eq!(
        page.respond(Some("hi".to_string())),
        Response::new(StatusCode::OK, Some("hi".to_string()))
    );
    assert_eq!(
        Route::Fixed("<h1>Hello</h1>").respond(None),
        Response::new(StatusCode::OK, Some("<h1>Hello</h1>".to_string()))
    );
    let file = Route::File("/a.txt");
    assert_eq!(file.respond(None), Response::new(StatusCode::NotFound, None));
    assert_eq!(
        file.respond(Some("a".to_string())),
        Response::new(StatusCode::OK, Some("a".to_string()))
    );
    assert_eq!(Route::NotFound.respond(Some("x".to_string())), Response::new(StatusCode::NotFound, None));
}

#[test]
fn bad_request_for_every_error() {
    for e in [
        ParseError::InvalidRequest,
        ParseError::InvalidEncoding,
        ParseError::InvalidProtocol,
        ParseError::InvalidMethod,
    ] {
        assert_eq!(
            bad_request(&e).to_bytes(),
            b"HTTP/1.1 400 BadRequest\r\nContent-Length: 1\r\n\r\n  ".to_vec()
        );
    }
}
