use httpmsg::ErrorType;
use httpmsg::Header;
use httpmsg::Method;
use httpmsg::Request;

#[test]
fn parse_get_request() {
    let req_string =
        "GET / HTTP/1.1\r\nHost: localhost:3333\r\nUser-Agent: curl/7.81.0\r\nAccept: */*\r\n";
    let result = Request::from_string(req_string).unwrap();

    assert_eq!(result.method, Method::GET);
    assert_eq!(result.path.uri, "/");
    assert_eq!(result.path.query.len(), 0);
    assert_eq!(result.scheme, "HTTP");
    assert_eq!(result.version, "1.1");
    assert_eq!(result.headers[0], Header::new("Host", "localhost:3333"));
    assert_eq!(result.headers[1], Header::new("User-Agent", "curl/7.81.0"));
    assert_eq!(result.headers[2], Header::new("Accept", "*/*"));
}

#[test]
fn parse_post_request() {
    let req_string = "POST /hello-world HTTP/1.1\r\nHost: localhost:3333\r\nUser-Agent: curl/7.81.0\r\nAccept: */*\r\nContent-Type: application/json\r\nContent-Length: 18\r\n\r\n{ \"hello\": \"world\" }";
    let result = Request::from_string(req_string).unwrap();

    assert_eq!(result.method, Method::POST);
    assert_eq!(result.path.uri, "/hello-world");
    assert_eq!(result.path.query.len(), 0);
    assert_eq!(result.scheme, "HTTP");
    assert_eq!(result.version, "1.1");
    assert_eq!(result.headers[0], Header::new("Host", "localhost:3333"));
    assert_eq!(result.headers[1], Header::new("User-Agent", "curl/7.81.0"));
    assert_eq!(result.headers[2], Header::new("Accept", "*/*"));
    assert_eq!(
        result.headers[3],
        Header::new("Content-Type", "application/json")
    );
    assert_eq!(result.headers[4], Header::new("Content-Length", "18"));
    assert_eq!(result.body, "{ \"hello\": \"world\" }");
}

#[test]
fn parse_request_with_query() {
    let req_string =
        "GET /hello-world?name=foo&location=bar HTTP/1.1\r\nHost: localhost:3333\r\nUser-Agent: curl/7.81.0\r\nAccept: */*\r\n";
    let result = Request::from_string(req_string).unwrap();

    assert_eq!(result.path.uri, "/hello-world");
    assert_eq!(result.path.query[0].key, "name");
    assert_eq!(result.path.query[0].value, "foo");
    assert_eq!(result.path.query[1].key, "location");
    assert_eq!(result.path.query[1].value, "bar");
}

#[test]
fn parse_request_with_empty_query() {
    let req_string =
        "GET /hello-world? HTTP/1.1\r\nHost: localhost:3333\r\nUser-Agent: curl/7.81.0\r\nAccept: */*\r\n";
    let result = Request::from_string(req_string).unwrap();

    assert_eq!(result.path.uri, "/hello-world");
    assert_eq!(result.path.query.len(), 0);
}

#[test]
fn parse_empty_buffer_is_invalid_method() {
    let err = Request::from_string("").unwrap_err();

    assert_eq!(err.err_type, ErrorType::InvalidMethod);
    assert_eq!(err.msg, "Invalid or unsupported http method");
}

#[test]
fn parse_missing_protocol_token() {
    let err = Request::from_string("GET /\r\n").unwrap_err();

    assert_eq!(err.err_type, ErrorType::ParserError);
    assert_eq!(err.msg, "Invalid start line format");
}

#[test]
fn parse_protocol_without_slash() {
    let err = Request::from_string("GET / HTTP\r\n").unwrap_err();

    assert_eq!(err.err_type, ErrorType::ParserError);
    assert_eq!(err.msg, "Invalid protocol format");
}

#[test]
fn parse_unknown_method_aborts() {
    let err = Request::from_string("HELLO / HTTP/1.1\r\n").unwrap_err();

    assert_eq!(err.err_type, ErrorType::InvalidMethod);
}

#[test]
fn malformed_header_line_is_dropped() {
    let req_string = "GET / HTTP/1.1\r\nBadHeader\r\nHost: localhost:3333\r\n";
    let result = Request::from_string(req_string).unwrap();

    assert_eq!(result.headers.len(), 1);
    assert_eq!(result.headers[0], Header::new("Host", "localhost:3333"));
}

#[test]
fn query_token_without_equals_is_dropped() {
    let req_string = "GET /x?a&b=2 HTTP/1.1\r\n";
    let result = Request::from_string(req_string).unwrap();

    assert_eq!(result.path.query.len(), 1);
    assert_eq!(result.path.query[0].key, "b");
    assert_eq!(result.path.query[0].value, "2");
}

#[test]
fn query_value_defaults_to_empty() {
    let result = Request::from_string("GET /x?k= HTTP/1.1\r\n").unwrap();

    assert_eq!(result.path.query.len(), 1);
    assert_eq!(result.path.query[0].key, "k");
    assert_eq!(result.path.query[0].value, "");
}

#[test]
fn query_value_runs_to_the_end() {
    let result = Request::from_string("GET /x?k=v=w HTTP/1.1\r\n").unwrap();

    assert_eq!(result.path.query.len(), 1);
    assert_eq!(result.path.query[0].key, "k");
    assert_eq!(result.path.query[0].value, "v=w");
}

#[test]
fn body_lines_are_joined_without_terminators() {
    let req_string = "PUT /u HTTP/1.1\r\nHost: x\r\n\r\nfirst\r\nsecond";
    let result = Request::from_string(req_string).unwrap();

    assert_eq!(result.body, "firstsecond");
}

#[test]
fn missing_separator_yields_empty_body() {
    let result = Request::from_string("GET / HTTP/1.1\r\nHost: x").unwrap();

    assert_eq!(result.headers.len(), 1);
    assert_eq!(result.body, "");
}

#[test]
fn duplicate_headers_are_kept_in_order() {
    let req_string = "GET / HTTP/1.1\r\nAccept: a\r\nAccept: b\r\n";
    let result = Request::from_string(req_string).unwrap();

    assert_eq!(result.headers[0], Header::new("Accept", "a"));
    assert_eq!(result.headers[1], Header::new("Accept", "b"));
}

#[test]
fn extra_start_line_tokens_are_ignored() {
    let result = Request::from_string("GET / HTTP/1.1 extra\r\n").unwrap();

    assert_eq!(result.method, Method::GET);
    assert_eq!(result.scheme, "HTTP");
    assert_eq!(result.version, "1.1");
}

#[test]
fn protocol_version_stops_at_second_slash() {
    let result = Request::from_string("GET / HTTP/1.1/x\r\n").unwrap();

    assert_eq!(result.scheme, "HTTP");
    assert_eq!(result.version, "1.1");
}

#[test]
fn query_runs_to_the_end_of_the_path_token() {
    let result = Request::from_string("GET /x?y?z=1 HTTP/1.1\r\n").unwrap();

    assert_eq!(result.path.uri, "/x");
    assert_eq!(result.path.query.len(), 1);
    assert_eq!(result.path.query[0].key, "y?z");
    assert_eq!(result.path.query[0].value, "1");
}

#[test]
fn header_value_stops_at_second_separator() {
    let result = Request::from_string("GET / HTTP/1.1\r\nHost: a: b\r\n").unwrap();

    assert_eq!(result.headers[0], Header::new("Host", "a"));
}
