use httpmsg::Header;
use httpmsg::Response;
use httpmsg::Status;

#[test]
fn empty_response_scheme() {
    let result = Response::empty();

    assert!(result.to_string().contains("HTTP"));
}

#[test]
fn empty_response_version() {
    let result = Response::empty();

    assert!(result.to_string().contains("1.1"));
}

#[test]
fn empty_response_status() {
    let result = Response::empty();

    assert!(result.to_string().contains("200 OK"));
}

#[test]
fn response_content() {
    let html = "<html><head><title>Hello, world!</title></head><body><h1>Hello, world!</h1></body></html>";
    let result = Response::content(html, "text/html");

    assert!(result.to_string().contains(html));
}

#[test]
fn response_content_length_header() {
    let html = "<html><head><title>Hello, world!</title></head><body><h1>Hello, world!</h1></body></html>";
    let result = Response::content(html, "text/html");

    assert!(result.to_string().contains("Content-Length: 89"));
}

#[test]
fn set_status() {
    let result = Response::empty().status(Status::Forbidden);

    assert!(result.to_string().contains("403 FORBIDDEN"));
}

#[test]
fn set_header() {
    let result = Response::empty().header(Header::new("Access-Control-Allow-Origin", "*"));

    assert!(result
        .to_string()
        .contains("Access-Control-Allow-Origin: *"));
}

#[test]
fn set_header_does_not_override_existing_headers() {
    let html = "<html><head><title>Hello, world!</title></head><body><h1>Hello, world!</h1></body></html>";
    let result = Response::content(html, "text/html")
        .header(Header::new("Access-Control-Allow-Origin", "*"));

    assert!(result.to_string().contains("Content-Length: 89"));
}

#[test]
fn response_format() {
    let html = "<html><head><title>Hello, world!</title></head><body><h1>Hello, world!</h1></body></html>";
    let result = Response::content(html, "text/html")
        .status(Status::SeeOther)
        .to_string();
    let expected = "HTTP/1.1 303 SEE OTHER\r\nContent-Type: text/html\r\nContent-Length: 89\r\n\r\n<html><head><title>Hello, world!</title></head><body><h1>Hello, world!</h1></body></html>";

    assert_eq!(result, expected);
}

#[test]
fn response_body_sets_no_headers() {
    let result = Response::body("plain").to_string();

    assert_eq!(result, "HTTP/1.1 200 OK\r\n\r\nplain");
}

#[test]
fn json_response_content_type() {
    let result = Response::json("{}").to_string();

    assert_eq!(
        result,
        "HTTP/1.1 200 OK\r\nContent-Type: application/json\r\nContent-Length: 2\r\n\r\n{}"
    );
}

#[test]
fn html_response_content_type() {
    let result = Response::html("<p>hi</p>");

    assert!(result.to_string().contains("Content-Type: text/html"));
}

#[test]
fn empty_content_has_length_zero() {
    let result = Response::content("", "text/plain");

    assert!(result.to_string().contains("Content-Length: 0"));
}

#[test]
fn set_cookie() {
    let result = Response::empty().cookie("id=1");

    assert!(result.to_string().contains("Set-Cookie: id=1"));
}

#[test]
fn content_length_counts_bytes() {
    let result = Response::content("héllo", "text/plain");

    assert!(result.to_string().contains("Content-Length: 6"));
}

#[test]
fn appending_header_keeps_earlier_render_as_prefix() {
    let first = Response::empty().header(Header::new("A", "1"));
    let second = first.clone().header(Header::new("B", "2"));
    let s1 = first.to_string();
    let s2 = second.to_string();
    // with no content, a render is its head plus one blank line
    let head1 = &s1[..s1.len() - 2];

    assert!(s2.starts_with(head1));
    assert!(s2.len() > s1.len());
}
