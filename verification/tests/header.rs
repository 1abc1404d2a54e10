use httpmsg::Header;

#[test]
fn create_new_header() {
    let result = Header::new("Content-Type", "text/html");
    let expected = Header {
        key: "Content-Type".to_string(),
        value: "text/html".to_string(),
    };

    assert_eq!(result, expected);
}

#[test]
fn header_string_representation() {
    let result = Header::new("Content-Type", "text/html").to_string();
    let expected = "Content-Type: text/html".to_string();

    assert_eq!(result, expected);
}

#[test]
fn header_keeps_value_verbatim() {
    let result = Header::new("X-Odd", "a: b: c").to_string();

    assert_eq!(result, "X-Odd: a: b: c".to_string());
}
