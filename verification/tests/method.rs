use httpmsg::ErrorType;
use httpmsg::Method;

#[test]
fn method_from_string() {
    let result = Method::from_string("GET");
    let expected = Ok(Method::GET);

    assert_eq!(result, expected);
}

#[test]
fn method_from_invalid_string() {
    let result = Method::from_string("HELLO");

    assert!(result.is_err());
}

#[test]
fn method_invalid_kind() {
    let err = Method::from_string("HELLO").unwrap_err();

    assert_eq!(err.err_type, ErrorType::InvalidMethod);
    assert_eq!(err.msg, "Invalid or unsupported http method");
}

#[test]
fn method_round_trip_all_tokens() {
    for token in ["HEAD", "GET", "POST", "PUT", "DELETE", "PATCH"] {
        let method = Method::from_string(token).unwrap();
        assert_eq!(method.to_string(), token);
    }
}

#[test]
fn method_is_case_sensitive() {
    assert!(Method::from_string("get").is_err());
    assert!(Method::from_string(" GET").is_err());
}
