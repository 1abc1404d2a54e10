use httpmsg::Status;

#[test]
fn status_code() {
    let result = Status::Okay.code();
    let expected = 200;

    assert_eq!(result, expected);
}

#[test]
fn status_message() {
    let result = Status::InternalServerError.message();
    let expected = "INTERNAL SERVER ERROR";

    assert_eq!(result, expected);
}

#[test]
fn status_string_representation() {
    let result = Status::NotFound.to_string();
    let expected = "404 NOT FOUND".to_string();

    assert_eq!(result, expected);
}

#[test]
fn status_table() {
    let table = [
        (Status::Okay, 200, "OK"),
        (Status::SeeOther, 303, "SEE OTHER"),
        (Status::BadRequest, 400, "BAD REQUEST"),
        (Status::Unauthorized, 401, "UNAUTHORIZED"),
        (Status::Forbidden, 403, "FORBIDDEN"),
        (Status::NotFound, 404, "NOT FOUND"),
        (Status::NotAllowed, 405, "NOT ALLOWED"),
        (Status::InternalServerError, 500, "INTERNAL SERVER ERROR"),
    ];
    for (status, code, message) in table {
        assert_eq!(status.code(), code);
        assert_eq!(status.message(), message);
        assert_eq!(status.to_string(), format!("{} {}", code, message));
    }
}
