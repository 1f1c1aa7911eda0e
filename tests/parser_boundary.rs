use rust_multer::parser::boundary::{extract_multipart_boundary, validate_boundary};
use rust_multer::MultipartStream;

#[test]
fn extracts_boundary_from_content_type() {
    let boundary = extract_multipart_boundary("multipart/form-data; boundary=abc123")
        .expect("boundary should parse");
    assert_eq!(boundary, "abc123");
}

#[test]
fn extracts_quoted_boundary() {
    let boundary = extract_multipart_boundary("multipart/form-data; boundary=\"my-boundary\"")
        .expect("quoted boundary should parse");
    assert_eq!(boundary, "my-boundary");
}

#[test]
fn rejects_non_multipart_content_type() {
    let err = extract_multipart_boundary("application/json").expect_err("must fail");
    assert_err_contains(&err.to_string(), "multipart/form-data");
}

#[test]
fn rejects_missing_boundary_parameter() {
    let err = extract_multipart_boundary("multipart/form-data").expect_err("must fail");
    assert_err_contains(&err.to_string(), "missing multipart boundary");
}

#[test]
fn rejects_invalid_boundary_characters() {
    let err = extract_multipart_boundary("multipart/form-data; boundary=abc@123")
        .expect_err("must fail");
    assert_err_contains(&err.to_string(), "invalid");
}

#[test]
fn rejects_boundary_that_is_too_long() {
    let long_boundary = "a".repeat(71);
    let header = format!("multipart/form-data; boundary={long_boundary}");
    let err = extract_multipart_boundary(&header).expect_err("must fail");
    assert_err_contains(&err.to_string(), "cannot exceed 70");
}

#[test]
fn boundary_round_trips_through_content_type() {
    for b in ["BOUND", "a", "x'()+_,-./:=? y", "----WebKitFormBoundary7MA4YWxkTrZu0gW"] {
        let quoted = format!("multipart/form-data; boundary=\"{b}\"");
        assert_eq!(extract_multipart_boundary(&quoted).expect("valid"), b);
        if !b.contains(' ') && !b.contains('(') && !b.contains(')') && !b.contains(',')
            && !b.contains('/') && !b.contains(':') && !b.contains('=') && !b.contains('?')
        {
            let plain = format!("multipart/form-data; boundary={b}");
            assert_eq!(extract_multipart_boundary(&plain).expect("valid"), b);
        }
    }
}

#[test]
fn seventy_characters_are_accepted() {
    let b = "a".repeat(70);
    assert!(validate_boundary(&b).is_ok());
}

#[test]
fn boundary_ending_in_space_is_rejected() {
    let err = validate_boundary("abc ").expect_err("must fail");
    assert_err_contains(&err.to_string(), "whitespace");
}

#[test]
fn empty_boundary_is_rejected() {
    let err = validate_boundary("").expect_err("must fail");
    assert_err_contains(&err.to_string(), "empty");
}

#[test]
fn direct_boundary_with_crlf_is_rejected() {
    let err = MultipartStream::new("ab\r\ncd").err().expect("must fail");
    assert_err_contains(&err.to_string(), "CRLF");
}

#[test]
fn uppercase_media_type_is_accepted() {
    let boundary = extract_multipart_boundary("Multipart/Form-Data; boundary=XyZ")
        .expect("case-insensitive type");
    assert_eq!(boundary, "XyZ");
}

fn assert_err_contains(actual: &str, expected_fragment: &str) {
    assert!(
        actual.contains(expected_fragment),
        "expected `{actual}` to contain `{expected_fragment}`"
    );
}
