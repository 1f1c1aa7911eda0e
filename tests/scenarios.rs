use rust_multer::parser::headers::parse_part_headers;
use rust_multer::{
    ChunkSource, Field, FileField, Limits, MemoryStorage, Multer, MulterConfig, MulterError,
    Multipart, ProcessedMultipart, SelectedField, Selector, StoredFile, UnknownFieldPolicy,
};

const SIMPLE: &str = "--BOUND\r\nContent-Disposition: form-data; name=\"note\"\r\n\r\nhi\r\n--BOUND\r\nContent-Disposition: form-data; name=\"up\"; filename=\"a.txt\"\r\nContent-Type: text/plain\r\n\r\nhello\r\n--BOUND--\r\n";

fn chunked(body: &[u8], size: usize) -> ChunkSource {
    ChunkSource::from_chunks(body.chunks(size).map(|c| c.to_vec()).collect())
}

fn process(source: &mut ChunkSource) -> ProcessedMultipart<StoredFile> {
    let mut multer = Multer::new(MemoryStorage::new());
    multer.parse_and_store("BOUND", source).expect("parse")
}

fn config(selector: Selector, policy: UnknownFieldPolicy, limits: Limits) -> MulterConfig {
    MulterConfig { selector, unknown_field_policy: policy, limits }
}

fn file_part(field: &str, file: &str, content_type: &str, body: &str) -> String {
    format!(
        "--BOUND\r\nContent-Disposition: form-data; name=\"{field}\"; filename=\"{file}\"\r\nContent-Type: {content_type}\r\n\r\n{body}\r\n"
    )
}

#[test]
fn simple_text_and_file() {
    let out = process(&mut ChunkSource::from_chunks(vec![SIMPLE.as_bytes().to_vec()]));
    assert_eq!(out.text_fields, vec![("note".to_owned(), "hi".to_owned())]);
    assert_eq!(out.stored_files.len(), 1);
    let f = &out.stored_files[0];
    assert_eq!(f.field_name, "up");
    assert_eq!(f.file_name.as_deref(), Some("a.txt"));
    assert_eq!(f.content_type.essence_str(), "text/plain");
    assert_eq!(f.size, 5);
}

#[test]
fn chunk_permutations_give_identical_output() {
    let whole = process(&mut ChunkSource::from_chunks(vec![SIMPLE.as_bytes().to_vec()]));
    for size in [1usize, 2, 3, 5, 7, 13, 64, 1000] {
        let out = process(&mut chunked(SIMPLE.as_bytes(), size));
        assert_eq!(out, whole, "chunk size {size}");
    }
}

#[test]
fn file_size_early_fail() {
    let c = config(
        Selector::any(),
        UnknownFieldPolicy::Ignore,
        Limits { max_file_size: Some(4), ..Limits::default() },
    );
    let mut mp = Multipart::with_config("BOUND", c).expect("init");
    let head = "--BOUND\r\nContent-Disposition: form-data; name=\"upload\"; filename=\"a.bin\"\r\n\r\n";
    let mut source = ChunkSource::from_chunks(vec![
        head.as_bytes().to_vec(),
        b"0123456789abcdefghijklmnopqrstuvwxyz".to_vec(),
        b"never read".to_vec(),
    ]);
    let err = mp.next_part_from(&mut source).expect_err("too large");
    assert!(matches!(
        err,
        MulterError::FileSizeLimitExceeded { field, max_file_size: 4 } if field == "upload"
    ));
    assert!(source.next().is_some(), "the last chunk is never pulled");
    assert!(mp.next_part_from(&mut source).expect("after failure").is_none());
}

#[test]
fn unknown_field_rejected() {
    let c = config(
        Selector::fields(vec![Field::file("avatar").into_selected()]),
        UnknownFieldPolicy::Reject,
        Limits::default(),
    );
    let body = file_part("avatar", "a.png", "image/png", "x") + &file_part("unknown", "b.png", "image/png", "y") + "--BOUND--\r\n";
    let mut mp = Multipart::with_config("BOUND", c).expect("init");
    let mut source = ChunkSource::from_chunks(vec![body.into_bytes()]);
    let first = mp.next_part_from(&mut source).expect("first").expect("avatar");
    assert_eq!(first.field_name(), "avatar");
    let err = mp.next_part_from(&mut source).expect_err("unknown");
    assert!(matches!(err, MulterError::UnexpectedField { field } if field == "unknown"));
    assert!(mp.next_part_from(&mut source).expect("terminal").is_none());
}

#[test]
fn unknown_field_ignored() {
    let c = config(
        Selector::fields(vec![SelectedField::new("avatar")]),
        UnknownFieldPolicy::Ignore,
        Limits::default(),
    );
    let body = file_part("other", "b.png", "image/png", "y") + &file_part("avatar", "a.png", "image/png", "x") + "--BOUND--\r\n";
    let mut mp = Multipart::with_config("BOUND", c).expect("init");
    let mut source = ChunkSource::from_chunks(vec![body.into_bytes()]);
    let part = mp.next_part_from(&mut source).expect("ok").expect("avatar");
    assert_eq!(part.field_name(), "avatar");
    assert_eq!(part.bytes(), b"x");
    assert!(mp.next_part_from(&mut source).expect("end").is_none());
}

#[test]
fn mime_wildcard() {
    let c = config(
        Selector::any(),
        UnknownFieldPolicy::Reject,
        Limits { allowed_mime_types: vec!["image/*".to_owned()], ..Limits::default() },
    );
    let body = file_part("a", "a.png", "image/png", "1") + &file_part("b", "b.txt", "text/plain", "2") + "--BOUND--\r\n";
    let mut mp = Multipart::with_config("BOUND", c).expect("init");
    let mut source = ChunkSource::from_chunks(vec![body.into_bytes()]);
    assert!(mp.next_part_from(&mut source).expect("first").is_some());
    let err = mp.next_part_from(&mut source).expect_err("second");
    assert!(matches!(err, MulterError::MimeTypeNotAllowed { field, mime } if field == "b" && mime == "text/plain"));
}

#[test]
fn per_field_mime_and_count() {
    let avatar = FileField::new("avatar")
        .with_max_count(2)
        .with_allowed_mime_types(vec!["IMAGE/PNG".to_owned()]);
    let c = config(
        Selector::fields(vec![Field::File(avatar).into_selected()]),
        UnknownFieldPolicy::Reject,
        Limits::default(),
    );
    let body = file_part("avatar", "a.png", "image/png", "1") + &file_part("avatar", "b.gif", "image/gif", "2") + "--BOUND--\r\n";
    let mut mp = Multipart::with_config("BOUND", c).expect("init");
    let mut source = ChunkSource::from_chunks(vec![body.into_bytes()]);
    assert!(mp.next_part_from(&mut source).expect("first").is_some());
    let err = mp.next_part_from(&mut source).expect_err("second");
    assert!(matches!(err, MulterError::MimeTypeNotAllowed { field, mime } if field == "avatar" && mime == "image/gif"));
}

#[test]
fn array_limit() {
    let c = config(Selector::array("photos", 2), UnknownFieldPolicy::Reject, Limits::default());
    let body = file_part("photos", "1.png", "image/png", "1")
        + &file_part("photos", "2.png", "image/png", "2")
        + &file_part("photos", "3.png", "image/png", "3")
        + "--BOUND--\r\n";
    let mut mp = Multipart::with_config("BOUND", c).expect("init");
    let mut source = ChunkSource::from_chunks(vec![body.into_bytes()]);
    assert!(mp.next_part_from(&mut source).expect("1").is_some());
    assert!(mp.next_part_from(&mut source).expect("2").is_some());
    let err = mp.next_part_from(&mut source).expect_err("3");
    assert!(matches!(err, MulterError::FieldCountLimitExceeded { field, max_count: 2 } if field == "photos"));
}

#[test]
fn single_selector_rejects_second_file() {
    let c = config(Selector::single("doc"), UnknownFieldPolicy::Reject, Limits::default());
    let body = file_part("doc", "1.txt", "text/plain", "1") + &file_part("doc", "2.txt", "text/plain", "2") + "--BOUND--\r\n";
    let mut mp = Multipart::with_config("BOUND", c).expect("init");
    let mut source = ChunkSource::from_chunks(vec![body.into_bytes()]);
    assert!(mp.next_part_from(&mut source).expect("1").is_some());
    let err = mp.next_part_from(&mut source).expect_err("2");
    assert!(matches!(err, MulterError::FieldCountLimitExceeded { field, max_count: 1 } if field == "doc"));
}

#[test]
fn terminal_boundary_without_crlf_at_end() {
    let body = "--BOUND\r\nContent-Disposition: form-data; name=\"note\"\r\n\r\nhi\r\n--BOUND--";
    for size in [1usize, 3, 100] {
        let out = process(&mut chunked(body.as_bytes(), size));
        assert_eq!(out.text_fields, vec![("note".to_owned(), "hi".to_owned())]);
    }
}

#[test]
fn malformed_boundary_line_is_rejected() {
    let mut mp = Multipart::new("BOUND").expect("init");
    let mut source = ChunkSource::from_chunks(vec![
        b"--BOUND\r\nContent-Disposition: form-data; name=\"a\"\r\n\r\nxx\r\n--NOPE\r\n".to_vec(),
        b"more\r\n--BOUND--\r\n".to_vec(),
    ]);
    let err = mp.next_part_from(&mut source).expect_err("malformed");
    match err {
        MulterError::Parse(e) => assert_eq!(e.to_string(), "malformed multipart boundary"),
        other => panic!("unexpected {}", other.to_string()),
    }
}

#[test]
fn malformed_suffix_after_delimiter_is_rejected() {
    let body = "--BOUND\r\nContent-Disposition: form-data; name=\"a\"\r\n\r\nxx\r\n--BOUNDzz\r\n";
    let mut mp = Multipart::new("BOUND").expect("init");
    let mut source = ChunkSource::from_chunks(vec![body.as_bytes().to_vec()]);
    let err = mp.next_part_from(&mut source).expect_err("malformed");
    assert!(err.to_string().contains("malformed multipart boundary"));
}

#[test]
fn empty_body_is_rejected() {
    let mut mp = Multipart::new("BOUND").expect("init");
    let mut source = ChunkSource::from_chunks(vec![]);
    let err = mp.next_part_from(&mut source).expect_err("empty");
    assert_eq!(err.to_string(), "missing opening boundary");
}

#[test]
fn body_without_opening_boundary_is_rejected() {
    let mut mp = Multipart::new("BOUND").expect("init");
    let mut source = ChunkSource::from_chunks(vec![b"hello there".to_vec()]);
    let err = mp.next_part_from(&mut source).expect_err("no boundary");
    assert_eq!(err.to_string(), "missing opening boundary");

    let mut mp = Multipart::new("BOUND").expect("init");
    let mut source = ChunkSource::from_chunks(vec![b"hello\r\n--BOUND\r\n".to_vec()]);
    let err = mp.next_part_from(&mut source).expect_err("wrong first line");
    assert_eq!(err.to_string(), "missing opening boundary");
}

#[test]
fn truncated_part_is_incomplete() {
    let mut mp = Multipart::new("BOUND").expect("init");
    let mut source = ChunkSource::from_chunks(vec![
        b"--BOUND\r\nContent-Disposition: form-data; name=\"a\"\r\n\r\nhalf a bo".to_vec(),
    ]);
    let err = mp.next_part_from(&mut source).expect_err("truncated");
    assert!(matches!(err, MulterError::IncompleteStream));
    assert!(mp.next_part_from(&mut source).expect("terminal").is_none());
}

#[test]
fn closing_boundary_only_is_empty_multipart() {
    let out = process(&mut ChunkSource::from_chunks(vec![b"--BOUND--\r\n".to_vec()]));
    assert!(out.text_fields.is_empty());
    assert!(out.stored_files.is_empty());
}

#[test]
fn upstream_error_is_propagated() {
    let mut mp = Multipart::new("BOUND").expect("init");
    let mut source = ChunkSource::new(vec![
        Ok(b"--BOUND\r\n".to_vec()),
        Err(MulterError::Parse(rust_multer::ParseError::new("connection reset"))),
    ]);
    let err = mp.next_part_from(&mut source).expect_err("upstream");
    assert_eq!(err.to_string(), "connection reset");
    assert!(mp.next_part_from(&mut source).expect("terminal").is_none());
}

#[test]
fn stored_size_is_the_exact_body_length() {
    let body = "--BOUND\r\nContent-Disposition: form-data; name=\"f\"; filename=\"x\"\r\n\r\n\r\nline\r\n\r\n--BOUND--\r\n";
    let out = process(&mut chunked(body.as_bytes(), 4));
    assert_eq!(out.stored_files[0].size, 8);
}

#[test]
fn header_parse_is_idempotent() {
    let block = b"Content-Disposition: form-data; name=\"up\"; filename=\"a.txt\"\r\nContent-Type: text/plain";
    let a = parse_part_headers(block).expect("parse");
    let b = parse_part_headers(block).expect("parse");
    assert_eq!(a, b);
    assert_eq!(a.field_name, "up");
    assert_eq!(a.file_name.as_deref(), Some("a.txt"));
    assert_eq!(a.content_type.essence_str(), "text/plain");
}

#[test]
fn header_parser_details() {
    let h = parse_part_headers(b"content-disposition: FORM-DATA; name=\"a\\\"b\"; filename=plain.txt; filename*=UTF-8''%E2%82%AC%20rates.txt\r\nX-Extra: 1").expect("parse");
    assert_eq!(h.field_name, "a\"b");
    assert_eq!(h.file_name.as_deref(), Some("\u{20ac} rates.txt"));
    assert_eq!(h.content_type.essence_str(), "application/octet-stream");
    assert_eq!(h.headers.len(), 2);
    assert_eq!(h.headers[1].name, "x-extra");

    let t = parse_part_headers(b"Content-Disposition: form-data; name=note").expect("parse");
    assert_eq!(t.file_name, None);
    assert_eq!(t.content_type.essence_str(), "text/plain");

    let e = parse_part_headers(b"Content-Type: text/plain").expect_err("no disposition");
    assert_eq!(e.to_string(), "missing Content-Disposition header");
    let e = parse_part_headers(b"Content-Disposition: attachment; name=\"a\"").expect_err("type");
    assert_eq!(e.to_string(), "Content-Disposition must be form-data");
    let e = parse_part_headers(b"Content-Disposition: form-data; filename=\"a\"").expect_err("name");
    assert_eq!(e.to_string(), "missing field name in Content-Disposition");
    let e = parse_part_headers(b"Content-Disposition form-data").expect_err("line");
    assert_eq!(e.to_string(), "invalid part header line");
    let e = parse_part_headers(b"Content-Disposition: form-data; name=\"\xff\"").expect_err("utf8");
    assert_eq!(e.to_string(), "part headers must be UTF-8");
    let e = parse_part_headers(b"Bad Name: x\r\nContent-Disposition: form-data; name=a").expect_err("name");
    assert_eq!(e.to_string(), "invalid part header name");
    let e = parse_part_headers(b"Content-Disposition: form-data; name=\"unterminated").expect_err("quote");
    assert!(e.to_string().contains("unterminated"));
}

#[test]
fn text_field_size_limit_per_field() {
    let note = rust_multer::TextField::new("note").with_max_size(3);
    let c = config(
        Selector::fields(vec![Field::Text(note).into_selected()]),
        UnknownFieldPolicy::Reject,
        Limits::default(),
    );
    let body = "--BOUND\r\nContent-Disposition: form-data; name=\"note\"\r\n\r\nhello\r\n--BOUND--\r\n";
    let mut mp = Multipart::with_config("BOUND", c).expect("init");
    let mut source = ChunkSource::from_chunks(vec![body.as_bytes().to_vec()]);
    let err = mp.next_part_from(&mut source).expect_err("too long");
    assert!(matches!(err, MulterError::FieldSizeLimitExceeded { field, max_field_size: 3 } if field == "note"));
}

#[test]
fn text_only_body_collects_fields_in_order() {
    let body = "--BOUND\r\nContent-Disposition: form-data; name=\"a\"\r\n\r\n1\r\n--BOUND\r\nContent-Disposition: form-data; name=\"b\"\r\n\r\n22\r\n--BOUND--\r\n";
    let mut multer = Multer::new(rust_multer::NoopStorage);
    let out = multer
        .parse_and_store("BOUND", &mut chunked(body.as_bytes(), 3))
        .expect("no storage call is needed");
    assert_eq!(out.text_fields, vec![("a".to_owned(), "1".to_owned()), ("b".to_owned(), "22".to_owned())]);
    assert!(out.stored_files.is_empty());
}

#[test]
fn content_type_gives_a_parser() {
    let multer = Multer::new(MemoryStorage::new());
    assert!(multer.multipart_from_content_type("multipart/form-data; boundary=BOUND").is_ok());
    let err = multer.multipart_from_content_type("text/plain").err().expect("not multipart");
    assert_eq!(err.to_string(), "Content-Type must be multipart/form-data");
}
