use rust_multer::{
    ChunkSource, Limits, MulterConfig, MulterError, Multipart, Selector, UnknownFieldPolicy,
};

fn config_with_limits(limits: Limits) -> MulterConfig {
    MulterConfig {
        selector: Selector::any(),
        unknown_field_policy: UnknownFieldPolicy::Reject,
        limits,
    }
}

fn multipart_body(parts: &[(&str, Option<&str>, Option<&str>, &str)]) -> Vec<u8> {
    let mut out = Vec::new();
    for (field, file_name, content_type, body) in parts {
        out.extend_from_slice(b"--BOUND\r\n");
        match file_name {
            Some(file_name) => {
                let disposition = format!(
                    "Content-Disposition: form-data; name=\"{field}\"; filename=\"{file_name}\"\r\n"
                );
                out.extend_from_slice(disposition.as_bytes());
                if let Some(content_type) = content_type {
                    let header = format!("Content-Type: {content_type}\r\n");
                    out.extend_from_slice(header.as_bytes());
                }
                out.extend_from_slice(b"\r\n");
            }
            None => {
                let disposition =
                    format!("Content-Disposition: form-data; name=\"{field}\"\r\n\r\n");
                out.extend_from_slice(disposition.as_bytes());
            }
        }
        out.extend_from_slice(body.as_bytes());
        out.extend_from_slice(b"\r\n");
    }
    out.extend_from_slice(b"--BOUND--\r\n");
    out
}

fn one_chunk(body: Vec<u8>) -> ChunkSource {
    ChunkSource::from_chunks(vec![body])
}

#[test]
fn enforces_max_file_size() {
    let config = config_with_limits(Limits {
        max_file_size: Some(3),
        ..Limits::default()
    });
    let body = multipart_body(&[("upload", Some("a.bin"), Some("application/octet-stream"), "hello")]);
    let mut multipart = Multipart::with_config("BOUND", config).expect("multipart should initialize");
    let mut source = one_chunk(body);
    let err = multipart.next_part_from(&mut source).expect_err("body should fail size limit");
    assert!(matches!(
        err,
        MulterError::FileSizeLimitExceeded {
            field,
            max_file_size: 3
        } if field == "upload"
    ));
}

#[test]
fn enforces_max_field_size() {
    let config = config_with_limits(Limits {
        max_field_size: Some(4),
        ..Limits::default()
    });
    let body = multipart_body(&[("note", None, None, "hello")]);
    let mut multipart = Multipart::with_config("BOUND", config).expect("multipart should initialize");
    let mut source = one_chunk(body);
    let err = multipart.next_part_from(&mut source).expect_err("body should fail size limit");
    assert!(matches!(
        err,
        MulterError::FieldSizeLimitExceeded {
            field,
            max_field_size: 4
        } if field == "note"
    ));
}

#[test]
fn enforces_max_files() {
    let config = config_with_limits(Limits {
        max_files: Some(1),
        ..Limits::default()
    });
    let body = multipart_body(&[
        ("a", Some("a.bin"), Some("application/octet-stream"), "one"),
        ("b", Some("b.bin"), Some("application/octet-stream"), "two"),
    ]);
    let mut multipart = Multipart::with_config("BOUND", config).expect("multipart should initialize");
    let mut source = one_chunk(body);

    let first = multipart
        .next_part_from(&mut source)
        .expect("first item expected")
        .expect("first file should pass");
    assert_eq!(first.field_name(), "a");

    let second = multipart.next_part_from(&mut source).expect_err("second item expected");
    assert!(matches!(second, MulterError::FilesLimitExceeded { max_files: 1 }));
}

#[test]
fn enforces_max_fields() {
    let config = config_with_limits(Limits {
        max_fields: Some(1),
        ..Limits::default()
    });
    let body = multipart_body(&[("first", None, None, "one"), ("second", None, None, "two")]);
    let mut multipart = Multipart::with_config("BOUND", config).expect("multipart should initialize");
    let mut source = one_chunk(body);

    let first = multipart
        .next_part_from(&mut source)
        .expect("first item expected")
        .expect("first field should pass");
    assert_eq!(first.field_name(), "first");

    let second = multipart.next_part_from(&mut source).expect_err("second item expected");
    assert!(matches!(second, MulterError::FieldsLimitExceeded { max_fields: 1 }));
}

#[test]
fn enforces_max_body_size() {
    let config = config_with_limits(Limits {
        max_body_size: Some(32),
        ..Limits::default()
    });
    let body = multipart_body(&[(
        "upload",
        Some("a.bin"),
        Some("application/octet-stream"),
        "payload that is clearly longer than thirty-two bytes",
    )]);
    let mut multipart = Multipart::with_config("BOUND", config).expect("multipart should initialize");
    let mut source = one_chunk(body);
    let item = multipart.next_part_from(&mut source).expect_err("item expected");
    assert!(matches!(item, MulterError::BodySizeLimitExceeded { max_body_size: 32 }));
}

#[test]
fn body_of_exactly_max_body_size_is_accepted() {
    let body = multipart_body(&[("note", None, None, "hi")]);
    let config = config_with_limits(Limits {
        max_body_size: Some(body.len() as u64),
        ..Limits::default()
    });
    let mut multipart = Multipart::with_config("BOUND", config).expect("multipart should initialize");
    let chunks: Vec<Vec<u8>> = body.chunks(5).map(|c| c.to_vec()).collect();
    let mut source = ChunkSource::from_chunks(chunks);
    let part = multipart.next_part_from(&mut source).expect("ok").expect("part");
    assert_eq!(part.bytes(), b"hi");
    assert!(multipart.next_part_from(&mut source).expect("ok").is_none());

    let config = config_with_limits(Limits {
        max_body_size: Some(body.len() as u64 - 1),
        ..Limits::default()
    });
    let mut multipart = Multipart::with_config("BOUND", config).expect("multipart should initialize");
    let mut source = one_chunk(body);
    let err = multipart.next_part_from(&mut source).expect_err("one byte too many");
    assert!(matches!(err, MulterError::BodySizeLimitExceeded { .. }));
}

#[test]
fn enforces_allowed_mime_types_with_wildcard() {
    let config = config_with_limits(Limits {
        allowed_mime_types: vec!["image/*".to_owned()],
        ..Limits::default()
    });
    let body = multipart_body(&[
        ("avatar", Some("a.png"), Some("image/png"), "one"),
        ("notes", Some("a.txt"), Some("text/plain"), "two"),
    ]);
    let mut multipart = Multipart::with_config("BOUND", config).expect("multipart should initialize");
    let mut source = one_chunk(body);

    let first = multipart
        .next_part_from(&mut source)
        .expect("first item expected")
        .expect("image file should pass");
    assert_eq!(first.field_name(), "avatar");

    let second = multipart.next_part_from(&mut source).expect_err("second item expected");
    assert!(matches!(
        second,
        MulterError::MimeTypeNotAllowed { field, mime }
        if field == "notes" && mime == "text/plain"
    ));
}

#[test]
fn fails_early_before_terminal_boundary_for_large_file_chunks() {
    let config = config_with_limits(Limits {
        max_file_size: Some(4),
        ..Limits::default()
    });
    let first_chunk = [
        "--BOUND\r\n",
        "Content-Disposition: form-data; name=\"upload\"; filename=\"a.bin\"\r\n",
        "Content-Type: application/octet-stream\r\n",
        "\r\n",
        "0123456789abcdefghijklmnopqrstuvwxyz",
    ]
    .concat();
    let mut multipart = Multipart::with_config("BOUND", config).expect("multipart should initialize");
    multipart.push_chunk(first_chunk.as_bytes()).expect("chunk accepted");
    // The closing boundary has not arrived and the input has not ended.
    let polled = multipart.poll_part();
    match polled {
        rust_multer::PartPoll::Item(Err(MulterError::FileSizeLimitExceeded { field, max_file_size })) => {
            assert_eq!(field, "upload");
            assert_eq!(max_file_size, 4);
        }
        _ => panic!("expected an early size error"),
    }
}

#[test]
fn size_error_message_names_the_limit() {
    let err = MulterError::FileSizeLimitExceeded { field: "upload".to_owned(), max_file_size: 4096 };
    let message = err.to_string();
    assert!(message.contains("upload"));
    assert!(message.contains("4096"));
}

#[test]
fn limit_errors_end_the_parse() {
    let config = config_with_limits(Limits {
        max_files: Some(1),
        ..Limits::default()
    });
    let body = multipart_body(&[
        ("a", Some("a.bin"), None, "one"),
        ("b", Some("b.bin"), None, "two"),
        ("c", None, None, "three"),
    ]);
    let mut multipart = Multipart::with_config("BOUND", config).expect("multipart should initialize");
    let mut source = one_chunk(body);
    assert!(multipart.next_part_from(&mut source).expect("first").is_some());
    assert!(matches!(
        multipart.next_part_from(&mut source),
        Err(MulterError::FilesLimitExceeded { max_files: 1 })
    ));
    assert!(multipart.next_part_from(&mut source).expect("after the error").is_none());
}

#[test]
fn chunk_over_body_limit_is_refused() {
    let config = config_with_limits(Limits {
        max_body_size: Some(10),
        ..Limits::default()
    });
    let mut multipart = Multipart::with_config("BOUND", config).expect("multipart should initialize");
    assert!(multipart.push_chunk(b"").is_ok());
    assert!(multipart.push_chunk(b"0123456789").is_ok());
    assert!(matches!(
        multipart.push_chunk(b"x"),
        Err(MulterError::BodySizeLimitExceeded { max_body_size: 10 })
    ));
    assert!(matches!(multipart.poll_part(), rust_multer::PartPoll::Finished));
}
