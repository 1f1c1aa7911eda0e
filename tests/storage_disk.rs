use rust_multer::storage::disk::{disk_file_name, random_file_name, sanitize_filename, FilenameStrategy};
use rust_multer::{ChunkSource, MemoryStorage, Multer, MulterError, Multipart, NoopStorage};

fn multipart_body(parts: &[(&str, &str, &str, &str)]) -> Vec<u8> {
    let mut out = Vec::new();
    for (field, file_name, content_type, body) in parts {
        out.extend_from_slice(b"--BOUND\r\n");
        let disposition =
            format!("Content-Disposition: form-data; name=\"{field}\"; filename=\"{file_name}\"\r\n");
        out.extend_from_slice(disposition.as_bytes());
        let content_type = format!("Content-Type: {content_type}\r\n\r\n");
        out.extend_from_slice(content_type.as_bytes());
        out.extend_from_slice(body.as_bytes());
        out.extend_from_slice(b"\r\n");
    }
    out.extend_from_slice(b"--BOUND--\r\n");
    out
}

fn assert_safe(name: &str) {
    assert!(!name.is_empty());
    assert_ne!(name, ".");
    assert!(!name.contains(".."));
    assert!(!name.contains('/'));
    assert!(!name.contains('\\'));
    assert!(!name.chars().any(|c| (c as u32) < 32 || c as u32 == 127));
}

#[test]
fn sanitize_filename_rejects_traversal_and_null_bytes() {
    let traversal = sanitize_filename("../../etc/passwd");
    assert!(!traversal.contains(".."));
    assert!(!traversal.contains('/'));
    assert!(!traversal.contains('\\'));

    let nul = sanitize_filename("..\\..\\nul\0byte?.txt");
    assert!(!nul.contains('\0'));
    assert!(!nul.contains(".."));
    assert!(!nul.contains('?'));
}

#[test]
fn sanitize_filename_keeps_ordinary_names() {
    assert_eq!(sanitize_filename("report.txt"), "report.txt");
    assert_eq!(sanitize_filename("..\\..\\bad:name?.txt"), "badname.txt");
    assert_eq!(sanitize_filename("a   b\t.txt"), "a b.txt");
    assert_eq!(sanitize_filename("../../etc/passwd"), "etcpasswd");
}

#[test]
fn sanitize_filename_replaces_empty_results() {
    for input in ["", "..", "/", "<>:\"|?*", "."] {
        let name = sanitize_filename(input);
        assert_eq!(name.len(), 32, "input {input:?} gave {name:?}");
        assert!(name.chars().all(|c| c.is_ascii_hexdigit() && !c.is_ascii_uppercase()));
    }
}

#[test]
fn disk_file_names_follow_the_strategy() {
    assert_eq!(disk_file_name(FilenameStrategy::Keep, "a/b.txt", "ignored"), "ab.txt");
    assert_eq!(
        disk_file_name(FilenameStrategy::Custom, "report.txt", "prefix-report.txt"),
        "prefix-report.txt"
    );
    let random = disk_file_name(FilenameStrategy::Random, "same.txt", "same.txt");
    assert_safe(&random);
    assert_ne!(random, disk_file_name(FilenameStrategy::Random, "same.txt", "same.txt"));
    assert_ne!(random_file_name(), random_file_name());
}

#[test]
fn memory_storage_keeps_bodies_under_field_keys() {
    let mut multer = Multer::new(MemoryStorage::new());
    let body = multipart_body(&[
        ("upload", "a.txt", "text/plain", "hello"),
        ("upload", "b.txt", "text/plain", "world!"),
    ]);
    let mut source = ChunkSource::from_chunks(vec![body]);
    let out = multer.parse_and_store("BOUND", &mut source).expect("parse");
    assert_eq!(out.stored_files.len(), 2);
    assert_eq!(out.stored_files[0].storage_key, "upload-0");
    assert_eq!(out.stored_files[1].storage_key, "upload-1");
    assert_eq!(out.stored_files[0].size, 5);
    assert_eq!(out.stored_files[1].size, 6);
    assert!(out.stored_files[0].path.is_none());
    let storage = multer.storage();
    assert_eq!(storage.len(), 2);
    assert_eq!(storage.get("upload-0").map(|v| v.as_slice()), Some(&b"hello"[..]));
    assert_eq!(storage.get("upload-1").map(|v| v.as_slice()), Some(&b"world!"[..]));
    assert!(storage.get("upload-2").is_none());
}

#[test]
fn noop_storage_refuses_files() {
    let mut multer = Multer::new(NoopStorage);
    let body = multipart_body(&[("upload", "a.txt", "text/plain", "hello")]);
    let mut multipart = Multipart::new("BOUND").expect("boundary");
    let mut source = ChunkSource::from_chunks(vec![body]);
    let part = multipart.next_part_from(&mut source).expect("parse").expect("part");
    let err = multer.store(&part).expect_err("no backend");
    assert!(matches!(err, MulterError::Storage(_)));
    assert!(err.to_string().contains("no storage backend"));
}

#[test]
fn streams_large_file_from_chunked_input() {
    let mut chunks = vec![
        b"--BOUND\r\nContent-Disposition: form-data; name=\"upload\"; filename=\"big.bin\"\r\n\r\n"
            .to_vec(),
    ];
    for _ in 0..128 {
        chunks.push(vec![b'z'; 1024]);
    }
    chunks.push(b"\r\n--BOUND--\r\n".to_vec());
    let mut multer = Multer::new(MemoryStorage::new());
    let mut source = ChunkSource::from_chunks(chunks);
    let out = multer.parse_and_store("BOUND", &mut source).expect("parse");
    assert_eq!(out.stored_files.len(), 1);
    assert_eq!(out.stored_files[0].size, 128 * 1024);
    assert_eq!(out.stored_files[0].content_type.essence_str(), "application/octet-stream");
}
