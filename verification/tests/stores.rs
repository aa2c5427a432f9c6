//! Storage: settings, keys, uploads and moves.
use service::storage::migrate::{
    confirm_upload, content_type, lanes, needs_upload, relative_key, summarize, FileOutcome,
    Kind, MigrationSummary, PathText, Walk,
};
use service::storage::s3::{
    request_failure, to_path, Request, S3Settings, S3Variables, MULTIPART_PART_SIZE,
    MULTIPART_THRESHOLD,
};
use service::storage::upload::{Upload, UploadEvent, UploadStage};
use service::storage::{setup_storage, BackendChoice, IoFault, StorageError};
use service::transfer::{Download, Wanted};

fn path(text: &str) -> PathText {
    PathText { bytes: text.as_bytes().to_vec(), shown: text.to_string() }
}

#[test]
fn to_path_rejects_empty() {
    assert!(matches!(to_path(""), Err(StorageError::InvalidKey)));
}

#[test]
fn to_path_rejects_double_dot() {
    assert!(matches!(
        to_path("../escape"),
        Err(StorageError::InvalidKey)
    ));
    assert!(matches!(
        to_path("foo/../bar"),
        Err(StorageError::InvalidKey)
    ));
    assert!(matches!(to_path(".."), Err(StorageError::InvalidKey)));
}

#[test]
fn to_path_accepts_valid_keys() {
    assert!(to_path("uuid-v4-key").is_ok());
    assert!(to_path("prefix/uuid-key").is_ok());
    assert!(to_path("a").is_ok());
    assert!(to_path("abc123-_.").is_ok());
}

#[test]
fn to_path_strips_one_slash_at_each_end() {
    assert_eq!(to_path("/a/b/").unwrap(), "a/b");
    assert_eq!(to_path("/").unwrap(), "");
    assert_eq!(to_path("a%2F\\b").unwrap(), "a%2F\\b");
    for key in ["//", "//a", "a//", "a//b", "a/./b", "a\u{7}b", "a\u{7f}"] {
        assert!(matches!(to_path(key), Err(StorageError::InvalidKey)), "{key:?}");
    }
}

#[test]
fn upload_rejects_invalid_key() {
    assert!(matches!(Upload::begin("", 0), Err(StorageError::InvalidKey)));
}

#[test]
fn delete_rejects_invalid_key() {
    assert!(matches!(to_path("../escape"), Err(StorageError::InvalidKey)));
}

#[test]
fn get_stream_rejects_invalid_key() {
    assert!(matches!(to_path(""), Err(StorageError::InvalidKey)));
}

#[test]
fn backends_are_chosen_by_name() {
    assert!(matches!(setup_storage(Some("s3"), None), Ok(BackendChoice::S3)));
    assert!(matches!(
        setup_storage(None, None),
        Ok(BackendChoice::Local(directory)) if directory == "./uploads"
    ));
    assert!(matches!(
        setup_storage(Some("local"), Some("/data")),
        Ok(BackendChoice::Local(directory)) if directory == "/data"
    ));
    assert_eq!(
        setup_storage(Some("ftp"), None).expect_err("unknown").message(),
        "invalid STORAGE_BACKEND: ftp (expected \"local\" or \"s3\")"
    );
}

#[test]
fn storage_errors_read_as_reported() {
    let io = StorageError::Io(IoFault { not_found: false, message: "denied".to_string() });
    assert_eq!(io.message(), "IO error: denied");
    assert_eq!(
        StorageError::SizeMismatch { expected: 10, actual: 3 }.message(),
        "upload size mismatch: expected 10, wrote 3"
    );
    assert_eq!(StorageError::InvalidKey.message(), "invalid storage key");
    assert_eq!(StorageError::Other("x".to_string()).message(), "x");
    assert_eq!(
        request_failure(Request::Build, "b").message(),
        "S3 client build failed: b"
    );
    assert_eq!(
        request_failure(Request::Delete, "d").message(),
        "S3 DeleteObject failed: d"
    );
    assert_eq!(request_failure(Request::Get, "g").message(), "S3 GetObject failed: g");
    assert_eq!(
        request_failure(Request::Stream, "s").message(),
        "S3 GetObject stream failed: s"
    );
}

fn variables() -> S3Variables {
    S3Variables {
        endpoint: Some("http://minio:9000/".to_string()),
        bucket: Some("/shots".to_string()),
        region: Some("eu".to_string()),
        access_key_id: Some("id".to_string()),
        secret_access_key: Some("key".to_string()),
        force_path_style: None,
        public_base_url: None,
    }
}

#[test]
fn settings_are_read() {
    let settings = S3Settings::from_variables(variables()).expect("complete");
    assert_eq!(settings.endpoint, "http://minio:9000/");
    assert_eq!(settings.bucket, "/shots");
    assert_eq!(settings.region, "eu");
    assert_eq!(settings.access_key_id, "id");
    assert_eq!(settings.secret_access_key, "key");
    assert!(settings.allow_http && !settings.force_path_style);
    assert_eq!(settings.public_base_url, "http://minio:9000/shots");

    let mut given = variables();
    given.endpoint = Some("https://s3".to_string());
    given.public_base_url = Some("https://cdn//".to_string());
    let settings = S3Settings::from_variables(given).expect("complete");
    assert!(!settings.allow_http);
    assert_eq!(settings.public_base_url, "https://cdn");

    for (value, expected) in [("1", true), ("TRUE", true), ("Yes", true), ("on", false), ("", false)] {
        let mut given = variables();
        given.force_path_style = Some(value.to_string());
        let settings = S3Settings::from_variables(given).expect("complete");
        assert_eq!(settings.force_path_style, expected, "{value:?}");
    }
}

#[test]
fn the_first_missing_setting_is_named() {
    let missing = |variables: S3Variables| {
        S3Settings::from_variables(variables).expect_err("incomplete").message()
    };
    let mut given = variables();
    given.secret_access_key = None;
    assert_eq!(missing(given), "S3_SECRET_ACCESS_KEY is not set");
    let mut given = variables();
    given.access_key_id = None;
    given.secret_access_key = None;
    assert_eq!(missing(given), "S3_ACCESS_KEY_ID is not set");
    let mut given = variables();
    given.region = None;
    assert_eq!(missing(given), "S3_REGION is not set");
    let mut given = variables();
    given.bucket = None;
    given.region = None;
    assert_eq!(missing(given), "S3_BUCKET is not set");
    let mut given = variables();
    given.endpoint = None;
    given.bucket = None;
    assert_eq!(missing(given), "S3_ENDPOINT is not set");
}

#[test]
fn small_objects_are_sent_at_once() {
    let mut upload = Upload::begin("a/b", 5).expect("key");
    assert_eq!(upload.path(), "a/b");
    assert_eq!(upload.stage(), UploadStage::Read);
    upload.step(UploadEvent::Chunk(b"he".to_vec()));
    upload.step(UploadEvent::Chunk(b"llo".to_vec()));
    upload.step(UploadEvent::End);
    assert_eq!(upload.stage(), UploadStage::Put);
    assert_eq!(upload.take_payload(), b"hello");
    upload.step(UploadEvent::Done);
    assert_eq!(upload.stage(), UploadStage::Done);
    assert!(matches!(upload.into_outcome(), Some(Ok(()))));
}

#[test]
fn sizes_are_checked_before_a_small_object_is_sent() {
    let mut upload = Upload::begin("k", 5).expect("key");
    upload.step(UploadEvent::Chunk(b"four".to_vec()));
    upload.step(UploadEvent::End);
    assert_eq!(upload.stage(), UploadStage::Done);
    assert!(matches!(
        upload.into_outcome(),
        Some(Err(StorageError::SizeMismatch { expected: 5, actual: 4 }))
    ));
    // A size of zero is not known, so nothing is compared.
    let mut upload = Upload::begin("k", 0).expect("key");
    upload.step(UploadEvent::Chunk(b"four".to_vec()));
    upload.step(UploadEvent::End);
    assert_eq!(upload.take_payload(), b"four");
    upload.step(UploadEvent::Failed("503".to_string()));
    assert_eq!(
        upload.into_outcome().expect("over").expect_err("refused").message(),
        "S3 PutObject failed: 503"
    );
    let mut upload = Upload::begin("k", 1).expect("key");
    upload.step(UploadEvent::Broken(StorageError::Other("cut".to_string())));
    assert_eq!(
        upload.into_outcome().expect("over").expect_err("broken").message(),
        "cut"
    );
}

/// Drives an upload in parts and returns what was sent.
fn send(upload: &mut Upload, chunks: &[Vec<u8>]) -> Vec<Vec<u8>> {
    let mut sent = Vec::new();
    let mut chunks = chunks.iter();
    assert_eq!(upload.stage(), UploadStage::Create);
    upload.step(UploadEvent::Done);
    loop {
        match upload.stage() {
            UploadStage::Read => upload.step(match chunks.next() {
                Some(chunk) => UploadEvent::Chunk(chunk.clone()),
                None => UploadEvent::End,
            }),
            UploadStage::PutPart { .. } => {
                sent.push(upload.take_payload());
                upload.step(UploadEvent::Done);
            }
            _ => return sent,
        }
    }
}

#[test]
fn large_objects_are_sent_in_parts() {
    let part = MULTIPART_PART_SIZE;
    let whole: Vec<u8> = (0..2 * part + 10).map(|i| (i % 251) as u8).collect();
    let mut upload = Upload::begin("big", whole.len() as u64).expect("key");
    let chunks = [whole[..3].to_vec(), whole[3..2 * part].to_vec(), whole[2 * part..].to_vec()];
    let sent = send(&mut upload, &chunks);
    assert_eq!(
        sent.iter().map(|p| p.len()).collect::<Vec<_>>(),
        vec![part, part, 10]
    );
    assert_eq!(sent.concat(), whole);
    assert_eq!(upload.stage(), UploadStage::Complete);
    upload.step(UploadEvent::Done);
    assert!(matches!(upload.into_outcome(), Some(Ok(()))));
}

#[test]
fn objects_of_unknown_size_are_sent_in_parts_once_they_fill_one() {
    let mib = 1024 * 1024;
    let mut upload = Upload::begin("k", 0).expect("key");
    for i in 0..4 {
        assert_eq!(upload.stage(), UploadStage::Read);
        upload.step(UploadEvent::Chunk(vec![i; mib]));
    }
    upload.step(UploadEvent::Chunk(vec![4; mib]));
    assert_eq!(upload.stage(), UploadStage::Create);
    upload.step(UploadEvent::Done);
    assert_eq!(upload.stage(), UploadStage::PutPart { last: false });
    let part = upload.take_payload();
    assert_eq!(part.len(), MULTIPART_PART_SIZE);
    assert_eq!((part[0], part[5 * mib - 1]), (0, 4));
    upload.step(UploadEvent::Done);
    upload.step(UploadEvent::Chunk(vec![5; 2 * mib]));
    upload.step(UploadEvent::End);
    assert_eq!(upload.stage(), UploadStage::PutPart { last: true });
    assert_eq!(upload.take_payload(), vec![5; 2 * mib]);
    upload.step(UploadEvent::Done);
    assert_eq!(upload.stage(), UploadStage::Complete);
    upload.step(UploadEvent::Done);
    assert!(matches!(upload.into_outcome(), Some(Ok(()))));
    // Where it cannot be set up, there is nothing to call off.
    let mut upload = Upload::begin("k", 0).expect("key");
    upload.step(UploadEvent::Chunk(vec![0; MULTIPART_PART_SIZE]));
    upload.step(UploadEvent::Failed("no".to_string()));
    assert_eq!(
        upload.into_outcome().expect("over").expect_err("refused").message(),
        "S3 CreateMultipartUpload failed: no"
    );
}

#[test]
fn bytes_beyond_an_announced_small_size_are_only_counted() {
    let mut upload = Upload::begin("k", 3).expect("key");
    upload.step(UploadEvent::Chunk(b"abc".to_vec()));
    for _ in 0..8 {
        upload.step(UploadEvent::Chunk(vec![0; MULTIPART_PART_SIZE]));
        assert_eq!(upload.stage(), UploadStage::Read);
    }
    upload.step(UploadEvent::End);
    assert!(upload.take_payload().is_empty());
    match upload.into_outcome() {
        Some(Err(StorageError::SizeMismatch { expected, actual })) => {
            assert_eq!((expected, actual), (3, 3 + 8 * MULTIPART_PART_SIZE as u64))
        }
        other => panic!("expected a mismatch, got {other:?}"),
    }
}

#[test]
fn an_object_of_whole_parts_has_no_empty_last_part() {
    assert_eq!(MULTIPART_THRESHOLD, MULTIPART_PART_SIZE as u64);
    let whole = vec![7u8; MULTIPART_PART_SIZE];
    let mut upload = Upload::begin("big", MULTIPART_THRESHOLD).expect("key");
    let sent = send(&mut upload, &[whole.clone()]);
    assert_eq!(sent, vec![whole]);
    upload.step(UploadEvent::Failed("late".to_string()));
    assert_eq!(
        upload.into_outcome().expect("over").expect_err("refused").message(),
        "S3 CompleteMultipartUpload failed: late"
    );
}

#[test]
fn failed_uploads_in_parts_are_called_off() {
    // The size is wrong.
    let mut upload = Upload::begin("big", MULTIPART_THRESHOLD).expect("key");
    send(&mut upload, &[vec![1u8; 4]]);
    assert_eq!(upload.stage(), UploadStage::Abort);
    upload.step(UploadEvent::Failed("whatever".to_string()));
    assert!(matches!(
        upload.into_outcome(),
        Some(Err(StorageError::SizeMismatch { expected: MULTIPART_THRESHOLD, actual: 4 }))
    ));
    // A part is refused.
    let mut upload = Upload::begin("big", MULTIPART_THRESHOLD).expect("key");
    upload.step(UploadEvent::Done);
    upload.step(UploadEvent::Chunk(vec![0u8; MULTIPART_PART_SIZE]));
    upload.step(UploadEvent::Failed("slow down".to_string()));
    assert_eq!(upload.stage(), UploadStage::Abort);
    upload.step(UploadEvent::Done);
    assert_eq!(
        upload.into_outcome().expect("over").expect_err("refused").message(),
        "S3 UploadPart failed: slow down"
    );
    // The object cannot be read any further.
    let mut upload = Upload::begin("big", MULTIPART_THRESHOLD).expect("key");
    upload.step(UploadEvent::Done);
    upload.step(UploadEvent::Broken(StorageError::Other("cut".to_string())));
    assert_eq!(upload.stage(), UploadStage::Abort);
    // There is nothing to call off before it was set up.
    let mut upload = Upload::begin("big", MULTIPART_THRESHOLD).expect("key");
    upload.step(UploadEvent::Failed("no".to_string()));
    assert_eq!(upload.stage(), UploadStage::Done);
    assert_eq!(
        upload.into_outcome().expect("over").expect_err("refused").message(),
        "S3 CreateMultipartUpload failed: no"
    );
}

#[test]
fn downloads_stop_at_the_limit() {
    let mut download = Download::begin(Wanted::Object, "k");
    assert!(download.push(vec![0u8; 25 * 1024 * 1024]).is_ok());
    assert_eq!(
        download.push(vec![1]).expect_err("too large"),
        "object k exceeds 26214400 bytes"
    );
    assert_eq!(download.failure("gone"), "read k: gone");
    assert_eq!(download.into_bytes().len(), 25 * 1024 * 1024);
    let mut download = Download::begin(Wanted::Bundle, "z");
    assert!(download.push(b"ab".to_vec()).is_ok() && download.push(b"c".to_vec()).is_ok());
    assert_eq!(
        download.push(vec![0u8; 200 * 1024 * 1024]).expect_err("too large"),
        "storybook bundle z exceeds 209715200 bytes"
    );
    assert_eq!(download.into_bytes(), b"abc");
}

#[test]
fn migration_content_types_cover_stored_artifacts() {
    assert_eq!(content_type("a.PNG"), "image/png");
    assert_eq!(content_type("storybook.zip"), "application/zip");
    assert_eq!(
        content_type("unknown"),
        "application/octet-stream"
    );
}

#[test]
fn only_the_last_name_has_an_extension() {
    assert_eq!(content_type("a.png/b"), "application/octet-stream");
    assert_eq!(content_type(".png"), "application/octet-stream");
    assert_eq!(content_type("x/y.tar.zip/"), "application/zip");
    assert_eq!(content_type("a.png/.."), "application/octet-stream");
    assert_eq!(content_type("a."), "application/octet-stream");
}

#[test]
fn migration_preserves_keys_and_resumes_by_size() {
    let root = path("/data/up");
    let file = path("/data/up/tenants/t1/projects/p1/builds/b1/shot.png");
    let key = relative_key(&root, &file).expect("key");
    assert_eq!(key, "tenants/t1/projects/p1/builds/b1/shot.png");

    // First pass: nothing is there. Second pass: the sizes agree.
    assert!(needs_upload(None, 8));
    let first = vec![
        confirm_upload(&key, 8, Some(8)).expect("sent"),
        confirm_upload("storybook.zip", 8, Some(8)).expect("sent"),
    ];
    assert_eq!(
        summarize(&first),
        MigrationSummary { discovered: 2, uploaded: 2, skipped: 0, bytes_uploaded: 16 }
    );
    assert!(!needs_upload(Some(8), 8));
    let second = summarize(&vec![FileOutcome::Skipped, FileOutcome::Skipped]);
    assert_eq!(
        second,
        MigrationSummary { discovered: 2, uploaded: 0, skipped: 2, bytes_uploaded: 0 }
    );
}

#[test]
fn migration_replaces_an_existing_object_with_a_different_size() {
    assert!(needs_upload(Some(3), 9));
    let summary = summarize(&vec![confirm_upload("shot.png", 9, Some(9)).expect("sent")]);
    assert_eq!(summary.uploaded, 1);
    assert_eq!(summary.skipped, 0);
    assert_eq!(
        confirm_upload("shot.png", 9, Some(3)).expect_err("wrong size").message(),
        "storage migration verification failed for `shot.png`: expected 9 bytes, got Some(3)"
    );
    assert_eq!(
        confirm_upload("shot.png", 9, None).expect_err("missing").message(),
        "storage migration verification failed for `shot.png`: expected 9 bytes, got None"
    );
}

#[test]
fn missing_source_directory_is_an_empty_success() {
    let walk = Walk::begin(path("/missing"), None).expect("nothing to do");
    let (order, files) = walk.into_files();
    assert!(order.is_empty() && files.is_empty());
    assert_eq!(summarize(&vec![]), MigrationSummary::default());
}

#[test]
fn keys_are_paths_below_the_source() {
    let key = |root: &str, file: &str| relative_key(&path(root), &path(file));
    assert_eq!(key("/r/", "/r//a/./b").unwrap(), "a/b");
    assert_eq!(key("r", "r/x").unwrap(), "x");
    assert!(matches!(key("/r", "/r"), Err(StorageError::InvalidKey)));
    assert_eq!(
        key("/r", "/rx/a").expect_err("outside").message(),
        "migration path `/rx/a` is outside source root `/r`"
    );
    assert_eq!(
        key("/r", "/r/a/../b").expect_err("up").message(),
        "invalid migration path: /r/a/../b"
    );
    assert!(matches!(key("r", "/r/x"), Err(StorageError::Other(_))));
    let broken = PathText { bytes: b"/r/\xff".to_vec(), shown: "/r/?".to_string() };
    assert_eq!(
        relative_key(&path("/r"), &broken).expect_err("not UTF-8").message(),
        "migration path is not valid UTF-8: /r/?"
    );
}

#[test]
fn all_files_are_found_and_put_in_order() {
    let mut walk = Walk::begin(path("/r"), Some(Kind::Directory)).expect("directory");
    assert_eq!(walk.next_directory().expect("root").shown, "/r");
    walk.visit(path("/r/b.png"), Kind::File).expect("file");
    walk.visit(path("/r/a"), Kind::Directory).expect("directory");
    walk.visit(path("/r/a.txt"), Kind::File).expect("file");
    assert_eq!(walk.next_directory().expect("a").shown, "/r/a");
    walk.visit(path("/r/a/z"), Kind::File).expect("file");
    assert_eq!(
        walk.visit(path("/r/a/link"), Kind::Other).expect_err("link").message(),
        "refusing to migrate symlink or special file: /r/a/link"
    );
    assert!(walk.next_directory().is_none());
    let (order, files) = walk.into_files();
    let sorted: Vec<&str> = order.iter().map(|&i| files[i].shown.as_str()).collect();
    // Part by part: the directory `a` comes before the file `a.txt`.
    assert_eq!(sorted, vec!["/r/a/z", "/r/a.txt", "/r/b.png"]);
    assert_eq!(
        Walk::begin(path("/f"), Some(Kind::File)).expect_err("no directory").message(),
        "LOCAL_UPLOAD_DIR is not a directory: /f"
    );
    assert_eq!((lanes(0), lanes(4)), (1, 4));
}

#[test]
fn different_files_have_different_keys() {
    let root = path("/r");
    let files = ["/r/a/b", "/r/a.b", "/r/ab", "/r/a/b/c", "/r/b/a"];
    let keys: Vec<String> =
        files.iter().map(|file| relative_key(&root, &path(file)).expect("key")).collect();
    for i in 0..keys.len() {
        for j in 0..i {
            assert_ne!(keys[i], keys[j]);
        }
    }
    // Two ways to write one path are one file.
    assert_eq!(relative_key(&root, &path("/r//a/./b")).expect("key"), keys[0]);
}
