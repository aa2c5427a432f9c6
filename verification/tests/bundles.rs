//! Unpacking bundles and listing their stories.
use std::io::Write;

use serde_json::Value;
use service::render::bundle::{
    check_count, check_size, confirm_parent, extract_zip, extract_zip_with_limits, judge_contents, judge_head,
    safe_join, BundleError, Entry,
    ExtractLimits, Extracted, Extraction, MAX_BUNDLE_BYTES, MAX_ENTRIES, MAX_UNCOMPRESSED_BYTES,
};
use service::render::archive::Head;
use service::render::index::{
    index_bundle, index_file, locate_index, parse_index, IndexEntry, Story, StorybookIndex, Subdirectory,
};
use service::render::validate_zip;
use service::error::AppError;
use zip::write::SimpleFileOptions;

/// A zip in memory.
fn zip_with(files: &[(&str, &str)]) -> Vec<u8> {
    let mut buf = std::io::Cursor::new(Vec::new());
    {
        let mut writer = zip::ZipWriter::new(&mut buf);
        let options =
            SimpleFileOptions::default().compression_method(zip::CompressionMethod::Deflated);
        for (name, contents) in files {
            writer.start_file(*name, options).expect("start file");
            writer.write_all(contents.as_bytes()).expect("write");
        }
        writer.finish().expect("finish zip");
    }
    buf.into_inner()
}

const INDEX_V5: &str = r#"{
    "v": 5,
    "entries": {
        "components-button--primary": {
            "type": "story",
            "id": "components-button--primary",
            "title": "Components/Button",
            "name": "Primary",
            "importPath": "./src/Button.stories.tsx"
        },
        "components-button--docs": {
            "type": "docs",
            "id": "components-button--docs",
            "title": "Components/Button",
            "name": "Docs",
            "importPath": "./src/Button.mdx"
        },
        "components-card--default": {
            "type": "story",
            "id": "components-card--default",
            "title": "Components/Card",
            "name": "Default",
            "importPath": "./src/Card.stories.tsx"
        }
    }
}"#;

fn text_at(value: &Value, key: &str) -> Option<String> {
    value.get(key).and_then(|v| v.as_str()).map(|s| s.to_string())
}

fn entries_at(index: &Value, key: &str) -> Option<Vec<(String, IndexEntry)>> {
    let mut entries: Vec<(String, IndexEntry)> = index
        .get(key)?
        .as_object()?
        .iter()
        .map(|(key, value)| {
            let entry = IndexEntry {
                id: text_at(value, "id"),
                title: text_at(value, "title"),
                name: text_at(value, "name"),
                entry_type: text_at(value, "type"),
            };
            (key.clone(), entry)
        })
        .collect();
    entries.sort_by(|a, b| a.0.cmp(&b.0));
    Some(entries)
}

/// Decodes an index that has the right types.
fn decode(json: &str) -> Result<StorybookIndex, String> {
    let index: Value = serde_json::from_str(json).map_err(|e| e.to_string())?;
    Ok(StorybookIndex {
        entries: entries_at(&index, "entries"),
        stories: entries_at(&index, "stories"),
    })
}

fn contents<'a>(items: &'a [Extracted], path: &str) -> Option<&'a Vec<u8>> {
    items.iter().find(|item| item.path == path).and_then(|item| item.contents.as_ref())
}

fn has(items: &[Extracted], path: &str) -> bool {
    contents(items, path).is_some()
}

/// Finds the index among unpacked files and lists its stories.
fn index(items: &[Extracted]) -> Result<(Option<String>, Vec<Story>), BundleError> {
    let mut names: Vec<String> = Vec::new();
    for item in items {
        if let Some((directory, _)) = item.path.split_once('/') {
            if !names.iter().any(|n| n == directory) {
                names.push(directory.to_string());
            }
        }
    }
    let directories: Vec<Subdirectory> = names
        .iter()
        .map(|name| Subdirectory {
            name: name.clone().into_bytes(),
            has_index: has(items, &format!("{name}/index.json")),
            has_stories: has(items, &format!("{name}/stories.json")),
        })
        .collect();
    let (found, file) =
        locate_index(has(items, "index.json"), has(items, "stories.json"), &directories)?;
    let root = found.map(|i| names[i].clone());
    let path = match &root {
        Some(root) => format!("{root}/{file}"),
        None => file.to_string(),
    };
    let json = String::from_utf8(contents(items, &path).expect("index").clone()).expect("text");
    Ok((root, parse_index(decode(&json))?))
}

#[test]
fn extracts_bundle_and_lists_stories() {
    let zip = zip_with(&[
        ("index.json", INDEX_V5),
        ("iframe.html", "<html><body>iframe</body></html>"),
        ("assets/main.js", "console.log('hi')"),
    ]);

    let items = extract_zip(&zip).expect("extract");
    assert_eq!(
        contents(&items, "iframe.html").expect("iframe.html"),
        b"<html><body>iframe</body></html>"
    );
    assert!(has(&items, "assets/main.js"));

    let (root, stories) = index(&items).expect("index");
    assert_eq!(root, None);
    let names: Vec<String> = stories.iter().map(|s| s.screenshot_name()).collect();
    assert_eq!(
        names,
        vec!["Components/Button/Primary", "Components/Card/Default"],
        "docs entries must be skipped and stories sorted by name"
    );
    assert_eq!(stories[0].id, "components-button--primary");
}

#[test]
fn finds_index_one_directory_below_the_root() {
    let zip = zip_with(&[
        ("storybook-static/index.json", INDEX_V5),
        ("storybook-static/iframe.html", "<html></html>"),
    ]);
    let items = extract_zip(&zip).expect("extract");
    let (root, stories) = index(&items).expect("index");
    assert_eq!(root.as_deref(), Some("storybook-static"));
    assert_eq!(stories.len(), 2);
}

#[test]
fn rejects_zip_slip_entries() {
    let zip = zip_with(&[("../escaped.txt", "pwned"), ("index.json", INDEX_V5)]);
    let err = extract_zip(&zip).expect_err("zip slip must be rejected");
    assert!(
        matches!(err, BundleError::UnsafePath(_)),
        "expected UnsafePath, got {err:?}"
    );
}

#[test]
fn rejects_absolute_and_backslash_entries() {
    let root = "/srv/bundle";
    assert!(matches!(safe_join(root, "/etc/passwd"), Err(BundleError::UnsafePath(_))));
    assert!(matches!(safe_join(root, "..\\..\\windows"), Err(BundleError::UnsafePath(_))));
    assert!(matches!(safe_join(root, "a/../../b"), Err(BundleError::UnsafePath(_))));
    // Plain paths, and those with a leading `./`, are fine.
    assert_eq!(safe_join(root, "./iframe.html").unwrap(), "/srv/bundle/iframe.html");
    assert_eq!(safe_join(root, "assets/app.js").unwrap(), "/srv/bundle/assets/app.js");
}

#[test]
fn rejects_names_that_lead_nowhere_or_to_a_drive() {
    for name in ["", ".", "./", "a/..", "C:/x", "z:y"] {
        match safe_join("/r", name) {
            Err(BundleError::UnsafePath(shown)) => assert_eq!(shown, name),
            other => panic!("{name:?}: expected UnsafePath, got {other:?}"),
        }
    }
    assert_eq!(safe_join("/r", "a//./b/").unwrap(), "/r/a/b");
    assert_eq!(safe_join("/r/", "...").unwrap(), "/r/...");
    assert_eq!(safe_join("/r", "1:x").unwrap(), "/r/1:x");
}

#[test]
fn rejects_symlink_entries() {
    let mut buf = std::io::Cursor::new(Vec::new());
    {
        let mut writer = zip::ZipWriter::new(&mut buf);
        let options =
            SimpleFileOptions::default().compression_method(zip::CompressionMethod::Stored);
        writer.add_symlink("evil-link", "/etc/passwd", options).expect("add symlink");
        writer.finish().expect("finish zip");
    }
    let err = extract_zip(&buf.into_inner()).expect_err("symlink must be rejected");
    assert!(matches!(err, BundleError::Symlink(_)), "got {err:?}");
}

#[test]
fn rejects_bundles_with_too_many_entries() {
    let zip = zip_with(&[("a.txt", "a"), ("b.txt", "b"), ("c.txt", "c")]);
    let limits = ExtractLimits { max_entries: 2, ..ExtractLimits::default() };
    let err = extract_zip_with_limits(&zip, limits).expect_err("entry cap");
    assert!(matches!(err, BundleError::TooManyEntries), "got {err:?}");
}

#[test]
fn rejects_bundles_that_expand_past_the_uncompressed_cap() {
    // Small when packed, large when unpacked.
    let payload = "0".repeat(64 * 1024);
    let zip = zip_with(&[("index.json", INDEX_V5), ("big.js", payload.as_str())]);
    let limits = ExtractLimits { max_uncompressed_bytes: 1024, ..ExtractLimits::default() };
    let err = extract_zip_with_limits(&zip, limits).expect_err("size cap");
    assert!(matches!(err, BundleError::TooMuchData), "got {err:?}");
}

#[test]
fn rejects_bundles_larger_than_the_upload_cap() {
    let zip = zip_with(&[("index.json", INDEX_V5)]);
    let limits = ExtractLimits { max_bundle_bytes: 8, ..ExtractLimits::default() };
    assert!(matches!(
        extract_zip_with_limits(&zip, limits),
        Err(BundleError::TooLarge(_))
    ));
    assert!(check_size(8, limits).is_ok());
    assert!(matches!(check_size(9, limits), Err(BundleError::TooLarge(9))));
}

#[test]
fn the_limit_itself_is_allowed() {
    let zip = zip_with(&[("a", "12345"), ("b", "678")]);
    let exact = ExtractLimits { max_uncompressed_bytes: 8, ..ExtractLimits::default() };
    let items = extract_zip_with_limits(&zip, exact).expect("fits");
    assert_eq!(items.len(), 2);
    let small = ExtractLimits { max_uncompressed_bytes: 7, ..ExtractLimits::default() };
    assert!(matches!(
        extract_zip_with_limits(&zip, small),
        Err(BundleError::TooMuchData)
    ));
    let unlimited = ExtractLimits { max_uncompressed_bytes: u64::MAX, ..ExtractLimits::default() };
    assert!(extract_zip_with_limits(&zip, unlimited).is_ok());
}

#[test]
fn claimed_sizes_are_not_trusted() {
    // The size in the central directory of the only entry is made to lie.
    let mut zip = zip_with(&[("a", &"x".repeat(4096))]);
    let start = zip
        .windows(4)
        .rposition(|w| w == [0x50, 0x4b, 0x01, 0x02])
        .expect("central directory");
    zip[start + 24..start + 28].copy_from_slice(&1u32.to_le_bytes());
    let limits = ExtractLimits { max_uncompressed_bytes: 100, ..ExtractLimits::default() };
    assert!(extract_zip_with_limits(&zip, limits).is_err());
}

#[test]
fn entries_come_one_by_one() {
    let mut buf = std::io::Cursor::new(Vec::new());
    {
        let mut writer = zip::ZipWriter::new(&mut buf);
        let options = SimpleFileOptions::default();
        writer.add_directory("assets/", options).expect("directory");
        writer.start_file("assets/a.txt", options).expect("start file");
        writer.write_all(b"hello").expect("write");
        writer.finish().expect("finish zip");
    }
    let mut extraction =
        Extraction::open(buf.into_inner(), ExtractLimits::default()).expect("open");
    match extraction.next().expect("entry") {
        Some(Entry::Directory(path)) => assert_eq!(path, "assets"),
        other => panic!("expected a directory, got {other:?}"),
    }
    match extraction.next().expect("entry") {
        Some(Entry::File { path, name }) => {
            assert_eq!((path.as_str(), name.as_str()), ("assets/a.txt", "assets/a.txt"))
        }
        other => panic!("expected a file, got {other:?}"),
    }
    assert_eq!(extraction.contents().expect("contents"), b"hello");
    assert!(extraction.next().expect("end").is_none());
}

#[test]
fn corrupt_archives_are_refused() {
    assert!(matches!(extract_zip(b"PK\x03\x04 but no zip"), Err(BundleError::InvalidZip(_))));
    let mut zip = zip_with(&[("a.txt", "some contents that are checked")]);
    let at = zip.windows(5).position(|w| w == b"a.txt").expect("name") + 5;
    zip[at] ^= 0xff;
    assert!(matches!(extract_zip(&zip), Err(BundleError::Io(_))));
}

#[test]
fn missing_index_is_an_error() {
    let zip = zip_with(&[("iframe.html", "<html></html>")]);
    let items = extract_zip(&zip).expect("extract");
    let err = index(&items).expect_err("missing index");
    assert!(matches!(err, BundleError::IndexNotFound), "got {err:?}");
}

#[test]
fn docs_only_index_yields_no_stories() {
    let stories = parse_index(decode(
        r#"{"v":5,"entries":{"a--docs":{"type":"docs","title":"A","name":"Docs"}}}"#,
    ))
    .expect("parse");
    assert!(stories.is_empty());
}

#[test]
fn supports_v6_stories_key_without_type() {
    let stories = parse_index(decode(
        r#"{"v":3,"stories":{"a--b":{"id":"a--b","title":"A","name":"B","importPath":"./a.js"}}}"#,
    ))
    .expect("parse");
    assert_eq!(stories.len(), 1);
    assert_eq!(stories[0].screenshot_name(), "A/B");
}

#[test]
fn malformed_index_is_an_error() {
    assert!(matches!(
        parse_index(decode("not json")),
        Err(BundleError::InvalidIndex(_))
    ));
    assert!(matches!(
        parse_index(decode(r#"{"v":5}"#)),
        Err(BundleError::InvalidIndex(_))
    ));
}

#[test]
fn screenshot_name_joins_title_and_name() {
    let story = Story {
        id: "components-button--primary".into(),
        title: "Components/Button".into(),
        name: "Primary".into(),
    };
    assert_eq!(story.screenshot_name(), "Components/Button/Primary");
}

#[test]
fn stories_are_sorted_and_ties_keep_their_order() {
    let entry = |id: Option<&str>, title: &str, name: &str| IndexEntry {
        id: id.map(|s| s.to_string()),
        title: Some(title.to_string()),
        name: Some(name.to_string()),
        entry_type: None,
    };
    let incomplete = IndexEntry {
        id: None,
        title: Some("T".to_string()),
        name: None,
        entry_type: Some("story".to_string()),
    };
    let decoded = StorybookIndex {
        entries: Some(vec![
            ("k1".to_string(), entry(None, "b", "1")),
            ("k2".to_string(), entry(Some("x"), "B", "1")),
            ("k3".to_string(), entry(None, "b", "1")),
            ("k4".to_string(), entry(None, "a", "z")),
            ("k5".to_string(), incomplete),
            ("k6".to_string(), entry(None, "a", "zz")),
        ]),
        stories: Some(vec![]),
    };
    let ids: Vec<String> =
        parse_index(Ok(decoded)).expect("parse").into_iter().map(|s| s.id).collect();
    assert_eq!(ids, vec!["x", "k4", "k6", "k1", "k3"]);
    assert!(matches!(
        parse_index(Ok(StorybookIndex { entries: None, stories: None })),
        Err(BundleError::InvalidIndex(m)) if m == "no `entries` or `stories` key"
    ));
}

#[test]
fn the_first_directory_with_an_index_wins() {
    let directory = |name: &str, has_index: bool, has_stories: bool| Subdirectory {
        name: name.as_bytes().to_vec(),
        has_index,
        has_stories,
    };
    let list = vec![
        directory("c", true, false),
        directory("b", false, true),
        directory("a", false, false),
    ];
    assert_eq!(locate_index(false, false, &list).unwrap(), (Some(1), "stories.json"));
    assert_eq!(locate_index(true, true, &list).unwrap(), (None, "index.json"));
    assert_eq!(locate_index(false, true, &list).unwrap(), (None, "stories.json"));
    assert_eq!(index_file(false, false), None);
}

#[test]
fn bundle_errors_read_as_reported() {
    assert_eq!(
        BundleError::TooLarge(300_000_000).message(),
        "bundle is too large: 300000000 bytes (max 209715200)"
    );
    assert_eq!(
        BundleError::TooManyEntries.message(),
        "bundle has too many entries (max 20000)"
    );
    assert_eq!(
        BundleError::TooMuchData.message(),
        "bundle expands to more than 524288000 bytes"
    );
    assert_eq!(
        BundleError::UnsafePath("../x".to_string()).message(),
        "unsafe zip entry path: ../x"
    );
    assert_eq!(
        BundleError::Symlink("l".to_string()).message(),
        "symlinks are not allowed in a storybook bundle: l"
    );
    assert_eq!(BundleError::InvalidZip("z".to_string()).message(), "invalid zip archive: z");
    assert_eq!(
        BundleError::IndexNotFound.message(),
        "index.json not found in the bundle (expected at the archive root or one directory below)"
    );
    assert_eq!(
        BundleError::InvalidIndex("i".to_string()).message(),
        "invalid storybook index: i"
    );
    assert_eq!(BundleError::Io("o".to_string()).message(), "io error: o");
    assert_eq!(
        (MAX_BUNDLE_BYTES, MAX_ENTRIES, MAX_UNCOMPRESSED_BYTES),
        (200 * 1024 * 1024, 20_000, 500 * 1024 * 1024)
    );
}

#[test]
fn zip_validation_checks_magic_and_size() {
    assert!(validate_zip(b"PK\x03\x04rest of the archive").is_ok());
    assert!(validate_zip(b"not a zip at all").is_err());
    assert!(validate_zip(b"PK").is_err());
    assert!(validate_zip(&[]).is_err());
}

#[test]
fn oversized_bundles_are_refused_before_anything_else() {
    let bytes = vec![0u8; MAX_BUNDLE_BYTES + 1];
    assert!(matches!(validate_zip(&bytes), Err(AppError::ContentTooLarge)));
    assert!(matches!(
        validate_zip(b"PK\x03\x05"),
        Err(AppError::BadRequestDetail(m)) if m == "file is not a zip archive"
    ));
}

fn head(name: &str, unix_mode: Option<u32>, is_dir: bool, size: u64) -> Result<Head, String> {
    Ok(Head { name: name.to_string(), unix_mode, is_dir, size })
}

#[test]
fn entries_are_judged_by_their_heads() {
    let limits = ExtractLimits { max_bundle_bytes: 1, max_entries: 2, max_uncompressed_bytes: 10 };
    assert!(matches!(
        judge_head(head("./a//b.js", Some(0o100644), false, 4), limits, 6),
        Ok(Entry::File { path, name }) if path == "a/b.js" && name == "./a//b.js"
    ));
    assert!(matches!(
        judge_head(head("assets/", None, true, 99), limits, 10),
        Ok(Entry::Directory(path)) if path == "assets"
    ));
    assert!(matches!(
        judge_head(head("a", None, false, 5), limits, 6),
        Err(BundleError::TooMuchData)
    ));
    assert!(matches!(
        judge_head(head("a", None, false, u64::MAX), limits, 6),
        Err(BundleError::TooMuchData)
    ));
    // A link is refused before its path is looked at.
    assert!(matches!(
        judge_head(head("../a", Some(0o120777), false, 0), limits, 0),
        Err(BundleError::Symlink(name)) if name == "../a"
    ));
    assert!(matches!(
        judge_head(head("../a", None, true, 0), limits, 0),
        Err(BundleError::UnsafePath(name)) if name == "../a"
    ));
    assert!(matches!(
        judge_head(Err("odd".to_string()), limits, 0),
        Err(BundleError::InvalidZip(message)) if message == "odd"
    ));
    assert!(check_count(2, limits).is_ok());
    assert!(matches!(check_count(3, limits), Err(BundleError::TooManyEntries)));
}

#[test]
fn contents_are_judged_by_the_room_that_is_left() {
    assert_eq!(judge_contents(Ok(vec![1, 2]), 2).expect("fits"), vec![1, 2]);
    assert!(matches!(judge_contents(Ok(vec![1, 2]), 1), Err(BundleError::TooMuchData)));
    assert!(matches!(
        judge_contents(Err("checksum".to_string()), 1),
        Err(BundleError::Io(message)) if message == "checksum"
    ));
}

#[test]
fn bundles_are_described_by_their_directory_and_stories() {
    let entry = |title: &str, name: &str| IndexEntry {
        id: None,
        title: Some(title.to_string()),
        name: Some(name.to_string()),
        entry_type: None,
    };
    let index = StorybookIndex {
        entries: None,
        stories: Some(vec![
            ("b--x".to_string(), entry("B", "X")),
            ("a--y".to_string(), entry("A", "Y")),
        ]),
    };
    let bundle = index_bundle("storybook-static", Ok(index)).expect("described");
    assert_eq!(bundle.root, "storybook-static");
    let ids: Vec<&str> = bundle.stories.iter().map(|story| story.id.as_str()).collect();
    assert_eq!(ids, vec!["a--y", "b--x"]);
    assert!(matches!(
        index_bundle("", Err("eof".to_string())),
        Err(BundleError::InvalidIndex(message)) if message == "eof"
    ));
}

#[test]
fn files_hold_their_entries_whatever_the_limits() {
    let bytes = zip_with(&[("a.txt", "twelve bytes"), ("b/c.txt", "more")]);
    let limited = |max_uncompressed_bytes: u64| {
        let limits = ExtractLimits { max_bundle_bytes: 4096, max_entries: 2, max_uncompressed_bytes };
        extract_zip_with_limits(&bytes, limits)
    };
    for limit in [16, 17, 1_000_000] {
        let items = limited(limit).expect("unpacked");
        assert_eq!(items[0].contents.as_deref(), Some("twelve bytes".as_bytes()));
        assert_eq!(items[1].contents.as_deref(), Some("more".as_bytes()));
    }
    for limit in [0, 11, 12, 15] {
        assert!(matches!(limited(limit), Err(BundleError::TooMuchData)));
    }
}

#[test]
fn files_are_written_only_below_the_target() {
    let confirm = |parent: &str, root: &str| {
        confirm_parent(&parent.as_bytes().to_vec(), &root.as_bytes().to_vec(), "./a//b.js")
    };
    assert!(confirm("/t/a", "/t").is_ok());
    assert!(confirm("/t", "/t").is_ok());
    for parent in ["/", "/tx", "/etc", "t"] {
        assert!(matches!(
            confirm(parent, "/t"),
            Err(BundleError::UnsafePath(name)) if name == "./a//b.js"
        ));
    }
}
