//! Serving an unpacked bundle.
use service::ids::Uuid;
use service::render::bundle::BundleError;
use service::render::cache::{
    confirm_asset, content_type_for, final_name, requested_path, resolve_asset, temporary_name,
    CacheEvent, CacheStage, Preparation, StorybookServeError,
};

#[test]
fn extracts_once_and_serves_index_and_nested_asset() {
    // The first request: nothing is there.
    let mut first = Preparation::begin();
    let course = [
        (CacheStage::Look, CacheEvent::Exists(false)),
        (CacheStage::Lock, CacheEvent::Done),
        (CacheStage::LookAgain, CacheEvent::Exists(false)),
        (CacheStage::Download, CacheEvent::Done),
        (CacheStage::MakeDirectory, CacheEvent::Done),
        (CacheStage::Extract, CacheEvent::Done),
        (CacheStage::Publish, CacheEvent::Done),
        (CacheStage::Clean, CacheEvent::Failed("gone".to_string())),
    ];
    for (stage, event) in course {
        assert_eq!(first.stage(), stage);
        first.step(event);
    }
    assert_eq!(first.stage(), CacheStage::Done);
    assert!(first.into_error().is_none());
    // The second one: the directory is there.
    let mut second = Preparation::begin();
    second.step(CacheEvent::Exists(true));
    assert_eq!(second.stage(), CacheStage::Done);
    assert!(second.into_error().is_none());

    let index = requested_path("");
    assert_eq!(index, "index.html");
    assert_eq!(content_type_for(&index), "text/html; charset=utf-8");
    let nested = requested_path("assets/app.js");
    assert_eq!(resolve_asset(&nested).expect("inside"), vec!["assets", "app.js"]);
    assert_eq!(content_type_for(&nested), "text/javascript; charset=utf-8");
}

#[test]
fn rejects_traversal_and_missing() {
    for bad in ["../../etc/passwd", "..", "a\\b", "a/../b"] {
        assert!(
            matches!(resolve_asset(&requested_path(bad)), Err(StorybookServeError::NotFound)),
            "{bad}"
        );
    }
    // Slashes in front are dropped; what is left does not exist in the bundle.
    assert_eq!(requested_path("/etc/passwd"), "etc/passwd");
    assert!(matches!(resolve_asset("/etc/passwd"), Err(StorybookServeError::NotFound)));
    let root = || Some(b"/cache/b".to_vec());
    assert!(confirm_asset(Some(b"/cache/b/a.js".to_vec()), root(), true).is_ok());
    for (actual, is_file) in [
        (None, true),
        (Some(b"/cache/b2/a.js".to_vec()), true),
        (Some(b"/etc/passwd".to_vec()), true),
        (Some(b"/cache/b/assets".to_vec()), false),
    ] {
        assert!(matches!(
            confirm_asset(actual, root(), is_file),
            Err(StorybookServeError::NotFound)
        ));
    }
    assert!(confirm_asset(Some(b"/cache/b/a.js".to_vec()), None, true).is_err());
}

#[test]
fn another_task_may_have_been_faster() {
    let mut waiting = Preparation::begin();
    waiting.step(CacheEvent::Exists(false));
    waiting.step(CacheEvent::Done);
    waiting.step(CacheEvent::Exists(true));
    assert_eq!(waiting.stage(), CacheStage::Done);
    assert!(waiting.into_error().is_none());
}

/// A preparation that waits for what becomes of unpacking.
fn unpacking() -> Preparation {
    let mut preparation = Preparation::begin();
    for event in [
        CacheEvent::Exists(false),
        CacheEvent::Done,
        CacheEvent::Exists(false),
        CacheEvent::Done,
        CacheEvent::Done,
    ] {
        preparation.step(event);
    }
    assert_eq!(preparation.stage(), CacheStage::Extract);
    preparation
}

#[test]
fn refused_bundles_are_discarded() {
    let mut preparation = unpacking();
    preparation.step(CacheEvent::Refused(BundleError::IndexNotFound));
    assert_eq!(preparation.stage(), CacheStage::Discard);
    preparation.step(CacheEvent::Done);
    assert_eq!(preparation.stage(), CacheStage::Done);
    assert!(matches!(
        preparation.into_error(),
        Some(StorybookServeError::Bundle(BundleError::IndexNotFound))
    ));
    let mut preparation = unpacking();
    preparation.step(CacheEvent::Failed("panicked".to_string()));
    assert_eq!(preparation.stage(), CacheStage::Discard);
    preparation.step(CacheEvent::Done);
    assert_eq!(
        preparation.into_error().expect("failed").message(),
        "storage error: extract task join: panicked"
    );
}

#[test]
fn a_lost_race_is_a_success() {
    for (exists, succeeds) in [(true, true), (false, false)] {
        let mut preparation = unpacking();
        preparation.step(CacheEvent::Done);
        preparation.step(CacheEvent::Failed("not empty".to_string()));
        assert_eq!(preparation.stage(), CacheStage::Clean);
        preparation.step(CacheEvent::Done);
        assert_eq!(preparation.stage(), CacheStage::LookOnceMore);
        preparation.step(CacheEvent::Exists(exists));
        let error = preparation.into_error();
        assert_eq!(error.is_none(), succeeds);
        if let Some(error) = error {
            assert_eq!(error.message(), "io error: not empty");
        }
    }
}

#[test]
fn early_failures_end_the_preparation() {
    let mut preparation = Preparation::begin();
    preparation.step(CacheEvent::Exists(false));
    preparation.step(CacheEvent::Done);
    preparation.step(CacheEvent::Exists(false));
    preparation.step(CacheEvent::Failed("read z: gone".to_string()));
    assert_eq!(
        preparation.into_error().expect("failed").message(),
        "storage error: read z: gone"
    );
    let mut preparation = Preparation::begin();
    for event in [
        CacheEvent::Exists(false),
        CacheEvent::Done,
        CacheEvent::Exists(false),
        CacheEvent::Done,
        CacheEvent::Failed("read-only".to_string()),
    ] {
        preparation.step(event);
    }
    assert_eq!(preparation.into_error().expect("failed").message(), "io error: read-only");
    assert_eq!(StorybookServeError::NotFound.message(), "storybook asset not found");
    assert_eq!(
        StorybookServeError::Bundle(BundleError::TooManyEntries).message(),
        "bundle extraction failed: bundle has too many entries (max 20000)"
    );
}

#[test]
fn content_types_follow_the_extension() {
    for (path, kind) in [
        ("a.html", "text/html; charset=utf-8"),
        ("a.HTM", "text/html; charset=utf-8"),
        ("a.mjs", "text/javascript; charset=utf-8"),
        ("a.cjs", "text/javascript; charset=utf-8"),
        ("a.css", "text/css; charset=utf-8"),
        ("a.json", "application/json; charset=utf-8"),
        ("a.js.map", "application/json; charset=utf-8"),
        ("a.svg", "image/svg+xml"),
        ("a.png", "image/png"),
        ("a.jpg", "image/jpeg"),
        ("a.jpeg", "image/jpeg"),
        ("a.gif", "image/gif"),
        ("a.webp", "image/webp"),
        ("a.avif", "image/avif"),
        ("a.ico", "image/x-icon"),
        ("a.wasm", "application/wasm"),
        ("a.woff", "font/woff"),
        ("a.woff2", "font/woff2"),
        ("a.ttf", "font/ttf"),
        ("a.otf", "font/otf"),
        ("a.eot", "application/vnd.ms-fontobject"),
        ("a.txt", "text/plain; charset=utf-8"),
        ("a.xml", "application/xml"),
        ("a.bin", "application/octet-stream"),
        ("a", "application/octet-stream"),
    ] {
        assert_eq!(content_type_for(path), kind, "{path}");
    }
}

#[test]
fn directories_are_named_after_builds() {
    let id = Uuid { value: 0xab };
    assert_eq!(final_name(id), "00000000-0000-0000-0000-0000000000ab");
    assert_eq!(temporary_name(id), ".tmp-000000000000000000000000000000ab");
}
