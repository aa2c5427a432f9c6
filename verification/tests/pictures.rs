//! Content hashes, the validation of pictures, identifiers and keys.
use service::error::AppError;
use service::ids::{
    carry_forward_screenshot_id, diff_key, screenshot_key, storybook_key, Uuid,
};
use service::screenshots::{
    check_dimensions, content_hash, content_hashes_match, decode_rgba, encode_png, label_digest,
    validate_png,
    Picture, MAX_DIMENSION, MAX_UPLOAD_BYTES, PNG_MAGIC, PNG_MIME,
};

fn random() -> Uuid {
    Uuid { value: uuid::Uuid::new_v4().as_u128() }
}

fn plain(width: u32, height: u32, pixel: [u8; 4]) -> Picture {
    let mut pixels = Vec::new();
    for _ in 0..width * height {
        pixels.extend_from_slice(&pixel);
    }
    Picture { width, height, pixels }
}

fn png_bytes(width: u32, height: u32) -> Vec<u8> {
    encode_png(&plain(width, height, [1, 2, 3, 255])).expect("encode")
}

#[test]
fn accepts_valid_png() {
    let bytes = png_bytes(12, 7);
    assert_eq!(validate_png(&bytes).expect("valid"), (12, 7));
}

#[test]
fn rejects_non_png_magic() {
    let err = validate_png(b"GIF89a and some more bytes").unwrap_err();
    assert!(matches!(err, AppError::BadRequestDetail(_)));
}

#[test]
fn rejects_truncated_input() {
    assert!(validate_png(&[0x89, b'P']).is_err());
    assert!(validate_png(&[]).is_err());
}

#[test]
fn rejects_png_magic_with_corrupt_body() {
    let mut bytes = PNG_MAGIC.to_vec();
    bytes.extend_from_slice(&[0u8; 32]);
    assert!(validate_png(&bytes).is_err());
}

#[test]
fn rejects_oversized_payload() {
    let bytes = vec![0u8; MAX_UPLOAD_BYTES + 1];
    assert!(matches!(
        validate_png(&bytes).unwrap_err(),
        AppError::ContentTooLarge
    ));
}

#[test]
fn dimensions_are_judged() {
    assert_eq!(check_dimensions(Ok((1, MAX_DIMENSION))).expect("fits"), (1, 10_000));
    let refusal = |dimensions: Result<(u32, u32), String>| match check_dimensions(dimensions) {
        Err(AppError::BadRequestDetail(message)) => message,
        other => panic!("expected a refusal, got {other:?}"),
    };
    assert_eq!(refusal(Ok((0, 5))), "image dimensions must be positive");
    assert_eq!(refusal(Ok((5, 0))), "image dimensions must be positive");
    assert_eq!(
        refusal(Ok((10_001, 20))),
        "image is too large: 10001x20 (max 10000x10000)"
    );
    assert_eq!(refusal(Err("cut off".to_string())), "invalid PNG: cut off");
    assert_eq!(PNG_MIME, "image/png");
}

#[test]
fn identical_png_bytes_have_matching_content_hashes() {
    let bytes = png_bytes(2, 2);
    let hash = content_hash(&bytes);
    assert!(content_hashes_match(Some(&hash), Some(&hash)));
}

#[test]
fn one_byte_difference_requires_normal_comparison() {
    let bytes = png_bytes(2, 2);
    let mut different = bytes.to_vec();
    let last = different.last_mut().expect("encoded PNG is non-empty");
    *last ^= 1;
    assert!(!content_hashes_match(
        Some(&content_hash(&bytes)),
        Some(&content_hash(&different)),
    ));
}

#[test]
fn missing_or_unknown_hash_scheme_requires_normal_comparison() {
    let hash = content_hash(&png_bytes(2, 2));
    assert!(!content_hashes_match(None, Some(&hash)));
    assert!(!content_hashes_match(Some(&hash), None));
    assert!(!content_hashes_match(
        Some("sha999:abc"),
        Some("sha999:abc")
    ));
    assert!(!content_hashes_match(
        Some("sha256:abc"),
        Some("sha256:abc")
    ));
}

#[test]
fn content_hashes_are_sha_256_in_hexadecimal() {
    assert_eq!(
        content_hash(b"abc"),
        "sha256:ba7816bf8f01cfea414140de5dae2223b00361a396177a9cb410ff61f20015ad"
    );
    assert_eq!(
        content_hash(b""),
        "sha256:e3b0c44298fc1c149afbf4c8996fb92427ae41e4649b934ca495991b7852b855"
    );
    // Hexadecimal digits count in either case, but not as the same.
    let upper = format!("sha256:{}", "AB".repeat(32));
    let lower = format!("sha256:{}", "ab".repeat(32));
    assert!(content_hashes_match(Some(&upper), Some(&upper)));
    assert!(!content_hashes_match(Some(&upper), Some(&lower)));
    let odd = format!("sha256:{}g", "a".repeat(63));
    assert!(!content_hashes_match(Some(&odd), Some(&odd)));
}

#[test]
fn storage_keys_are_nested_and_distinct() {
    let tenant = random();
    let project = random();
    let build = random();
    let shot = random();
    let comparison = random();

    let shot_key = screenshot_key(tenant, project, build, shot);
    let diff = diff_key(tenant, project, build, comparison);

    assert!(shot_key.starts_with(&format!(
        "tenants/{}/projects/{}/builds/{}/",
        tenant.to_text(),
        project.to_text(),
        build.to_text()
    )));
    assert!(shot_key.ends_with(".png"));
    assert!(diff.contains("/diffs/"));
    assert_ne!(shot_key, diff);
    assert!(!shot_key.contains(".."));
    assert!(!shot_key.starts_with('/'));
}

#[test]
fn storybook_keys_live_under_the_build_prefix() {
    let tenant = random();
    let project = random();
    let build = random();
    let key = storybook_key(tenant, project, build);
    assert_eq!(
        key,
        format!(
            "tenants/{}/projects/{}/builds/{}/storybook.zip",
            tenant.to_text(),
            project.to_text(),
            build.to_text()
        )
    );
    assert!(!key.contains(".."));
    assert!(!key.starts_with('/'));
}

#[test]
fn identifiers_are_written_in_groups() {
    let id = Uuid { value: 0x6ba7b811_9dad_11d1_80b4_00c04fd430c8 };
    assert_eq!(id.to_text(), "6ba7b811-9dad-11d1-80b4-00c04fd430c8");
    assert_eq!(id.to_simple_text(), "6ba7b8119dad11d180b400c04fd430c8");
    assert_eq!(
        Uuid { value: 1 }.to_text(),
        "00000000-0000-0000-0000-000000000001"
    );
    assert_eq!(
        screenshot_key(id, id, id, Uuid { value: 1 }),
        "tenants/6ba7b811-9dad-11d1-80b4-00c04fd430c8/projects/6ba7b811-9dad-11d1-80b4-00c04fd430c8\
         /builds/6ba7b811-9dad-11d1-80b4-00c04fd430c8/00000000-0000-0000-0000-000000000001.png"
    );
}

#[test]
fn carry_forward_id_is_deterministic_per_build_and_name() {
    let build_a = random();
    let build_b = random();

    assert_eq!(
        carry_forward_screenshot_id(build_a, "home"),
        carry_forward_screenshot_id(build_a, "home"),
    );
    assert_ne!(
        carry_forward_screenshot_id(build_a, "home"),
        carry_forward_screenshot_id(build_a, "about"),
    );
    assert_ne!(
        carry_forward_screenshot_id(build_a, "home"),
        carry_forward_screenshot_id(build_b, "home"),
    );
}

#[test]
fn carry_forward_ids_are_derived_in_their_own_namespace() {
    let build = random();
    let namespace = uuid::Uuid::new_v5(&uuid::Uuid::NAMESPACE_URL, b"vrt:carry-forward");
    let expected =
        uuid::Uuid::new_v5(&namespace, format!("{}/home", build.to_text()).as_bytes());
    let id = carry_forward_screenshot_id(build, "home");
    assert_eq!(id.value, expected.as_u128());
    // The version tells it from a drawn identifier.
    assert_eq!((id.value >> 76) & 0xf, 5);
    assert_eq!((random().value >> 76) & 0xf, 4);
}

#[test]
fn png_roundtrips_through_encode() {
    let bytes = encode_png(&plain(3, 4, [9, 8, 7, 255])).expect("encode");
    assert_eq!(validate_png(&bytes).expect("valid"), (3, 4));
}

#[test]
fn pictures_are_read_back() {
    let picture = plain(2, 3, [10, 20, 30, 40]);
    let bytes = encode_png(&picture).expect("encode");
    let read = decode_rgba("k.png", &bytes).expect("decode");
    assert_eq!((read.width, read.height), (2, 3));
    assert_eq!(read.pixels, picture.pixels);
    let message = decode_rgba("k.png", b"no picture").expect_err("no PNG");
    assert!(message.starts_with("decode png k.png: "), "got {message:?}");
    let message = encode_png(&plain(0, 3, [0; 4])).expect_err("no pixels");
    assert!(message.starts_with("encode png: "), "got {message:?}");
}

#[test]
fn digests_are_labelled_with_their_scheme() {
    assert_eq!(label_digest(&[0x00, 0x9f, 0xff]), "sha256:009fff");
    assert_eq!(label_digest(&[]), "sha256:");
}
