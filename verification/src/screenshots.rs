//! Screenshots: content hashes, the validation of pictures and how they are
//! stored.
use vstd::prelude::*;
use vstd::slice::slice_to_vec;
use vstd::string::*;

use crate::error::AppError;
use crate::text::{chars_of, decimal, same_text, starts_with};

verus! {

/// The largest picture that can be uploaded, in bytes.
pub const MAX_UPLOAD_BYTES: usize = 26_214_400;

/// The largest width and height of a picture.
pub const MAX_DIMENSION: u32 = 10_000;

/// The bytes with which every PNG begins.
pub const PNG_MAGIC: [u8; 8] = [0x89, 0x50, 0x4e, 0x47, 0x0d, 0x0a, 0x1a, 0x0a];

/// The content type of a picture.
pub const PNG_MIME: &'static str = "image/png";

/// The name of the hash that is stored with a picture.
pub const CONTENT_HASH_SCHEME: &'static str = "sha256";

// ── content hashes ──────────────────────────────────────────────────────

/// The SHA-256 digest of bytes.
pub uninterp spec fn sha256(bytes: Seq<u8>) -> Seq<u8>;

/// `sha2::Sha256::digest`. The contract says that the digest is a function of
/// the bytes and has thirty-two bytes.
#[verifier::external_body]
fn digest(bytes: &[u8]) -> (digest: Vec<u8>)
    ensures
        digest@ == sha256(bytes@),
        digest@.len() == 32,
{
    <sha2::Sha256 as sha2::Digest>::digest(bytes).to_vec()
}

/// Bytes in lower-case hexadecimal, two digits each.
pub open spec fn hex(bytes: Seq<u8>) -> Seq<char>
    decreases bytes.len(),
{
    if bytes.len() == 0 {
        Seq::empty()
    } else {
        hex(bytes.drop_last()) + crate::ids::hex_text(bytes.last() as nat, 2)
    }
}

/// `hex::encode`: bytes in lower-case hexadecimal.
#[verifier::external_body]
fn encode_hex(bytes: &[u8]) -> (text: String)
    ensures
        text@ == hex(bytes@),
{
    hex::encode(bytes)
}

/// What every content hash begins with.
pub open spec fn scheme_prefix() -> Seq<char> {
    CONTENT_HASH_SCHEME@ + ":"@
}

/// The content hash of a picture with the given digest.
pub open spec fn hash_text(digest: Seq<u8>) -> Seq<char> {
    scheme_prefix() + hex(digest)
}

fn scheme_prefix_text() -> (text: String)
    ensures
        text@ == scheme_prefix(),
{
    let mut text = CONTENT_HASH_SCHEME.to_string();
    text.append(":");
    text
}

/// The content hash of a picture with the given digest.
pub fn label_digest(digest: &[u8]) -> (hash: String)
    ensures
        hash@ == hash_text(digest@),
{
    let mut hash = scheme_prefix_text();
    let text = encode_hex(digest);
    hash.append(text.as_str());
    hash
}

/// The content hash of a picture: of its bytes, not of its pixels, so that it
/// costs little and never takes two different files for one.
pub fn content_hash(bytes: &[u8]) -> (hash: String)
    ensures
        hash@ == hash_text(sha256(bytes@)),
        is_known_hash(hash@),
{
    let digest = digest(bytes);
    proof {
        law_hashes_match_as_digests_do(digest@, digest@);
    }
    label_digest(digest.as_slice())
}

/// A hexadecimal digit, in either case.
pub open spec fn is_hex_digit(c: char) -> bool {
    '0' <= c <= '9' || 'a' <= c <= 'f' || 'A' <= c <= 'F'
}

/// A content hash of the known scheme.
pub open spec fn is_known_hash(hash: Seq<char>) -> bool {
    &&& scheme_prefix().is_prefix_of(hash)
    &&& hash.len() == 71
    &&& forall|i: int| 7 <= i < 71 ==> is_hex_digit(#[trigger] hash[i])
}

fn known_hash(hash: &str) -> (known: bool)
    ensures
        known == is_known_hash(hash@),
{
    let prefix = scheme_prefix_text();
    if !starts_with(hash, prefix.as_str()) {
        return false;
    }
    let chars = chars_of(hash);
    if chars.len() != 71 {
        return false;
    }
    let mut i: usize = 7;
    while i < 71
        invariant
            7 <= i <= 71,
            chars@ == hash@,
            chars@.len() == 71,
            forall|k: int| 7 <= k < i ==> is_hex_digit(#[trigger] hash@[k]),
        decreases 71 - i,
    {
        let c = chars[i];
        if !(('0' <= c && c <= '9') || ('a' <= c && c <= 'f') || ('A' <= c && c <= 'F')) {
            assert(!is_hex_digit(hash@[i as int]));
            return false;
        }
        i += 1;
    }
    true
}

/// Whether two pictures need no comparison: both have a hash of the known
/// scheme, and it is the same.
pub fn content_hashes_match(left: Option<&str>, right: Option<&str>) -> (equal: bool)
    ensures
        equal == match (left, right) {
            (Some(a), Some(b)) => is_known_hash(a@) && is_known_hash(b@) && a@ == b@,
            _ => false,
        },
{
    match (left, right) {
        (Some(a), Some(b)) => known_hash(a) && known_hash(b) && same_text(a, b),
        _ => false,
    }
}

proof fn lemma_hex(bytes: Seq<u8>)
    ensures
        hex(bytes).len() == 2 * bytes.len(),
        forall|i: int| 0 <= i < hex(bytes).len() ==> is_hex_digit(#[trigger] hex(bytes)[i]),
    decreases bytes.len(),
{
    if bytes.len() > 0 {
        let front = hex(bytes.drop_last());
        let pair = crate::ids::hex_text(bytes.last() as nat, 2);
        lemma_hex(bytes.drop_last());
        reveal_with_fuel(crate::ids::hex_text, 3);
        assert(pair.len() == 2);
        assert forall|i: int| 0 <= i < hex(bytes).len() implies is_hex_digit(
            #[trigger] hex(bytes)[i],
        ) by {
            if i < front.len() {
                assert(hex(bytes)[i] == front[i]);
            } else {
                assert(hex(bytes)[i] == pair[i - front.len()]);
            }
        }
    }
}

proof fn lemma_hex_injective(a: Seq<u8>, b: Seq<u8>)
    requires
        hex(a) == hex(b),
    ensures
        a == b,
    decreases a.len(),
{
    lemma_hex(a);
    lemma_hex(b);
    assert(a.len() == b.len());
    if a.len() == 0 {
        assert(a =~= b);
    } else {
        reveal_with_fuel(crate::ids::hex_text, 3);
        let x = hex(a.drop_last());
        let y = hex(b.drop_last());
        let p = crate::ids::hex_text(a.last() as nat, 2);
        let q = crate::ids::hex_text(b.last() as nat, 2);
        lemma_hex(a.drop_last());
        lemma_hex(b.drop_last());
        assert(x.len() == y.len());
        assert(hex(a).take(x.len() as int) =~= x);
        assert(hex(b).take(y.len() as int) =~= y);
        assert(hex(a).skip(x.len() as int) =~= p);
        assert(hex(b).skip(y.len() as int) =~= q);
        assert(p[1] == crate::ids::hex_digit((a.last() as nat) % 16));
        assert(q[1] == crate::ids::hex_digit((b.last() as nat) % 16));
        assert(p[0] == crate::ids::hex_digit(((a.last() as nat) / 16) % 16));
        assert(q[0] == crate::ids::hex_digit(((b.last() as nat) / 16) % 16));
        lemma_hex_injective(a.drop_last(), b.drop_last());
        assert(a =~= a.drop_last().push(a.last()));
        assert(b =~= b.drop_last().push(b.last()));
    }
}

/// Content hashes match exactly where the digests are equal: a picture always
/// matches itself, and two pictures with different digests never match.
pub proof fn law_hashes_match_as_digests_do(a: Seq<u8>, b: Seq<u8>)
    requires
        a.len() == 32,
        b.len() == 32,
    ensures
        is_known_hash(hash_text(a)),
        hash_text(a) == hash_text(b) <==> a == b,
{
    reveal_strlit("sha256");
    reveal_strlit(":");
    lemma_hex(a);
    lemma_hex(b);
    let x = hash_text(a);
    let y = hash_text(b);
    assert(x.subrange(0, 7) =~= scheme_prefix());
    assert forall|i: int| 7 <= i < 71 implies is_hex_digit(#[trigger] x[i]) by {
        assert(x[i] == hex(a)[i - 7]);
    }
    if x == y {
        assert(x.skip(7) =~= hex(a));
        assert(y.skip(7) =~= hex(b));
        lemma_hex_injective(a, b);
    }
}

// ── pictures ────────────────────────────────────────────────────────────

/// What the head of a PNG says of its width and height, or the message of the
/// error for bytes that are no PNG.
pub uninterp spec fn png_dimensions(bytes: Seq<u8>) -> Result<(u32, u32), Seq<char>>;

/// `image::ImageReader::into_dimensions` for a PNG. The contract says that
/// the outcome is a function of the bytes.
#[verifier::external_body]
fn read_dimensions(bytes: &[u8]) -> (outcome: Result<(u32, u32), String>)
    ensures
        match outcome {
            Ok(dimensions) => png_dimensions(bytes@) == Ok::<(u32, u32), Seq<char>>(dimensions),
            Err(message) => png_dimensions(bytes@) == Err::<(u32, u32), Seq<char>>(message@),
        },
{
    image::ImageReader::with_format(std::io::Cursor::new(bytes), image::ImageFormat::Png)
        .into_dimensions()
        .map_err(|e| e.to_string())
}

/// What a picture with the given dimensions is answered.
pub open spec fn dimensions_outcome(dimensions: Result<(u32, u32), Seq<char>>) -> Result<
    (u32, u32),
    crate::error::AppErrorView,
> {
    match dimensions {
        Err(message) => Err(
            crate::error::AppErrorView::BadRequestDetail("invalid PNG: "@ + message),
        ),
        Ok((width, height)) => if width == 0 || height == 0 {
            Err(
                crate::error::AppErrorView::BadRequestDetail("image dimensions must be positive"@),
            )
        } else if width > MAX_DIMENSION || height > MAX_DIMENSION {
            Err(
                crate::error::AppErrorView::BadRequestDetail(
                    "image is too large: "@ + crate::text::decimal_text(width as nat) + "x"@
                        + crate::text::decimal_text(height as nat) + " (max "@
                        + crate::text::decimal_text(MAX_DIMENSION as nat) + "x"@
                        + crate::text::decimal_text(MAX_DIMENSION as nat) + ")"@,
                ),
            )
        } else {
            Ok((width, height))
        },
    }
}

/// What an uploaded picture is answered.
pub open spec fn png_outcome(bytes: Seq<u8>) -> Result<(u32, u32), crate::error::AppErrorView> {
    if bytes.len() > MAX_UPLOAD_BYTES {
        Err(crate::error::AppErrorView::ContentTooLarge)
    } else if !PNG_MAGIC@.is_prefix_of(bytes) {
        Err(crate::error::AppErrorView::BadRequestDetail("file is not a PNG"@))
    } else {
        dimensions_outcome(png_dimensions(bytes))
    }
}

/// An answer in plain values is the one stated.
pub open spec fn same_answer(
    outcome: Result<(u32, u32), AppError>,
    stated: Result<(u32, u32), crate::error::AppErrorView>,
) -> bool {
    match outcome {
        Ok(dimensions) => stated == Ok::<(u32, u32), crate::error::AppErrorView>(dimensions),
        Err(error) => stated == Err::<(u32, u32), crate::error::AppErrorView>(error@),
    }
}

/// Whether bytes begin as every PNG does.
fn begins_like_png(bytes: &[u8]) -> (begins: bool)
    ensures
        begins == PNG_MAGIC@.is_prefix_of(bytes@),
{
    if bytes.len() < 8 {
        return false;
    }
    let mut i: usize = 0;
    while i < 8
        invariant
            i <= 8 <= bytes.len(),
            forall|k: int| 0 <= k < i ==> bytes@[k] == PNG_MAGIC@[k],
        decreases 8 - i,
    {
        if bytes[i] != PNG_MAGIC[i] {
            assert(bytes@.subrange(0, 8)[i as int] == bytes@[i as int]);
            return false;
        }
        i += 1;
    }
    assert(bytes@.subrange(0, 8) =~= PNG_MAGIC@);
    true
}

/// Judges the dimensions that were read from the head of a picture.
pub fn check_dimensions(dimensions: Result<(u32, u32), String>) -> (outcome: Result<
    (u32, u32),
    AppError,
>)
    ensures
        same_answer(
            outcome,
            dimensions_outcome(
                match dimensions {
                    Ok(dimensions) => Ok(dimensions),
                    Err(message) => Err(message@),
                },
            ),
        ),
{
    let (width, height) = match dimensions {
        Ok(dimensions) => dimensions,
        Err(message) => {
            let mut text = "invalid PNG: ".to_string();
            text.append(message.as_str());
            return Err(AppError::BadRequestDetail(text));
        },
    };
    if width == 0 || height == 0 {
        return Err(AppError::BadRequestDetail("image dimensions must be positive".to_string()));
    }
    if width > MAX_DIMENSION || height > MAX_DIMENSION {
        let mut text = "image is too large: ".to_string();
        let shown = decimal(width as u64);
        text.append(shown.as_str());
        text.append("x");
        let shown = decimal(height as u64);
        text.append(shown.as_str());
        text.append(" (max ");
        let max = decimal(MAX_DIMENSION as u64);
        text.append(max.as_str());
        text.append("x");
        text.append(max.as_str());
        text.append(")");
        return Err(AppError::BadRequestDetail(text));
    }
    Ok((width, height))
}

/// The width and height of an uploaded picture. It is refused if it is too
/// large, no PNG, or has dimensions out of range.
pub fn validate_png(bytes: &[u8]) -> (outcome: Result<(u32, u32), AppError>)
    ensures
        same_answer(outcome, png_outcome(bytes@)),
        match outcome {
            Ok(dimensions) => png_outcome(bytes@) == Ok::<(u32, u32), crate::error::AppErrorView>(
                dimensions,
            ),
            Err(error) => png_outcome(bytes@) == Err::<(u32, u32), crate::error::AppErrorView>(
                error@,
            ),
        },
{
    if bytes.len() > MAX_UPLOAD_BYTES {
        return Err(AppError::ContentTooLarge);
    }
    if !begins_like_png(bytes) {
        return Err(AppError::BadRequestDetail("file is not a PNG".to_string()));
    }
    check_dimensions(read_dimensions(bytes))
}

/// A picture as rows of pixels, each of them four bytes: red, green, blue and
/// opacity.
#[derive(Debug)]
pub struct Picture {
    pub width: u32,
    pub height: u32,
    pub pixels: Vec<u8>,
}

impl Picture {
    /// There are as many pixels as width and height say.
    pub open spec fn well_formed(self) -> bool {
        self.pixels@.len() == 4 * self.width * self.height
    }
}

/// The pixels that `image` finds in a PNG, with their width and height; or
/// the message of its error.
pub uninterp spec fn png_pixels(bytes: Seq<u8>) -> Result<(u32, u32, Seq<u8>), Seq<char>>;

/// What `image` makes of pixels that are written as a PNG: the bytes, or the
/// message of its error.
pub uninterp spec fn png_encoding(width: u32, height: u32, pixels: Seq<u8>) -> Result<
    Seq<u8>,
    Seq<char>,
>;

/// Dimensions that an uploaded picture may have.
pub open spec fn in_range(width: u32, height: u32) -> bool {
    1 <= width <= MAX_DIMENSION && 1 <= height <= MAX_DIMENSION
}

/// `image::RgbaImage::from_raw`, which takes pixels that fill the picture, and
/// `write_to` for a PNG. The contract says that the outcome is a function of
/// the picture; that a picture without pixels is refused and one with
/// dimensions in range is written; and that the bytes of the latter begin as
/// every PNG does, that their head gives the dimensions back, and, as PNG
/// loses nothing, that reading them gives the pixels back.
#[verifier::external_body]
fn write_png(width: u32, height: u32, pixels: Vec<u8>) -> (outcome: Result<Vec<u8>, String>)
    requires
        pixels@.len() == 4 * width * height,
    ensures
        match outcome {
            Ok(bytes) => {
                &&& png_encoding(width, height, pixels@) == Ok::<Seq<u8>, Seq<char>>(bytes@)
                &&& width > 0 && height > 0
                &&& in_range(width, height) ==> {
                    &&& PNG_MAGIC@.is_prefix_of(bytes@)
                    &&& png_dimensions(bytes@) == Ok::<(u32, u32), Seq<char>>((width, height))
                    &&& png_pixels(bytes@) == Ok::<(u32, u32, Seq<u8>), Seq<char>>(
                        (width, height, pixels@),
                    )
                }
            },
            Err(message) => {
                &&& png_encoding(width, height, pixels@) == Err::<Seq<u8>, Seq<char>>(message@)
                &&& !in_range(width, height)
            },
        },
{
    let mut bytes = std::io::Cursor::new(Vec::new());
    let image = image::RgbaImage::from_raw(width, height, pixels).unwrap_or_default();
    image.write_to(&mut bytes, image::ImageFormat::Png).map_err(|e| e.to_string())?;
    Ok(bytes.into_inner())
}

/// Writes a picture as a PNG. One with dimensions in range is always written,
/// is accepted when it is uploaded, unless the file is too large, and reads
/// back as the same pixels; one without pixels is refused.
pub fn encode_png(picture: &Picture) -> (outcome: Result<Vec<u8>, String>)
    requires
        picture.well_formed(),
    ensures
        match outcome {
            Ok(bytes) => {
                &&& png_encoding(picture.width, picture.height, picture.pixels@) == Ok::<
                    Seq<u8>,
                    Seq<char>,
                >(bytes@)
                &&& picture.width > 0 && picture.height > 0
                &&& in_range(picture.width, picture.height) && bytes@.len() <= MAX_UPLOAD_BYTES
                    ==> png_outcome(bytes@) == Ok::<(u32, u32), crate::error::AppErrorView>(
                    (picture.width, picture.height),
                )
                &&& in_range(picture.width, picture.height) ==> png_pixels(bytes@) == Ok::<
                    (u32, u32, Seq<u8>),
                    Seq<char>,
                >((picture.width, picture.height, picture.pixels@))
            },
            Err(text) => {
                &&& png_encoding(picture.width, picture.height, picture.pixels@) matches Err(
                    message,
                )
                &&& text@ == "encode png: "@ + message
                &&& !in_range(picture.width, picture.height)
            },
        },
{
    match write_png(picture.width, picture.height, slice_to_vec(picture.pixels.as_slice())) {
        Ok(bytes) => Ok(bytes),
        Err(message) => {
            let mut text = "encode png: ".to_string();
            text.append(message.as_str());
            Err(text)
        },
    }
}

/// `image::ImageReader::decode` for a PNG, then `DynamicImage::to_rgba8`. The
/// contract says that the outcome is a function of the bytes and that there
/// are four bytes to every pixel.
#[verifier::external_body]
fn read_pixels(bytes: &[u8]) -> (outcome: Result<Picture, String>)
    ensures
        match outcome {
            Ok(picture) => picture.well_formed() && png_pixels(bytes@) == Ok::<
                (u32, u32, Seq<u8>),
                Seq<char>,
            >((picture.width, picture.height, picture.pixels@)),
            Err(message) => png_pixels(bytes@) == Err::<(u32, u32, Seq<u8>), Seq<char>>(message@),
        },
{
    let reader = std::io::Cursor::new(bytes);
    let image = image::ImageReader::with_format(reader, image::ImageFormat::Png)
        .decode()
        .map_err(|e| e.to_string())?
        .to_rgba8();
    Ok(Picture { width: image.width(), height: image.height(), pixels: image.into_raw() })
}

/// Reads the picture in the object with the given key.
pub fn decode_rgba(key: &str, bytes: &[u8]) -> (outcome: Result<Picture, String>)
    ensures
        match outcome {
            Ok(picture) => picture.well_formed() && png_pixels(bytes@) == Ok::<
                (u32, u32, Seq<u8>),
                Seq<char>,
            >((picture.width, picture.height, picture.pixels@)),
            Err(text) => png_pixels(bytes@) matches Err(message) && text@ == "decode png "@ + key@
                + ": "@ + message,
        },
{
    match read_pixels(bytes) {
        Ok(picture) => Ok(picture),
        Err(message) => {
            let mut text = "decode png ".to_string();
            text.append(key);
            text.append(": ");
            text.append(message.as_str());
            Err(text)
        },
    }
}

// ── what holds of pictures ──────────────────────────────────────────────

/// A picture is accepted exactly if it has at most 25 MiB, begins as every PNG
/// does, and is between one and ten thousand pixels wide and high; its
/// dimensions are then those that it states.
pub proof fn law_accepted_pictures(bytes: Seq<u8>, width: u32, height: u32)
    ensures
        png_outcome(bytes) == Ok::<(u32, u32), crate::error::AppErrorView>((width, height)) <==> {
            &&& bytes.len() <= 26_214_400
            &&& seq![0x89u8, 0x50, 0x4e, 0x47, 0x0d, 0x0a, 0x1a, 0x0a].is_prefix_of(bytes)
            &&& png_dimensions(bytes) == Ok::<(u32, u32), Seq<char>>((width, height))
            &&& 1 <= width <= 10_000
            &&& 1 <= height <= 10_000
        },
{
    assert(PNG_MAGIC@ =~= seq![0x89u8, 0x50, 0x4e, 0x47, 0x0d, 0x0a, 0x1a, 0x0a]);
}

/// What a refused picture is answered: that it is too large, before anything
/// else is looked at; that it is no PNG; what the reader found wrong; or what
/// is wrong with its dimensions.
pub proof fn law_refused_pictures(bytes: Seq<u8>)
    ensures
        png_outcome(bytes) matches Err(answer) ==> {
            if bytes.len() > 26_214_400 {
                answer == crate::error::AppErrorView::ContentTooLarge
            } else if !seq![0x89u8, 0x50, 0x4e, 0x47, 0x0d, 0x0a, 0x1a, 0x0a].is_prefix_of(bytes) {
                answer == crate::error::AppErrorView::BadRequestDetail("file is not a PNG"@)
            } else {
                match png_dimensions(bytes) {
                    Err(message) => answer == crate::error::AppErrorView::BadRequestDetail(
                        "invalid PNG: "@ + message,
                    ),
                    Ok((width, height)) => {
                        &&& answer is BadRequestDetail
                        &&& answer == crate::error::AppErrorView::BadRequestDetail(
                            "image dimensions must be positive"@,
                        ) <== width == 0 || height == 0
                        &&& width > 10_000 || height > 10_000 || width == 0 || height == 0
                    },
                }
            }
        },
{
    assert(PNG_MAGIC@ =~= seq![0x89u8, 0x50, 0x4e, 0x47, 0x0d, 0x0a, 0x1a, 0x0a]);
}

/// A content hash is known exactly if it is `sha256:` and sixty-four
/// hexadecimal digits, in either case.
pub proof fn law_known_hashes(digits: Seq<char>)
    ensures
        is_known_hash("sha256:"@ + digits) <==> digits.len() == 64 && forall|i: int|
            0 <= i < digits.len() ==> ('0' <= #[trigger] digits[i] <= '9' || 'a' <= digits[i] <= 'f'
                || 'A' <= digits[i] <= 'F'),
{
    reveal_strlit("sha256");
    reveal_strlit(":");
    reveal_strlit("sha256:");
    let hash = "sha256:"@ + digits;
    assert("sha256:"@ =~= "sha256"@ + ":"@);
    assert(hash.subrange(0, 7) =~= "sha256:"@);
    if digits.len() == 64 {
        assert forall|i: int| 0 <= i < 64 implies #[trigger] digits[i] == hash[i + 7] by {}
        assert forall|i: int| 7 <= i < 71 implies #[trigger] hash[i] == digits[i - 7] by {}
        if is_known_hash(hash) {
            assert forall|i: int| 0 <= i < digits.len() implies ('0' <= #[trigger] digits[i] <= '9'
                || 'a' <= digits[i] <= 'f' || 'A' <= digits[i] <= 'F') by {
                assert(is_hex_digit(hash[i + 7]));
            }
        }
    }
}

/// A known content hash begins with `sha256:`.
pub proof fn law_known_hashes_name_their_scheme(hash: Seq<char>)
    requires
        is_known_hash(hash),
    ensures
        "sha256:"@.is_prefix_of(hash),
        hash.len() == 71,
{
    reveal_strlit("sha256");
    reveal_strlit(":");
    reveal_strlit("sha256:");
    assert("sha256:"@ =~= "sha256"@ + ":"@);
}

/// The digits of bytes are those of the first part and those of the rest; one
/// byte has two digits, which stand for it.
pub proof fn law_digits_are_bytewise(a: Seq<u8>, b: Seq<u8>, byte: u8)
    ensures
        hex(a + b) == hex(a) + hex(b),
        hex(seq![byte]).len() == 2,
        crate::ids::hex_value(hex(seq![byte])) == byte,
    decreases b.len(),
{
    if b.len() == 0 {
        assert(a + b =~= a);
        assert(hex(a) + hex(b) =~= hex(a));
    } else {
        law_digits_are_bytewise(a, b.drop_last(), byte);
        assert((a + b).drop_last() =~= a + b.drop_last());
        assert(hex(a + b) =~= hex(a) + hex(b));
    }
    reveal_with_fuel(hex, 2);
    reveal_with_fuel(crate::ids::hex_text, 3);
    reveal_with_fuel(crate::ids::hex_value, 3);
    assert(seq![byte].drop_last() =~= Seq::<u8>::empty());
    let pair = crate::ids::hex_text(byte as nat, 2);
    assert(hex(seq![byte]) =~= pair);
    let high = crate::ids::hex_digit((byte as nat / 16) % 16);
    let low = crate::ids::hex_digit(byte as nat % 16);
    assert(pair =~= seq![high, low]);
    assert(pair.drop_last() =~= seq![high]);
    assert(seq![high].drop_last() =~= Seq::<char>::empty());
}

} // verus!
