//! Rendering the stories of a bundle.
//!
//! A build can come with a built Storybook instead of screenshots. The bundle
//! is unpacked, served locally and opened in a headless browser, which takes
//! one picture of each story.
pub mod archive;
pub mod browser;
pub mod bundle;
pub mod bundle_laws;
pub mod cache;
pub mod index;
pub mod launch;
pub mod phase;
pub mod run;
pub mod run_laws;
pub mod run_progress;
pub mod verdict;

pub use crate::ids::storybook_key;

use vstd::prelude::*;
use vstd::string::*;

use crate::error::AppError;
use crate::render::bundle::MAX_BUNDLE_BYTES;

verus! {

/// The content type of a zip.
pub const ZIP_MIME: &'static str = "application/zip";

/// The bytes with which the first entry of a zip begins.
pub const ZIP_MAGIC: [u8; 4] = [0x50, 0x4b, 0x03, 0x04];

/// What an uploaded bundle is answered, if it is refused.
pub open spec fn zip_refusal(bytes: Seq<u8>) -> Option<crate::error::AppErrorView> {
    if bytes.len() > MAX_BUNDLE_BYTES {
        Some(crate::error::AppErrorView::ContentTooLarge)
    } else if !ZIP_MAGIC@.is_prefix_of(bytes) {
        Some(crate::error::AppErrorView::BadRequestDetail("file is not a zip archive"@))
    } else {
        None
    }
}

/// Refuses an uploaded bundle that is too large or no zip.
pub fn validate_zip(bytes: &[u8]) -> (outcome: Result<(), AppError>)
    ensures
        match outcome {
            Ok(()) => zip_refusal(bytes@) is None,
            Err(error) => zip_refusal(bytes@) == Some(error@),
        },
{
    if bytes.len() > MAX_BUNDLE_BYTES {
        return Err(AppError::ContentTooLarge);
    }
    let mut begins = bytes.len() >= 4;
    let mut i: usize = 0;
    while i < 4 && begins
        invariant
            i <= 4,
            begins ==> bytes@.len() >= 4 && forall|k: int| 0 <= k < i ==> bytes@[k] == ZIP_MAGIC@[k],
            !begins ==> !ZIP_MAGIC@.is_prefix_of(bytes@),
        decreases 4 - i,
    {
        if bytes[i] != ZIP_MAGIC[i] {
            assert(bytes@.subrange(0, 4)[i as int] == bytes@[i as int]);
            begins = false;
        }
        i += 1;
    }
    assert(begins ==> bytes@.subrange(0, 4) =~= ZIP_MAGIC@);
    if !begins {
        return Err(AppError::BadRequestDetail("file is not a zip archive".to_string()));
    }
    Ok(())
}

} // verus!
