//! Where objects are kept: errors, the choice of a backend, uploads to an
//! S3 compatible store and the move of local files to it.
pub mod migrate;
pub mod migrate_laws;
pub mod s3;
pub mod upload;

use vstd::prelude::*;
use vstd::string::*;

use crate::text::{decimal, same_text};

verus! {

/// A failure of the operating system.
#[derive(Debug)]
pub struct IoFault {
    /// Whether the file or directory does not exist.
    pub not_found: bool,
    pub message: String,
}

/// Why a storage operation failed.
#[derive(Debug)]
pub enum StorageError {
    Io(IoFault),
    SizeMismatch { expected: u64, actual: u64 },
    InvalidKey,
    Other(String),
}

/// A storage error, in the terms of the contracts.
pub enum StorageErrorView {
    Io { not_found: bool, message: Seq<char> },
    SizeMismatch { expected: u64, actual: u64 },
    InvalidKey,
    Other(Seq<char>),
}

impl View for StorageError {
    type V = StorageErrorView;

    open spec fn view(&self) -> StorageErrorView {
        match self {
            StorageError::Io(fault) => StorageErrorView::Io {
                not_found: fault.not_found,
                message: fault.message@,
            },
            StorageError::SizeMismatch { expected, actual } => StorageErrorView::SizeMismatch {
                expected: *expected,
                actual: *actual,
            },
            StorageError::InvalidKey => StorageErrorView::InvalidKey,
            StorageError::Other(message) => StorageErrorView::Other(message@),
        }
    }
}

impl StorageErrorView {
    /// The text in which the error is reported.
    pub open spec fn text(self) -> Seq<char> {
        match self {
            StorageErrorView::Io { not_found, message } => "IO error: "@ + message,
            StorageErrorView::SizeMismatch { expected, actual } =>
                "upload size mismatch: expected "@ + crate::text::decimal_text(expected as nat)
                    + ", wrote "@ + crate::text::decimal_text(actual as nat),
            StorageErrorView::InvalidKey => "invalid storage key"@,
            StorageErrorView::Other(message) => message,
        }
    }
}

impl StorageError {
    /// The text in which the error is reported.
    pub fn message(&self) -> (text: String)
        ensures
            text@ == self@.text(),
    {
        match self {
            StorageError::Io(fault) => {
                let mut text = "IO error: ".to_string();
                text.append(fault.message.as_str());
                text
            },
            StorageError::SizeMismatch { expected, actual } => {
                let mut text = "upload size mismatch: expected ".to_string();
                let shown = decimal(*expected);
                text.append(shown.as_str());
                text.append(", wrote ");
                let shown = decimal(*actual);
                text.append(shown.as_str());
                text
            },
            StorageError::InvalidKey => "invalid storage key".to_string(),
            StorageError::Other(message) => message.clone(),
        }
    }
}

/// Which backend keeps the objects.
#[derive(Debug)]
pub enum BackendChoice {
    /// A local directory.
    Local(String),
    /// An S3 compatible store.
    S3,
}

/// Chooses the backend from the settings `STORAGE_BACKEND` and
/// `LOCAL_UPLOAD_DIR`, each `None` where it is not set.
pub fn setup_storage(backend: Option<&str>, upload_dir: Option<&str>) -> (choice: Result<
    BackendChoice,
    StorageError,
>)
    ensures
        ({
            let named = match backend {
                Some(backend) => backend@,
                None => "local"@,
            };
            if named == "s3"@ {
                choice matches Ok(BackendChoice::S3)
            } else if named == "local"@ {
                choice matches Ok(BackendChoice::Local(directory)) && directory@ == (
                match upload_dir {
                    Some(directory) => directory@,
                    None => "./uploads"@,
                })
            } else {
                choice matches Err(error) && error@ == StorageErrorView::Other(
                    "invalid STORAGE_BACKEND: "@ + named + " (expected \"local\" or \"s3\")"@,
                )
            }
        }),
{
    let named = match backend {
        Some(backend) => backend,
        None => "local",
    };
    if same_text(named, "s3") {
        Ok(BackendChoice::S3)
    } else if same_text(named, "local") {
        let directory = match upload_dir {
            Some(directory) => directory.to_string(),
            None => "./uploads".to_string(),
        };
        Ok(BackendChoice::Local(directory))
    } else {
        let mut message = "invalid STORAGE_BACKEND: ".to_string();
        message.append(named);
        message.append(" (expected \"local\" or \"s3\")");
        Err(StorageError::Other(message))
    }
}

/// Every storage error is told in full: what the system or the store said, or
/// both sizes.
pub proof fn law_errors_are_told_in_full(not_found: bool, message: Seq<char>, a: u64, b: u64)
    ensures
        (StorageErrorView::Io { not_found, message }).text() == "IO error: "@ + message,
        StorageErrorView::Other(message).text() == message,
        StorageErrorView::InvalidKey.text() == "invalid storage key"@,
        ("upload size mismatch: expected "@ + crate::text::decimal_text(a as nat)).is_prefix_of(
            (StorageErrorView::SizeMismatch { expected: a, actual: b }).text(),
        ),
        (", wrote "@ + crate::text::decimal_text(b as nat)).is_suffix_of(
            (StorageErrorView::SizeMismatch { expected: a, actual: b }).text(),
        ),
{
    let text = (StorageErrorView::SizeMismatch { expected: a, actual: b }).text();
    let front = "upload size mismatch: expected "@ + crate::text::decimal_text(a as nat);
    let end = ", wrote "@ + crate::text::decimal_text(b as nat);
    assert(text =~= front + end);
    assert(text.subrange(0, front.len() as int) =~= front);
    assert(text.subrange(text.len() - end.len(), text.len() as int) =~= end);
}

} // verus!
