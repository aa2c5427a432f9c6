//! Storybook bundles: unpacking an uploaded zip.
//!
//! A zip comes from outside and is not trusted. An entry whose path leads out
//! of the target directory is refused, and so is a symbolic link; the number
//! of entries and the unpacked size are limited.
use vstd::prelude::*;
use vstd::slice::slice_to_vec;
use vstd::string::*;

use crate::os_path::lies_below;
use crate::paths::{contains_char, goes_up, path_is_absolute, path_parts, push_names};
use crate::render::archive::{Head, archive_len, entry_head, open_archive, read_entry};
use crate::text::{chars_of, decimal};

verus! {

/// The largest zip that can be uploaded, in bytes.
pub const MAX_BUNDLE_BYTES: usize = 209_715_200;

/// The largest number of entries in a zip.
pub const MAX_ENTRIES: usize = 20_000;

/// The largest size of all unpacked files, in bytes.
pub const MAX_UNCOMPRESSED_BYTES: u64 = 524_288_000;

/// The limits that unpacking observes.
#[derive(Debug, Clone, Copy)]
pub struct ExtractLimits {
    pub max_bundle_bytes: usize,
    pub max_entries: usize,
    pub max_uncompressed_bytes: u64,
}

/// The limits for uploaded bundles.
pub open spec fn standard_limits() -> ExtractLimits {
    ExtractLimits {
        max_bundle_bytes: MAX_BUNDLE_BYTES,
        max_entries: MAX_ENTRIES,
        max_uncompressed_bytes: MAX_UNCOMPRESSED_BYTES,
    }
}

impl Default for ExtractLimits {
    fn default() -> (limits: Self)
        ensures
            limits == standard_limits(),
    {
        ExtractLimits {
            max_bundle_bytes: MAX_BUNDLE_BYTES,
            max_entries: MAX_ENTRIES,
            max_uncompressed_bytes: MAX_UNCOMPRESSED_BYTES,
        }
    }
}

/// Why a bundle is refused.
#[derive(Debug)]
pub enum BundleError {
    TooLarge(usize),
    TooManyEntries,
    TooMuchData,
    UnsafePath(String),
    Symlink(String),
    InvalidZip(String),
    IndexNotFound,
    InvalidIndex(String),
    Io(String),
}

/// A bundle error, in the terms of the contracts.
pub enum BundleErrorView {
    TooLarge(usize),
    TooManyEntries,
    TooMuchData,
    UnsafePath(Seq<char>),
    Symlink(Seq<char>),
    InvalidZip(Seq<char>),
    IndexNotFound,
    InvalidIndex(Seq<char>),
    Io(Seq<char>),
}

impl View for BundleError {
    type V = BundleErrorView;

    open spec fn view(&self) -> BundleErrorView {
        match self {
            BundleError::TooLarge(size) => BundleErrorView::TooLarge(*size),
            BundleError::TooManyEntries => BundleErrorView::TooManyEntries,
            BundleError::TooMuchData => BundleErrorView::TooMuchData,
            BundleError::UnsafePath(name) => BundleErrorView::UnsafePath(name@),
            BundleError::Symlink(name) => BundleErrorView::Symlink(name@),
            BundleError::InvalidZip(detail) => BundleErrorView::InvalidZip(detail@),
            BundleError::IndexNotFound => BundleErrorView::IndexNotFound,
            BundleError::InvalidIndex(detail) => BundleErrorView::InvalidIndex(detail@),
            BundleError::Io(detail) => BundleErrorView::Io(detail@),
        }
    }
}

impl BundleErrorView {
    /// The text in which the error is reported.
    pub open spec fn text(self) -> Seq<char> {
        match self {
            BundleErrorView::TooLarge(size) => "bundle is too large: "@
                + crate::text::decimal_text(size as nat) + " bytes (max "@
                + crate::text::decimal_text(MAX_BUNDLE_BYTES as nat) + ")"@,
            BundleErrorView::TooManyEntries => "bundle has too many entries (max "@
                + crate::text::decimal_text(MAX_ENTRIES as nat) + ")"@,
            BundleErrorView::TooMuchData => "bundle expands to more than "@
                + crate::text::decimal_text(MAX_UNCOMPRESSED_BYTES as nat) + " bytes"@,
            BundleErrorView::UnsafePath(name) => "unsafe zip entry path: "@ + name,
            BundleErrorView::Symlink(name) =>
                "symlinks are not allowed in a storybook bundle: "@ + name,
            BundleErrorView::InvalidZip(detail) => "invalid zip archive: "@ + detail,
            BundleErrorView::IndexNotFound =>
                "index.json not found in the bundle (expected at the archive root or one directory below)"@,
            BundleErrorView::InvalidIndex(detail) => "invalid storybook index: "@ + detail,
            BundleErrorView::Io(detail) => "io error: "@ + detail,
        }
    }
}

impl BundleError {
    /// The text in which the error is reported.
    pub fn message(&self) -> (text: String)
        ensures
            text@ == self@.text(),
    {
        match self {
            BundleError::TooLarge(size) => {
                let mut text = "bundle is too large: ".to_string();
                let shown = decimal(*size as u64);
                text.append(shown.as_str());
                text.append(" bytes (max ");
                let max = decimal(MAX_BUNDLE_BYTES as u64);
                text.append(max.as_str());
                text.append(")");
                text
            },
            BundleError::TooManyEntries => {
                let mut text = "bundle has too many entries (max ".to_string();
                let max = decimal(MAX_ENTRIES as u64);
                text.append(max.as_str());
                text.append(")");
                text
            },
            BundleError::TooMuchData => {
                let mut text = "bundle expands to more than ".to_string();
                let max = decimal(MAX_UNCOMPRESSED_BYTES);
                text.append(max.as_str());
                text.append(" bytes");
                text
            },
            BundleError::UnsafePath(name) => {
                let mut text = "unsafe zip entry path: ".to_string();
                text.append(name.as_str());
                text
            },
            BundleError::Symlink(name) => {
                let mut text = "symlinks are not allowed in a storybook bundle: ".to_string();
                text.append(name.as_str());
                text
            },
            BundleError::InvalidZip(detail) => {
                let mut text = "invalid zip archive: ".to_string();
                text.append(detail.as_str());
                text
            },
            BundleError::IndexNotFound =>
                "index.json not found in the bundle (expected at the archive root or one directory below)".to_string(),
            BundleError::InvalidIndex(detail) => {
                let mut text = "invalid storybook index: ".to_string();
                text.append(detail.as_str());
                text
            },
            BundleError::Io(detail) => {
                let mut text = "io error: ".to_string();
                text.append(detail.as_str());
                text
            },
        }
    }
}

// ── where an entry goes ─────────────────────────────────────────────────

/// Whether a name starts like a path on a Windows drive: a letter and a
/// colon.
pub open spec fn names_a_drive(name: Seq<char>) -> bool {
    &&& name.len() >= 2
    &&& name[1] == ':'
    &&& ('a' <= name[0] <= 'z' || 'A' <= name[0] <= 'Z')
}

/// Whether the name of an entry is a path below the target directory.
pub open spec fn is_safe(name: Seq<char>) -> bool {
    &&& !name.contains('\\')
    &&& !names_a_drive(name)
    &&& crate::paths::stays_below(name)
    &&& crate::paths::parts(name).len() > 0
}

/// Where an entry goes.
pub open spec fn target(root: Seq<char>, name: Seq<char>) -> Seq<char> {
    crate::paths::extended(root, crate::paths::parts(name))
}

fn is_drive_name(name: &str) -> (drive: bool)
    ensures
        drive == names_a_drive(name@),
{
    let chars = chars_of(name);
    chars.len() >= 2 && chars[1] == ':' && (('a' <= chars[0] && chars[0] <= 'z') || ('A' <= chars[0]
        && chars[0] <= 'Z'))
}

/// The path of an entry below `dest_root`. A name that leads out of it, or to
/// it, is refused.
pub fn safe_join(dest_root: &str, name: &str) -> (outcome: Result<String, BundleError>)
    ensures
        match outcome {
            Ok(path) => is_safe(name@) && path@ == target(dest_root@, name@),
            Err(error) => !is_safe(name@) && error@ == BundleErrorView::UnsafePath(name@),
        },
{
    let names = path_parts(name);
    assert(forall|i: int|
        0 <= i < names@.len() ==> #[trigger] crate::text::views(names@)[i] == names@[i]@);
    if contains_char(name, '\\') || is_drive_name(name) || path_is_absolute(name) || goes_up(&names)
        || names.len() == 0 {
        return Err(BundleError::UnsafePath(name.to_string()));
    }
    Ok(push_names(dest_root, &names))
}

/// An unpacked file or directory never leaves the target directory: its path
/// begins with the target's, and what it adds are names without `..`.
pub proof fn law_targets_stay_inside(root: Seq<char>, name: Seq<char>)
    requires
        is_safe(name),
    ensures
        root.is_prefix_of(target(root, name)),
        crate::paths::parts(target(root, name)) == crate::paths::parts(root) + crate::paths::parts(
            name,
        ),
        forall|i: int|
            0 <= i < crate::paths::parts(name).len() ==> #[trigger] crate::paths::parts(name)[i]
                != ".."@,
{
    crate::paths::law_parts_are_names(name);
    crate::paths::law_names_lead_inside(root, crate::paths::parts(name));
}

// ── unpacking ───────────────────────────────────────────────────────────

/// Whether a Unix mode is that of a symbolic link.
pub open spec fn is_symlink(mode: Option<u32>) -> bool {
    match mode {
        Some(mode) => mode & 0o170000 == 0o120000,
        None => false,
    }
}

/// The sum of two sizes, at most the largest number.
pub open spec fn saturated_sum(a: u64, b: u64) -> u64 {
    if a + b > u64::MAX {
        u64::MAX
    } else {
        (a + b) as u64
    }
}

/// An entry that is to be unpacked, by its path below the target directory. A
/// file also keeps the name that it has in the archive.
#[derive(Debug)]
pub enum Entry {
    Directory(String),
    File { path: String, name: String },
}

/// An entry that is to be unpacked, in the terms of the contracts.
pub enum EntryView {
    Directory(Seq<char>),
    File { path: Seq<char>, name: Seq<char> },
}

impl View for Entry {
    type V = EntryView;

    open spec fn view(&self) -> EntryView {
        match self {
            Entry::Directory(path) => EntryView::Directory(path@),
            Entry::File { path, name } => EntryView::File { path: path@, name: name@ },
        }
    }
}

/// What becomes of an entry after `written` bytes have been unpacked, as far
/// as its head tells.
pub open spec fn head_outcome(
    head: Result<crate::render::archive::HeadView, Seq<char>>,
    limits: ExtractLimits,
    written: u64,
) -> Result<EntryView, BundleErrorView> {
    match head {
        Err(message) => Err(BundleErrorView::InvalidZip(message)),
        Ok(head) => if is_symlink(head.unix_mode) {
            Err(BundleErrorView::Symlink(head.name))
        } else if !is_safe(head.name) {
            Err(BundleErrorView::UnsafePath(head.name))
        } else if head.is_dir {
            Ok(EntryView::Directory(target(Seq::empty(), head.name)))
        } else if saturated_sum(written, head.size) > limits.max_uncompressed_bytes {
            Err(BundleErrorView::TooMuchData)
        } else {
            Ok(EntryView::File { path: target(Seq::empty(), head.name), name: head.name })
        },
    }
}

/// How much of a file is read where there is room for `room` bytes: one byte
/// more, to see whether there is one.
pub open spec fn reading_limit(room: u64) -> u64 {
    saturated_sum(room, 1)
}

/// What becomes of the contents of a file, of which `room` bytes may be
/// unpacked.
pub open spec fn data_outcome(data: Result<Seq<u8>, Seq<char>>, room: u64) -> Result<
    Seq<u8>,
    BundleErrorView,
> {
    match data {
        Err(message) => Err(BundleErrorView::Io(message)),
        Ok(data) => if data.len() > room {
            Err(BundleErrorView::TooMuchData)
        } else {
            Ok(data)
        },
    }
}

/// What becomes of bytes that are to be unpacked, before the first entry.
pub open spec fn open_outcome(bytes: Seq<u8>, limits: ExtractLimits) -> Result<
    Seq<Result<crate::render::archive::HeadView, Seq<char>>>,
    BundleErrorView,
> {
    if bytes.len() > limits.max_bundle_bytes {
        Err(BundleErrorView::TooLarge(bytes.len() as usize))
    } else {
        match crate::render::archive::zip_entries(bytes) {
            Err(message) => Err(BundleErrorView::InvalidZip(message)),
            Ok(entries) => if entries.len() > limits.max_entries {
                Err(BundleErrorView::TooManyEntries)
            } else {
                Ok(entries)
            },
        }
    }
}

/// Refuses a zip that is larger than the limit.
pub fn check_size(size: usize, limits: ExtractLimits) -> (outcome: Result<(), BundleError>)
    ensures
        match outcome {
            Ok(()) => size <= limits.max_bundle_bytes,
            Err(error) => size > limits.max_bundle_bytes && error@ == BundleErrorView::TooLarge(
                size,
            ),
        },
{
    if size > limits.max_bundle_bytes {
        return Err(BundleError::TooLarge(size));
    }
    Ok(())
}

/// Refuses a zip with more entries than the limit.
pub fn check_count(count: usize, limits: ExtractLimits) -> (outcome: Result<(), BundleError>)
    ensures
        match outcome {
            Ok(()) => count <= limits.max_entries,
            Err(error) => count > limits.max_entries && error@ == BundleErrorView::TooManyEntries,
        },
{
    if count > limits.max_entries {
        return Err(BundleError::TooManyEntries);
    }
    Ok(())
}

/// Judges an entry by its head, after `written` bytes have been unpacked.
pub fn judge_head(head: Result<Head, String>, limits: ExtractLimits, written: u64) -> (outcome:
    Result<Entry, BundleError>)
    ensures
        match outcome {
            Ok(entry) => head_outcome(crate::render::archive::head_view(head), limits, written)
                == Ok::<EntryView, BundleErrorView>(entry@),
            Err(error) => head_outcome(crate::render::archive::head_view(head), limits, written)
                == Err::<EntryView, BundleErrorView>(error@),
        },
{
    let head = match head {
        Ok(head) => head,
        Err(message) => {
            return Err(BundleError::InvalidZip(message));
        },
    };
    if let Some(mode) = head.unix_mode {
        if mode & 0o170000 == 0o120000 {
            return Err(BundleError::Symlink(head.name));
        }
    }
    proof {
        reveal_strlit("");
        assert(""@ =~= Seq::<char>::empty());
    }
    let path = match safe_join("", head.name.as_str()) {
        Ok(path) => path,
        Err(error) => {
            return Err(error);
        },
    };
    if head.is_dir {
        return Ok(Entry::Directory(path));
    }
    if written.saturating_add(head.size) > limits.max_uncompressed_bytes {
        return Err(BundleError::TooMuchData);
    }
    Ok(Entry::File { path, name: head.name })
}

/// Judges the contents of a file, of which `room` bytes may be unpacked.
pub fn judge_contents(data: Result<Vec<u8>, String>, room: u64) -> (outcome: Result<
    Vec<u8>,
    BundleError,
>)
    ensures
        ({
            let stated = data_outcome(
                match data {
                    Ok(data) => Ok(data@),
                    Err(message) => Err(message@),
                },
                room,
            );
            match outcome {
                Ok(data) => stated == Ok::<Seq<u8>, BundleErrorView>(data@),
                Err(error) => stated == Err::<Seq<u8>, BundleErrorView>(error@),
            }
        }),
{
    match data {
        Ok(data) => {
            if data.len() as u64 > room {
                return Err(BundleError::TooMuchData);
            }
            Ok(data)
        },
        Err(message) => Err(BundleError::Io(message)),
    }
}

/// Decides whether a file may be written, where `parent` and `root` are the
/// paths of its directory and of the target directory after all links were
/// followed, and `name` is its name in the archive.
pub fn confirm_parent(parent: &Vec<u8>, root: &Vec<u8>, name: &str) -> (outcome: Result<
    (),
    BundleError,
>)
    ensures
        match outcome {
            Ok(()) => crate::os_path::components(root@).is_prefix_of(
                crate::os_path::components(parent@),
            ),
            Err(error) => !crate::os_path::components(root@).is_prefix_of(
                crate::os_path::components(parent@),
            ) && error@ == BundleErrorView::UnsafePath(name@),
        },
{
    if lies_below(parent, root) {
        Ok(())
    } else {
        Err(BundleError::UnsafePath(name.to_string()))
    }
}

/// An archive that is being unpacked, entry by entry.
pub struct Extraction {
    archive: crate::render::archive::Archive,
    limits: ExtractLimits,
    next: usize,
    written: u64,
    current: Option<usize>,
}

/// The state of an archive that is being unpacked.
pub struct ExtractionView {
    /// The bytes of the archive.
    pub bytes: Seq<u8>,
    /// The heads of its entries.
    pub entries: Seq<Result<crate::render::archive::HeadView, Seq<char>>>,
    pub limits: ExtractLimits,
    /// The entry whose turn it is.
    pub next: int,
    /// How many bytes were unpacked.
    pub written: u64,
    /// The file whose contents are due, if any.
    pub current: Option<int>,
}

impl View for Extraction {
    type V = ExtractionView;

    closed spec fn view(&self) -> ExtractionView {
        ExtractionView {
            bytes: crate::render::archive::archive_bytes(self.archive),
            entries: crate::render::archive::zip_entries(
                crate::render::archive::archive_bytes(self.archive),
            )->Ok_0,
            limits: self.limits,
            next: self.next as int,
            written: self.written,
            current: match self.current {
                Some(index) => Some(index as int),
                None => None,
            },
        }
    }
}

impl Extraction {
    /// The archive can be read, and no more was unpacked than allowed.
    pub closed spec fn well_formed(self) -> bool {
        &&& crate::render::archive::zip_entries(
            crate::render::archive::archive_bytes(self.archive),
        ) is Ok
        &&& self.next <= self@.entries.len()
        &&& self.written <= self.limits.max_uncompressed_bytes
        &&& self.current matches Some(index) ==> index < self@.entries.len()
    }

    /// Opens an archive. It is refused if it is larger than the limit, no zip,
    /// or has more entries than the limit.
    pub fn open(bytes: Vec<u8>, limits: ExtractLimits) -> (outcome: Result<Extraction, BundleError>)
        ensures
            match outcome {
                Ok(extraction) => {
                    &&& extraction.well_formed()
                    &&& open_outcome(bytes@, limits) == Ok::<_, BundleErrorView>(
                        extraction@.entries,
                    )
                    &&& extraction@ == (ExtractionView {
                        bytes: bytes@,
                        entries: extraction@.entries,
                        limits,
                        next: 0,
                        written: 0,
                        current: None,
                    })
                },
                Err(error) => open_outcome(bytes@, limits) == Err::<
                    Seq<Result<crate::render::archive::HeadView, Seq<char>>>,
                    BundleErrorView,
                >(error@),
            },
    {
        check_size(bytes.len(), limits)?;
        match open_archive(bytes) {
            Ok(archive) => {
                check_count(archive_len(&archive), limits)?;
                Ok(Extraction { archive, limits, next: 0, written: 0, current: None })
            },
            Err(message) => Err(BundleError::InvalidZip(message)),
        }
    }

    /// The next entry, or `None` after the last one. The contents of a file
    /// are then due.
    pub fn next(&mut self) -> (outcome: Result<Option<Entry>, BundleError>)
        requires
            old(self).well_formed(),
        ensures
            final(self).well_formed(),
            match outcome {
                Ok(None) => old(self)@.next == old(self)@.entries.len() && final(self)@ == old(
                    self,
                )@,
                Ok(Some(entry)) => {
                    &&& old(self)@.next < old(self)@.entries.len()
                    &&& head_outcome(
                        old(self)@.entries[old(self)@.next],
                        old(self)@.limits,
                        old(self)@.written,
                    ) == Ok::<EntryView, BundleErrorView>(entry@)
                    &&& final(self)@ == (ExtractionView {
                        next: old(self)@.next + 1,
                        current: if entry is File {
                            Some(old(self)@.next)
                        } else {
                            None
                        },
                        ..old(self)@
                    })
                },
                Err(error) => {
                    &&& old(self)@.next < old(self)@.entries.len()
                    &&& head_outcome(
                        old(self)@.entries[old(self)@.next],
                        old(self)@.limits,
                        old(self)@.written,
                    ) == Err::<EntryView, BundleErrorView>(error@)
                    &&& final(self)@ == old(self)@
                },
            },
    {
        let index: usize = self.next;
        if index == archive_len(&self.archive) {
            return Ok(None);
        }
        let entry = match judge_head(
            entry_head(&mut self.archive, index),
            self.limits,
            self.written,
        ) {
            Ok(entry) => entry,
            Err(error) => {
                return Err(error);
            },
        };
        self.next = index + 1;
        self.current = match &entry {
            Entry::File { path: _, name: _ } => Some(index),
            Entry::Directory(_) => None,
        };
        Ok(Some(entry))
    }

    /// The contents of the file that is due.
    pub fn contents(&mut self) -> (outcome: Result<Vec<u8>, BundleError>)
        requires
            old(self).well_formed(),
            old(self)@.current is Some,
        ensures
            final(self).well_formed(),
            ({
                let room = (old(self)@.limits.max_uncompressed_bytes - old(self)@.written) as u64;
                let stated = data_outcome(
                    crate::render::archive::read_up_to(
                        crate::render::archive::entry_stream(
                            old(self)@.bytes,
                            old(self)@.current->0,
                        ),
                        reading_limit(room),
                    ),
                    room,
                );
                match outcome {
                    Ok(data) => stated == Ok::<Seq<u8>, BundleErrorView>(data@) && final(self)@ == (
                    ExtractionView {
                        written: (old(self)@.written + data@.len()) as u64,
                        current: None,
                        ..old(self)@
                    }) && old(self)@.written + data@.len() <= old(
                        self,
                    )@.limits.max_uncompressed_bytes,
                    Err(error) => stated == Err::<Seq<u8>, BundleErrorView>(error@) && final(self)@
                        == old(self)@,
                }
            }),
    {
        let index: usize = match self.current {
            Some(index) => index,
            None => {
                return Ok(Vec::new());
            },
        };
        let room: u64 = self.limits.max_uncompressed_bytes - self.written;
        match judge_contents(read_entry(&mut self.archive, index, room.saturating_add(1)), room) {
            Ok(data) => {
                self.written = self.written + data.len() as u64;
                self.current = None;
                Ok(data)
            },
            Err(error) => Err(error),
        }
    }
}

/// An unpacked file or directory.
#[derive(Debug)]
pub struct Extracted {
    /// The path below the target directory.
    pub path: String,
    /// The contents of a file; `None` for a directory.
    pub contents: Option<Vec<u8>>,
}

/// An unpacked file or directory, in the terms of the contracts.
pub struct ExtractedView {
    pub path: Seq<char>,
    pub contents: Option<Seq<u8>>,
}

impl View for Extracted {
    type V = ExtractedView;

    open spec fn view(&self) -> ExtractedView {
        ExtractedView {
            path: self.path@,
            contents: match self.contents {
                Some(data) => Some(data@),
                None => None,
            },
        }
    }
}

/// What each item of a list stands for.
pub open spec fn extracted_views(items: Seq<Extracted>) -> Seq<ExtractedView> {
    items.map_values(|item: Extracted| item@)
}

/// The size of an unpacked file or directory.
pub open spec fn size_of(item: ExtractedView) -> nat {
    match item.contents {
        Some(data) => data.len(),
        None => 0,
    }
}

/// What unpacking one entry gives.
pub open spec fn entry_outcome(
    bytes: Seq<u8>,
    head: Result<crate::render::archive::HeadView, Seq<char>>,
    index: int,
    limits: ExtractLimits,
    written: u64,
) -> Result<ExtractedView, BundleErrorView> {
    match head_outcome(head, limits, written) {
        Err(error) => Err(error),
        Ok(EntryView::Directory(path)) => Ok(ExtractedView { path, contents: None }),
        Ok(EntryView::File { path, name }) => {
            let room = (limits.max_uncompressed_bytes - written) as u64;
            match data_outcome(
                crate::render::archive::read_up_to(
                    crate::render::archive::entry_stream(bytes, index),
                    reading_limit(room),
                ),
                room,
            ) {
                Err(error) => Err(error),
                Ok(data) => Ok(ExtractedView { path, contents: Some(data) }),
            }
        },
    }
}

/// What unpacking the entries from the one at `from` gives, after `written`
/// bytes: the files and directories, or the first error.
pub open spec fn unpacked(
    bytes: Seq<u8>,
    entries: Seq<Result<crate::render::archive::HeadView, Seq<char>>>,
    limits: ExtractLimits,
    from: int,
    written: u64,
) -> Result<Seq<ExtractedView>, BundleErrorView>
    decreases entries.len() - from,
{
    if from >= entries.len() {
        Ok(Seq::empty())
    } else {
        match entry_outcome(bytes, entries[from], from, limits, written) {
            Err(error) => Err(error),
            Ok(item) => match unpacked(
                bytes,
                entries,
                limits,
                from + 1,
                (written + size_of(item)) as u64,
            ) {
                Err(error) => Err(error),
                Ok(rest) => Ok(seq![item] + rest),
            },
        }
    }
}

/// What unpacking a whole bundle gives.
pub open spec fn bundle_outcome(bytes: Seq<u8>, limits: ExtractLimits) -> Result<
    Seq<ExtractedView>,
    BundleErrorView,
> {
    match open_outcome(bytes, limits) {
        Err(error) => Err(error),
        Ok(entries) => unpacked(bytes, entries, limits, 0, 0),
    }
}

/// `done` items and what the rest gives.
spec fn continued(
    done: Seq<ExtractedView>,
    rest: Result<Seq<ExtractedView>, BundleErrorView>,
) -> Result<Seq<ExtractedView>, BundleErrorView> {
    match rest {
        Err(error) => Err(error),
        Ok(items) => Ok(done + items),
    }
}

/// Unpacks a zip within the given limits: all its files and directories, in
/// the order of the archive.
pub fn extract_zip_with_limits(bytes: &[u8], limits: ExtractLimits) -> (outcome: Result<
    Vec<Extracted>,
    BundleError,
>)
    ensures
        match outcome {
            Ok(items) => bundle_outcome(bytes@, limits) == Ok::<Seq<ExtractedView>, BundleErrorView>(
                extracted_views(items@),
            ),
            Err(error) => bundle_outcome(bytes@, limits) == Err::<
                Seq<ExtractedView>,
                BundleErrorView,
            >(error@),
        },
{
    check_size(bytes.len(), limits)?;
    let mut extraction = match Extraction::open(slice_to_vec(bytes), limits) {
        Ok(extraction) => extraction,
        Err(error) => {
            return Err(error);
        },
    };
    let ghost entries = extraction@.entries;
    let mut items: Vec<Extracted> = Vec::new();
    proof {
        assert(extracted_views(items@) =~= Seq::<ExtractedView>::empty());
        let rest = unpacked(bytes@, entries, limits, 0, 0);
        if let Ok(list) = rest {
            assert(Seq::<ExtractedView>::empty() + list =~= list);
        }
    }
    loop
        invariant
            extraction.well_formed(),
            extraction@.bytes == bytes@,
            extraction@.entries == entries,
            extraction@.limits == limits,
            0 <= extraction@.next <= entries.len(),
            extraction@.written <= limits.max_uncompressed_bytes,
            bundle_outcome(bytes@, limits) == continued(
                extracted_views(items@),
                unpacked(bytes@, entries, limits, extraction@.next, extraction@.written),
            ),
        decreases entries.len() - extraction@.next,
    {
        let ghost before = extraction@;
        let ghost done = extracted_views(items@);
        let item = match extraction.next() {
            Err(error) => {
                return Err(error);
            },
            Ok(None) => {
                assert(done + Seq::<ExtractedView>::empty() =~= done);
                return Ok(items);
            },
            Ok(Some(Entry::Directory(path))) => Extracted { path, contents: None },
            Ok(Some(Entry::File { path, name: _ })) => match extraction.contents() {
                Err(error) => {
                    return Err(error);
                },
                Ok(data) => Extracted { path, contents: Some(data) },
            },
        };
        let ghost shown = item@;
        items.push(item);
        proof {
            assert(extracted_views(items@) =~= done.push(shown));
            let rest = unpacked(bytes@, entries, limits, extraction@.next, extraction@.written);
            if let Ok(list) = rest {
                assert(done + (seq![shown] + list) =~= done.push(shown) + list);
            }
        }
    }
}

/// Unpacks an uploaded zip.
pub fn extract_zip(bytes: &[u8]) -> (outcome: Result<Vec<Extracted>, BundleError>)
    ensures
        match outcome {
            Ok(items) => bundle_outcome(bytes@, standard_limits()) == Ok::<
                Seq<ExtractedView>,
                BundleErrorView,
            >(extracted_views(items@)),
            Err(error) => bundle_outcome(bytes@, standard_limits()) == Err::<
                Seq<ExtractedView>,
                BundleErrorView,
            >(error@),
        },
{
    extract_zip_with_limits(bytes, ExtractLimits::default())
}

/// A path that a safe name leads to from nowhere is relative, has a name and
/// never goes up.
proof fn lemma_relative_target(name: Seq<char>)
    requires
        is_safe(name),
    ensures
        crate::paths::stays_below(target(Seq::empty(), name)),
        crate::paths::parts(target(Seq::empty(), name)) == crate::paths::parts(name),
{
    let names = crate::paths::parts(name);
    crate::paths::law_parts_are_names(name);
    crate::paths::law_names_lead_inside(Seq::empty(), names);
    crate::paths::law_names_are_relative(names);
    reveal_with_fuel(crate::text::split, 2);
    reveal_with_fuel(crate::paths::telling, 2);
    assert(crate::paths::parts(Seq::empty()) =~= Seq::<Seq<char>>::empty());
    assert(Seq::<Seq<char>>::empty() + names =~= names);
}

/// The size of all unpacked files together.
pub open spec fn total_size(items: Seq<ExtractedView>) -> nat
    decreases items.len(),
{
    if items.len() == 0 {
        0
    } else {
        size_of(items[0]) + total_size(items.drop_first())
    }
}

proof fn lemma_unpacked_is_harmless(
    bytes: Seq<u8>,
    entries: Seq<Result<crate::render::archive::HeadView, Seq<char>>>,
    limits: ExtractLimits,
    from: int,
    written: u64,
)
    requires
        0 <= from <= entries.len(),
        written <= limits.max_uncompressed_bytes,
        unpacked(bytes, entries, limits, from, written) is Ok,
    ensures
        ({
            let items = unpacked(bytes, entries, limits, from, written)->Ok_0;
            &&& items.len() == entries.len() - from
            &&& written + total_size(items) <= limits.max_uncompressed_bytes
            &&& forall|i: int|
                0 <= i < items.len() ==> {
                    &&& crate::paths::stays_below((#[trigger] items[i]).path)
                    &&& crate::paths::parts(items[i].path).len() > 0
                }
        }),
    decreases entries.len() - from,
{
    if from < entries.len() {
        let item = entry_outcome(bytes, entries[from], from, limits, written)->Ok_0;
        lemma_relative_target(entries[from]->Ok_0.name);
        let now = (written + size_of(item)) as u64;
        lemma_unpacked_is_harmless(bytes, entries, limits, from + 1, now);
        let rest = unpacked(bytes, entries, limits, from + 1, now)->Ok_0;
        let items = seq![item] + rest;
        assert(items.drop_first() =~= rest);
        assert forall|i: int| 0 <= i < items.len() implies {
            &&& crate::paths::stays_below((#[trigger] items[i]).path)
            &&& crate::paths::parts(items[i].path).len() > 0
        } by {
            if i > 0 {
                assert(items[i] == rest[i - 1]);
            }
        }
    }
}

/// Whatever a zip holds, what is unpacked of it stays within the limits and
/// inside the target directory.
pub proof fn law_unpacking_is_harmless(bytes: Seq<u8>, limits: ExtractLimits)
    ensures
        bundle_outcome(bytes, limits) matches Ok(items) ==> {
            &&& bytes.len() <= limits.max_bundle_bytes
            &&& items.len() <= limits.max_entries
            &&& total_size(items) <= limits.max_uncompressed_bytes
            &&& forall|i: int|
                0 <= i < items.len() ==> {
                    &&& crate::paths::stays_below((#[trigger] items[i]).path)
                    &&& crate::paths::parts(items[i].path).len() > 0
                }
        },
{
    if let Ok(entries) = open_outcome(bytes, limits) {
        if unpacked(bytes, entries, limits, 0, 0) is Ok {
            lemma_unpacked_is_harmless(bytes, entries, limits, 0, 0);
        }
    }
}

/// A file of which `room` bytes may be unpacked is unpacked exactly as it is;
/// it is refused where it is truly longer, whatever its head claims, and where
/// it ends with an error.
pub proof fn law_room_is_observed(stream: (Seq<u8>, Option<Seq<char>>), room: u64)
    requires
        room < u64::MAX,
    ensures
        data_outcome(crate::render::archive::read_up_to(stream, reading_limit(room)), room)
            == if stream.0.len() > room {
            Err(BundleErrorView::TooMuchData)
        } else {
            match stream.1 {
                Some(message) => Err(BundleErrorView::Io(message)),
                None => Ok(stream.0),
            }
        },
{
}

proof fn lemma_files_are_entries(
    bytes: Seq<u8>,
    entries: Seq<Result<crate::render::archive::HeadView, Seq<char>>>,
    limits: ExtractLimits,
    from: int,
    written: u64,
    index: int,
)
    requires
        0 <= from <= index < entries.len(),
        written <= limits.max_uncompressed_bytes < u64::MAX,
        unpacked(bytes, entries, limits, from, written) is Ok,
    ensures
        ({
            let items = unpacked(bytes, entries, limits, from, written)->Ok_0;
            &&& items.len() == entries.len() - from
            &&& entries[index] matches Ok(head)
            &&& items[index - from] == (ExtractedView {
                path: target(Seq::empty(), head.name),
                contents: if head.is_dir {
                    None
                } else {
                    Some(crate::render::archive::entry_stream(bytes, index).0)
                },
            })
            &&& !head.is_dir ==> {
                &&& crate::render::archive::entry_stream(bytes, index).1 is None
                &&& crate::render::archive::entry_stream(bytes, index).0.len()
                    <= limits.max_uncompressed_bytes
            }
        }),
    decreases index - from,
{
    let item = entry_outcome(bytes, entries[from], from, limits, written)->Ok_0;
    let room = (limits.max_uncompressed_bytes - written) as u64;
    law_room_is_observed(crate::render::archive::entry_stream(bytes, from), room);
    lemma_unpacked_is_harmless(bytes, entries, limits, from, written);
    let now = (written + size_of(item)) as u64;
    let rest = unpacked(bytes, entries, limits, from + 1, now)->Ok_0;
    if from < index {
        lemma_files_are_entries(bytes, entries, limits, from + 1, now, index);
        assert((seq![item] + rest)[index - from] == rest[index - from - 1]);
    }
}

/// An unpacked bundle holds what its entries hold, whatever the limits: each
/// file has all the bytes of its entry and none of these ends with an error,
/// and each path is the one that the entry's name leads to.
pub proof fn law_files_hold_their_entries(bytes: Seq<u8>, limits: ExtractLimits, index: int)
    requires
        limits.max_uncompressed_bytes < u64::MAX,
        bundle_outcome(bytes, limits) matches Ok(items) && 0 <= index < items.len(),
    ensures
        ({
            let item = bundle_outcome(bytes, limits)->Ok_0[index];
            &&& crate::render::archive::zip_head(bytes, index) matches Ok(head)
            &&& item.path == target(Seq::empty(), head.name)
            &&& head.is_dir == (item.contents is None)
            &&& item.contents matches Some(contents)
                ==> crate::render::archive::entry_stream(bytes, index) == (
                contents,
                None::<Seq<char>>,
            )
        }),
{
    let entries = open_outcome(bytes, limits)->Ok_0;
    lemma_unpacked_is_harmless(bytes, entries, limits, 0, 0);
    lemma_files_are_entries(bytes, entries, limits, 0, 0, index);
}

/// What a bundle holds does not depend on the limits: where it is unpacked
/// within two of them, it is unpacked to the same files and directories.
pub proof fn law_limits_only_refuse(bytes: Seq<u8>, a: ExtractLimits, b: ExtractLimits)
    requires
        a.max_uncompressed_bytes < u64::MAX,
        b.max_uncompressed_bytes < u64::MAX,
        bundle_outcome(bytes, a) is Ok,
        bundle_outcome(bytes, b) is Ok,
    ensures
        bundle_outcome(bytes, a) == bundle_outcome(bytes, b),
{
    let x = bundle_outcome(bytes, a)->Ok_0;
    let y = bundle_outcome(bytes, b)->Ok_0;
    let entries = open_outcome(bytes, a)->Ok_0;
    lemma_unpacked_is_harmless(bytes, entries, a, 0, 0);
    lemma_unpacked_is_harmless(bytes, entries, b, 0, 0);
    assert forall|i: int| 0 <= i < x.len() implies x[i] == y[i] by {
        lemma_files_are_entries(bytes, entries, a, 0, 0, i);
        lemma_files_are_entries(bytes, entries, b, 0, 0, i);
    }
    assert(x =~= y);
}

/// A bundle with a file that is truly longer than the limit is never unpacked,
/// whatever size the file claims to have.
pub proof fn law_long_files_are_refused(bytes: Seq<u8>, limits: ExtractLimits, index: int)
    requires
        limits.max_uncompressed_bytes < u64::MAX,
        crate::render::archive::zip_entries(bytes) matches Ok(entries) && 0 <= index
            < entries.len() && (entries[index] matches Ok(head) && !head.is_dir),
        crate::render::archive::entry_stream(bytes, index).0.len()
            > limits.max_uncompressed_bytes,
    ensures
        bundle_outcome(bytes, limits) is Err,
{
    let entries = crate::render::archive::zip_entries(bytes)->Ok_0;
    if bundle_outcome(bytes, limits) is Ok {
        lemma_files_are_entries(bytes, entries, limits, 0, 0, index);
    }
}

/// A zip with a symbolic link among its entries is never unpacked.
pub proof fn law_symlinks_are_refused(bytes: Seq<u8>, limits: ExtractLimits, index: int)
    requires
        crate::render::archive::zip_entries(bytes) matches Ok(entries) && 0 <= index
            < entries.len() && (entries[index] matches Ok(head) && is_symlink(head.unix_mode)),
    ensures
        bundle_outcome(bytes, limits) is Err,
{
    let entries = crate::render::archive::zip_entries(bytes)->Ok_0;
    if open_outcome(bytes, limits) is Ok {
        lemma_symlink_stops(bytes, entries, limits, 0, 0, index);
    }
}

proof fn lemma_symlink_stops(
    bytes: Seq<u8>,
    entries: Seq<Result<crate::render::archive::HeadView, Seq<char>>>,
    limits: ExtractLimits,
    from: int,
    written: u64,
    index: int,
)
    requires
        0 <= from <= index < entries.len(),
        entries[index] matches Ok(head) && is_symlink(head.unix_mode),
    ensures
        unpacked(bytes, entries, limits, from, written) is Err,
    decreases index - from,
{
    if from < index {
        if let Ok(item) = entry_outcome(bytes, entries[from], from, limits, written) {
            lemma_symlink_stops(
                bytes,
                entries,
                limits,
                from + 1,
                (written + size_of(item)) as u64,
                index,
            );
        }
    }
}

} // verus!
