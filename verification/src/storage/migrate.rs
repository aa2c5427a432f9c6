//! Moving a directory of local files to an object store.
//!
//! Every regular file becomes an object whose key is the path of the file
//! below the directory. An object that already has the size of its file is
//! left alone, so a move that was interrupted can simply be started again.
use vstd::prelude::*;
use vstd::slice::slice_to_vec;
use vstd::string::*;
use vstd::utf8::*;

use crate::order::order_by_name;
use crate::os_path::{PathPart, begins_with, path_components};
use crate::paths::path_extension;
use crate::storage::StorageError;
use crate::text::{decimal, join, lower_text, same_text};

verus! {

/// A path of the operating system: its bytes, and how it is shown in
/// messages.
#[derive(Debug)]
pub struct PathText {
    pub bytes: Vec<u8>,
    pub shown: String,
}

// ── keys ────────────────────────────────────────────────────────────────

/// The names in a list of parts, up to the first part that is no name or not
/// UTF-8; and which of the two it was.
pub enum Names {
    All(Seq<Seq<char>>),
    NotAName,
    NotUtf8,
}

/// The names that parts of a path stand for.
pub open spec fn names_of(parts: Seq<crate::os_path::PartView>) -> Names
    decreases parts.len(),
{
    if parts.len() == 0 {
        Names::All(Seq::empty())
    } else {
        match names_of(parts.drop_last()) {
            Names::All(names) => match parts.last() {
                crate::os_path::PartView::Name(name) => if valid_utf8(name) {
                    Names::All(names.push(decode_utf8(name)))
                } else {
                    Names::NotUtf8
                },
                _ => Names::NotAName,
            },
            other => other,
        }
    }
}

/// The key of the object that a file below `root` becomes.
pub open spec fn key_of(root: PathText, path: PathText) -> Result<
    Seq<char>,
    crate::storage::StorageErrorView,
> {
    let outer = crate::os_path::components(root.bytes@);
    let whole = crate::os_path::components(path.bytes@);
    if !outer.is_prefix_of(whole) {
        Err(
            crate::storage::StorageErrorView::Other(
                "migration path `"@ + path.shown@ + "` is outside source root `"@ + root.shown@
                    + "`"@,
            ),
        )
    } else {
        match names_of(whole.skip(outer.len() as int)) {
            Names::NotUtf8 => Err(
                crate::storage::StorageErrorView::Other(
                    "migration path is not valid UTF-8: "@ + path.shown@,
                ),
            ),
            Names::NotAName => Err(
                crate::storage::StorageErrorView::Other("invalid migration path: "@ + path.shown@),
            ),
            Names::All(names) => if names.len() == 0 {
                Err(crate::storage::StorageErrorView::InvalidKey)
            } else {
                Ok(crate::text::joined(names, "/"@))
            },
        }
    }
}

/// `String::from_utf8` of std: the text that bytes stand for, if they are
/// UTF-8.
#[verifier::external_body]
fn text_from_utf8(bytes: Vec<u8>) -> (text: Option<String>)
    ensures
        match text {
            Some(text) => valid_utf8(bytes@) && text@ == decode_utf8(bytes@),
            None => !valid_utf8(bytes@),
        },
{
    String::from_utf8(bytes).ok()
}

/// The key of the object that a file becomes: its path below the directory
/// that is moved.
pub fn relative_key(root: &PathText, path: &PathText) -> (key: Result<String, StorageError>)
    ensures
        match key {
            Ok(key) => key_of(*root, *path) == Ok::<Seq<char>, crate::storage::StorageErrorView>(
                key@,
            ),
            Err(error) => key_of(*root, *path) == Err::<
                Seq<char>,
                crate::storage::StorageErrorView,
            >(error@),
        },
{
    let outer = path_components(&root.bytes);
    let whole = path_components(&path.bytes);
    if !begins_with(&whole, &outer) {
        let mut message = "migration path `".to_string();
        message.append(path.shown.as_str());
        message.append("` is outside source root `");
        message.append(root.shown.as_str());
        message.append("`");
        return Err(StorageError::Other(message));
    }
    let ghost rest = crate::os_path::part_views(whole@).skip(outer@.len() as int);
    let mut names: Vec<String> = Vec::new();
    let mut i: usize = outer.len();
    proof {
        assert(crate::os_path::part_views(outer@).len() == outer@.len());
        assert(rest.take(0) =~= Seq::<crate::os_path::PartView>::empty());
        assert(crate::text::views(names@) =~= Seq::<Seq<char>>::empty());
    }
    while i < whole.len()
        invariant
            outer@.len() <= i <= whole@.len(),
            rest == crate::os_path::part_views(whole@).skip(outer@.len() as int),
            crate::os_path::part_views(outer@) == crate::os_path::components(root.bytes@),
            crate::os_path::part_views(whole@) == crate::os_path::components(path.bytes@),
            crate::os_path::part_views(outer@).is_prefix_of(crate::os_path::part_views(whole@)),
            names_of(rest.take(i - outer@.len())) == Names::All(crate::text::views(names@)),
        decreases whole.len() - i,
    {
        let ghost done = i - outer@.len();
        let ghost before = crate::text::views(names@);
        proof {
            assert(rest.take(done + 1).drop_last() =~= rest.take(done));
            assert(rest.take(done + 1).last() == whole@[i as int]@);
        }
        match &whole[i] {
            PathPart::Name(name) => match text_from_utf8(slice_to_vec(name.as_slice())) {
                Some(text) => {
                    let ghost shown = text@;
                    names.push(text);
                    assert(crate::text::views(names@) =~= before.push(shown));
                },
                None => {
                    proof {
                        lemma_names_stop(rest, done + 1);
                    }
                    let mut message = "migration path is not valid UTF-8: ".to_string();
                    message.append(path.shown.as_str());
                    return Err(StorageError::Other(message));
                },
            },
            _ => {
                proof {
                    lemma_names_stop(rest, done + 1);
                }
                let mut message = "invalid migration path: ".to_string();
                message.append(path.shown.as_str());
                return Err(StorageError::Other(message));
            },
        }
        i += 1;
    }
    assert(rest.take(rest.len() as int) =~= rest);
    if names.len() == 0 {
        return Err(StorageError::InvalidKey);
    }
    Ok(join(&names, "/"))
}

/// What stops the names of the first parts stops all of them.
proof fn lemma_names_stop(parts: Seq<crate::os_path::PartView>, n: int)
    requires
        0 <= n <= parts.len(),
        !(names_of(parts.take(n)) is All),
    ensures
        names_of(parts) == names_of(parts.take(n)),
    decreases parts.len() - n,
{
    if n < parts.len() {
        assert(parts.take(n + 1).drop_last() =~= parts.take(n));
        lemma_names_stop(parts, n + 1);
    } else {
        assert(parts.take(n) =~= parts);
    }
}

/// A text with a slash has a slash among its bytes.
proof fn lemma_slash_is_encoded(chars: Seq<char>)
    requires
        chars.contains('/'),
    ensures
        encode_utf8(chars).contains(0x2f),
    decreases chars.len(),
{
    let first = encode_scalar(chars[0] as u32);
    let rest = encode_utf8(chars.drop_first());
    let whole = encode_utf8(chars);
    assert(whole == first + rest);
    if chars[0] == '/' {
        assert((0x2fu32 & 0x7f) as u8 == 0x2f) by (bit_vector);
        assert(whole[0] == 0x2f);
    } else {
        let k = choose|k: int| 0 <= k < chars.len() && chars[k] == '/';
        assert(chars.drop_first()[k - 1] == '/');
        lemma_slash_is_encoded(chars.drop_first());
        let at = choose|at: int| 0 <= at < rest.len() && rest[at] == 0x2f;
        assert(whole[first.len() + at] == 0x2f);
    }
}

/// The parts of a path that all have names are these names.
proof fn lemma_names_tell_parts(parts: Seq<crate::os_path::PartView>)
    requires
        names_of(parts) is All,
        forall|i: int|
            0 <= i < parts.len() ==> ((#[trigger] parts[i]) matches crate::os_path::PartView::Name(
                name,
            ) ==> crate::os_path::is_name(name)),
    ensures
        ({
            let names = names_of(parts)->All_0;
            &&& names.len() == parts.len()
            &&& forall|i: int|
                0 <= i < names.len() ==> !(#[trigger] names[i]).contains('/') && parts[i]
                    == crate::os_path::PartView::Name(encode_utf8(names[i]))
        }),
    decreases parts.len(),
{
    if parts.len() > 0 {
        let fewer = parts.drop_last();
        assert forall|i: int| 0 <= i < fewer.len() implies ((#[trigger] fewer[i]) matches
            crate::os_path::PartView::Name(name) ==> crate::os_path::is_name(name)) by {
            assert(fewer[i] == parts[i]);
        }
        lemma_names_tell_parts(fewer);
        let last = parts[parts.len() - 1]->Name_0;
        let names = names_of(parts)->All_0;
        decode_utf8_encode_utf8(last);
        if decode_utf8(last).contains('/') {
            lemma_slash_is_encoded(decode_utf8(last));
        }
        assert forall|i: int| 0 <= i < names.len() implies !(#[trigger] names[i]).contains('/')
            && parts[i] == crate::os_path::PartView::Name(encode_utf8(names[i])) by {
            if i < fewer.len() {
                assert(fewer[i] == parts[i]);
                assert(names[i] == names_of(fewer)->All_0[i]);
            }
        }
    }
}

/// Different files become different objects: two paths below one directory
/// that have the same key consist of the same parts.
pub proof fn law_keys_tell_files_apart(root: PathText, a: PathText, b: PathText)
    requires
        key_of(root, a) is Ok,
        key_of(root, a) == key_of(root, b),
    ensures
        crate::os_path::components(a.bytes@) == crate::os_path::components(b.bytes@),
{
    let outer = crate::os_path::components(root.bytes@);
    let x = crate::os_path::components(a.bytes@);
    let y = crate::os_path::components(b.bytes@);
    let n = outer.len() as int;
    crate::os_path::law_components_are_names(a.bytes@);
    crate::os_path::law_components_are_names(b.bytes@);
    assert forall|i: int| 0 <= i < x.skip(n).len() implies ((#[trigger] x.skip(n)[i]) matches
        crate::os_path::PartView::Name(name) ==> crate::os_path::is_name(name)) by {
        assert(x.skip(n)[i] == x[n + i]);
    }
    assert forall|i: int| 0 <= i < y.skip(n).len() implies ((#[trigger] y.skip(n)[i]) matches
        crate::os_path::PartView::Name(name) ==> crate::os_path::is_name(name)) by {
        assert(y.skip(n)[i] == y[n + i]);
    }
    lemma_names_tell_parts(x.skip(n));
    lemma_names_tell_parts(y.skip(n));
    let p = names_of(x.skip(n))->All_0;
    let q = names_of(y.skip(n))->All_0;
    reveal_strlit("/");
    assert("/"@ =~= seq!['/']);
    crate::text::lemma_split_joined(p, '/');
    crate::text::lemma_split_joined(q, '/');
    assert(p == q);
    assert forall|i: int| 0 <= i < x.skip(n).len() implies x.skip(n)[i] == y.skip(n)[i] by {
        assert(!p[i].contains('/') && !q[i].contains('/'));
    }
    assert(x.skip(n) =~= y.skip(n));
    assert(x.subrange(0, n) =~= outer && y.subrange(0, n) =~= outer);
    assert(x =~= outer + x.skip(n));
    assert(y =~= outer + y.skip(n));
}

// ── content types ───────────────────────────────────────────────────────

/// The content type of a file, by what follows the last dot of its name.
pub fn content_type(path: &str) -> (kind: &'static str)
    ensures
        kind@ == match crate::paths::extension(path@) {
            Some(extension) => if crate::text::lower(extension) == "png"@ {
                "image/png"@
            } else if crate::text::lower(extension) == "zip"@ {
                "application/zip"@
            } else {
                "application/octet-stream"@
            },
            None => "application/octet-stream"@,
        },
{
    match path_extension(path) {
        Some(extension) => {
            let extension = lower_text(extension.as_str());
            if same_text(extension.as_str(), "png") {
                "image/png"
            } else if same_text(extension.as_str(), "zip") {
                "application/zip"
            } else {
                "application/octet-stream"
            }
        },
        None => "application/octet-stream",
    }
}

// ── one file ────────────────────────────────────────────────────────────

/// What became of one file.
#[derive(Debug, Clone, Copy, PartialEq, Eq, Structural)]
pub enum FileOutcome {
    /// The file was sent; it has so many bytes.
    Uploaded(u64),
    /// The object was there already.
    Skipped,
}

/// Whether a file has to be sent: `existing` is the size of the object with
/// its key, if there is one.
pub fn needs_upload(existing: Option<u64>, size: u64) -> (needed: bool)
    ensures
        needed == (existing != Some(size)),
{
    match existing {
        Some(found) => found != size,
        None => true,
    }
}

/// An optional size as it is shown in messages.
pub open spec fn size_text(size: Option<u64>) -> Seq<char> {
    match size {
        Some(size) => "Some("@ + crate::text::decimal_text(size as nat) + ")"@,
        None => "None"@,
    }
}

/// Judges a file that was sent, by the size of the object that is found
/// afterwards.
pub fn confirm_upload(key: &str, size: u64, found: Option<u64>) -> (outcome: Result<
    FileOutcome,
    StorageError,
>)
    ensures
        if found == Some(size) {
            outcome == Ok::<FileOutcome, StorageError>(FileOutcome::Uploaded(size))
        } else {
            outcome matches Err(error) && error@ == crate::storage::StorageErrorView::Other(
                "storage migration verification failed for `"@ + key@ + "`: expected "@
                    + crate::text::decimal_text(size as nat) + " bytes, got "@ + size_text(found),
            )
        },
{
    if !needs_upload(found, size) {
        return Ok(FileOutcome::Uploaded(size));
    }
    let mut message = "storage migration verification failed for `".to_string();
    message.append(key);
    message.append("`: expected ");
    let expected = decimal(size);
    message.append(expected.as_str());
    message.append(" bytes, got ");
    let got = match found {
        Some(found) => {
            let mut text = "Some(".to_string();
            let shown = decimal(found);
            text.append(shown.as_str());
            text.append(")");
            text
        },
        None => "None".to_string(),
    };
    message.append(got.as_str());
    Err(StorageError::Other(message))
}

/// What becomes of a file with the given key and size, where `store` says
/// which objects there are and how large they are.
pub open spec fn file_outcome(store: Map<Seq<char>, u64>, file: (Seq<char>, u64)) -> FileOutcome {
    let existing = if store.contains_key(file.0) {
        Some(store[file.0])
    } else {
        None
    };
    if existing != Some(file.1) {
        FileOutcome::Uploaded(file.1)
    } else {
        FileOutcome::Skipped
    }
}

/// The objects after the files were moved one after the other.
pub open spec fn moved(store: Map<Seq<char>, u64>, files: Seq<(Seq<char>, u64)>) -> Map<
    Seq<char>,
    u64,
>
    decreases files.len(),
{
    if files.len() == 0 {
        store
    } else {
        moved(store, files.drop_last()).insert(files.last().0, files.last().1)
    }
}

/// A move can be started again: after the files were moved, moving any of
/// them once more sends nothing, as long as no two of them share a key.
pub proof fn law_moves_resume(
    store: Map<Seq<char>, u64>,
    files: Seq<(Seq<char>, u64)>,
    again: int,
)
    requires
        forall|i: int, j: int|
            0 <= i < j < files.len() ==> (#[trigger] files[i]).0 != (#[trigger] files[j]).0,
        0 <= again < files.len(),
    ensures
        file_outcome(moved(store, files), files[again]) == FileOutcome::Skipped,
    decreases files.len(),
{
    if again < files.len() - 1 {
        let fewer = files.drop_last();
        assert forall|i: int, j: int| 0 <= i < j < fewer.len() implies (#[trigger] fewer[i]).0 != (
        #[trigger] fewer[j]).0 by {
            assert(fewer[i] == files[i] && fewer[j] == files[j]);
        }
        law_moves_resume(store, fewer, again);
        assert(fewer[again] == files[again]);
        assert(files[again].0 != files[files.len() - 1].0);
    }
}

// ── all files ───────────────────────────────────────────────────────────

/// What a move has done.
#[derive(Clone, Copy, Debug, PartialEq, Eq, Structural)]
pub struct MigrationSummary {
    /// The number of files found.
    pub discovered: usize,
    /// The number of files sent.
    pub uploaded: usize,
    /// The number of files left alone.
    pub skipped: usize,
    /// The number of bytes sent.
    pub bytes_uploaded: u64,
}

impl Default for MigrationSummary {
    fn default() -> (summary: Self)
        ensures
            summary == (MigrationSummary {
                discovered: 0,
                uploaded: 0,
                skipped: 0,
                bytes_uploaded: 0,
            }),
    {
        MigrationSummary { discovered: 0, uploaded: 0, skipped: 0, bytes_uploaded: 0 }
    }
}

/// How many files of `outcomes` were sent.
pub open spec fn count_uploaded(outcomes: Seq<FileOutcome>) -> nat
    decreases outcomes.len(),
{
    if outcomes.len() == 0 {
        0
    } else {
        count_uploaded(outcomes.drop_last()) + if outcomes.last() is Uploaded {
            1nat
        } else {
            0nat
        }
    }
}

/// How many files of `outcomes` were left alone.
pub open spec fn count_skipped(outcomes: Seq<FileOutcome>) -> nat
    decreases outcomes.len(),
{
    if outcomes.len() == 0 {
        0
    } else {
        count_skipped(outcomes.drop_last()) + if outcomes.last() is Skipped {
            1nat
        } else {
            0nat
        }
    }
}

/// How many bytes were sent.
pub open spec fn bytes_sent(outcomes: Seq<FileOutcome>) -> nat
    decreases outcomes.len(),
{
    if outcomes.len() == 0 {
        0
    } else {
        bytes_sent(outcomes.drop_last()) + match outcomes.last() {
            FileOutcome::Uploaded(size) => size as nat,
            FileOutcome::Skipped => 0nat,
        }
    }
}

/// Sums up what became of the files of a move.
pub fn summarize(outcomes: &Vec<FileOutcome>) -> (summary: MigrationSummary)
    ensures
        summary.discovered == outcomes@.len(),
        summary.uploaded == count_uploaded(outcomes@),
        summary.skipped == count_skipped(outcomes@),
        summary.discovered == summary.uploaded + summary.skipped,
        summary.bytes_uploaded == if bytes_sent(outcomes@) > u64::MAX {
            u64::MAX as nat
        } else {
            bytes_sent(outcomes@)
        },
{
    let mut summary = MigrationSummary::default();
    summary.discovered = outcomes.len();
    let mut i: usize = 0;
    while i < outcomes.len()
        invariant
            i <= outcomes.len(),
            summary.discovered == outcomes@.len(),
            summary.uploaded == count_uploaded(outcomes@.take(i as int)),
            summary.skipped == count_skipped(outcomes@.take(i as int)),
            summary.uploaded + summary.skipped == i,
            summary.bytes_uploaded == if bytes_sent(outcomes@.take(i as int)) > u64::MAX {
                u64::MAX as nat
            } else {
                bytes_sent(outcomes@.take(i as int))
            },
        decreases outcomes.len() - i,
    {
        assert(outcomes@.take(i + 1).drop_last() =~= outcomes@.take(i as int));
        match outcomes[i] {
            FileOutcome::Uploaded(bytes) => {
                summary.uploaded = summary.uploaded + 1;
                summary.bytes_uploaded = summary.bytes_uploaded.saturating_add(bytes);
            },
            FileOutcome::Skipped => {
                summary.skipped = summary.skipped + 1;
            },
        }
        i += 1;
    }
    assert(outcomes@.take(outcomes@.len() as int) =~= outcomes@);
    summary
}

/// Every file that was found was either sent or left alone.
pub proof fn law_every_file_is_counted(outcomes: Seq<FileOutcome>)
    ensures
        count_uploaded(outcomes) + count_skipped(outcomes) == outcomes.len(),
    decreases outcomes.len(),
{
    if outcomes.len() > 0 {
        law_every_file_is_counted(outcomes.drop_last());
    }
}

/// Where nothing had to be sent, every file was left alone and no bytes were
/// sent.
pub proof fn law_nothing_to_do(outcomes: Seq<FileOutcome>)
    requires
        forall|i: int| 0 <= i < outcomes.len() ==> #[trigger] outcomes[i] == FileOutcome::Skipped,
    ensures
        count_uploaded(outcomes) == 0,
        count_skipped(outcomes) == outcomes.len(),
        bytes_sent(outcomes) == 0,
    decreases outcomes.len(),
{
    if outcomes.len() > 0 {
        assert forall|i: int| 0 <= i < outcomes.drop_last().len() implies #[trigger] outcomes.drop_last()[i]
            == FileOutcome::Skipped by {
            assert(outcomes.drop_last()[i] == outcomes[i]);
        }
        law_nothing_to_do(outcomes.drop_last());
        assert(outcomes[outcomes.len() - 1] == FileOutcome::Skipped);
    }
}

/// The keys and sizes of files below `root` whose keys can be formed.
pub open spec fn keyed(root: PathText, files: Seq<(PathText, u64)>) -> Seq<(Seq<char>, u64)> {
    files.map_values(|file: (PathText, u64)| (key_of(root, file.0)->Ok_0, file.1))
}

/// What becomes of all files of a move where `store` says which objects there
/// are.
pub open spec fn outcomes_of(store: Map<Seq<char>, u64>, files: Seq<(Seq<char>, u64)>) -> Seq<
    FileOutcome,
> {
    files.map_values(|file: (Seq<char>, u64)| file_outcome(store, file))
}

/// Moving the same files once more sends nothing: all of them are found, all
/// are left alone and no byte is sent. The files only have to be different
/// ones, and have keys; the order in which they were moved does not matter.
pub proof fn law_second_move_sends_nothing(
    root: PathText,
    files: Seq<(PathText, u64)>,
    store: Map<Seq<char>, u64>,
)
    requires
        forall|i: int, j: int|
            0 <= i < j < files.len() ==> crate::os_path::components(
                (#[trigger] files[i]).0.bytes@,
            ) != crate::os_path::components((#[trigger] files[j]).0.bytes@),
        forall|i: int|
            0 <= i < files.len() ==> key_of(root, (#[trigger] files[i]).0) is Ok,
    ensures
        ({
            let moving = keyed(root, files);
            let again = outcomes_of(moved(store, moving), moving);
            &&& again.len() == files.len()
            &&& forall|i: int|
                0 <= i < again.len() ==> #[trigger] again[i] == FileOutcome::Skipped
            &&& count_uploaded(again) == 0
            &&& count_skipped(again) == files.len()
            &&& bytes_sent(again) == 0
        }),
{
    let moving = keyed(root, files);
    let again = outcomes_of(moved(store, moving), moving);
    assert forall|i: int, j: int| 0 <= i < j < moving.len() implies (#[trigger] moving[i]).0 != (
    #[trigger] moving[j]).0 by {
        assert(key_of(root, files[i].0) is Ok && key_of(root, files[j].0) is Ok);
        if moving[i].0 == moving[j].0 {
            law_keys_tell_files_apart(root, files[i].0, files[j].0);
        }
    }
    assert forall|i: int| 0 <= i < again.len() implies #[trigger] again[i]
        == FileOutcome::Skipped by {
        law_moves_resume(store, moving, i);
    }
    law_nothing_to_do(again);
}

/// How many files are moved at the same time: at least one.
pub fn lanes(concurrency: usize) -> (lanes: usize)
    ensures
        lanes == if concurrency == 0 {
            1
        } else {
            concurrency
        },
{
    if concurrency == 0 {
        1
    } else {
        concurrency
    }
}

// ── finding the files ───────────────────────────────────────────────────

/// What there is at a path.
#[derive(Debug, Clone, Copy, PartialEq, Eq, Structural)]
pub enum Kind {
    Directory,
    File,
    /// A symbolic link or a special file.
    Other,
}

/// A search for all files below a directory.
#[derive(Debug)]
pub struct Walk {
    directories: Vec<PathText>,
    files: Vec<PathText>,
}

/// A search, in the terms of the contracts.
pub struct WalkView {
    /// The directories that were found and not looked into yet.
    pub directories: Seq<PathText>,
    /// The files that were found.
    pub files: Seq<PathText>,
}

impl View for Walk {
    type V = WalkView;

    closed spec fn view(&self) -> WalkView {
        WalkView { directories: self.directories@, files: self.files@ }
    }
}

/// What happens in a search.
pub enum WalkStep {
    /// The next directory is taken.
    Take,
    /// Something was found in a directory.
    Find(PathText, Kind),
}

impl WalkView {
    /// The search after a step.
    pub open spec fn next(self, step: WalkStep) -> Self {
        match step {
            WalkStep::Take => if self.directories.len() > 0 {
                WalkView { directories: self.directories.drop_last(), ..self }
            } else {
                self
            },
            WalkStep::Find(path, Kind::Directory) => WalkView {
                directories: self.directories.push(path),
                ..self
            },
            WalkStep::Find(path, Kind::File) => WalkView { files: self.files.push(path), ..self },
            WalkStep::Find(path, Kind::Other) => self,
        }
    }
}

/// A path by which files are put in order: part by part, a directory before
/// what is in it. No name holds the byte zero.
pub open spec fn sort_key(path: Seq<u8>) -> Seq<u8> {
    path.map_values(
        |byte: u8|
            if byte == 0x2f {
                0u8
            } else {
                byte
            },
    )
}

/// The paths by which files are put in order.
pub open spec fn sort_keys(files: Seq<PathText>) -> Seq<Seq<u8>> {
    files.map_values(|file: PathText| sort_key(file.bytes@))
}

impl Walk {
    /// Begins a search at `root`, where there is `found` or nothing.
    pub fn begin(root: PathText, found: Option<Kind>) -> (walk: Result<Walk, StorageError>)
        ensures
            match found {
                None => walk matches Ok(walk) && walk@ == (WalkView {
                    directories: Seq::empty(),
                    files: Seq::empty(),
                }),
                Some(Kind::Directory) => walk matches Ok(walk) && walk@ == (WalkView {
                    directories: seq![root],
                    files: Seq::empty(),
                }),
                _ => walk matches Err(error) && error@ == crate::storage::StorageErrorView::Other(
                    "LOCAL_UPLOAD_DIR is not a directory: "@ + root.shown@,
                ),
            },
    {
        let mut directories: Vec<PathText> = Vec::new();
        match found {
            None => {},
            Some(Kind::Directory) => {
                directories.push(root);
            },
            _ => {
                let mut message = "LOCAL_UPLOAD_DIR is not a directory: ".to_string();
                message.append(root.shown.as_str());
                return Err(StorageError::Other(message));
            },
        }
        let walk = Walk { directories, files: Vec::new() };
        proof {
            assert(walk.files@ =~= Seq::empty());
            if found is None {
                assert(walk.directories@ =~= Seq::empty());
            } else {
                assert(walk.directories@ =~= seq![root]);
            }
        }
        Ok(walk)
    }

    /// The next directory to look into, if there is one.
    pub fn next_directory(&mut self) -> (directory: Option<PathText>)
        ensures
            match directory {
                Some(directory) => old(self)@.directories.len() > 0 && directory == old(
                    self,
                )@.directories.last(),
                None => old(self)@.directories.len() == 0,
            },
            final(self)@ == old(self)@.next(WalkStep::Take),
    {
        self.directories.pop()
    }

    /// Takes in what was found in a directory. Anything but a file or a
    /// directory is refused.
    pub fn visit(&mut self, path: PathText, kind: Kind) -> (outcome: Result<(), StorageError>)
        ensures
            final(self)@ == old(self)@.next(WalkStep::Find(path, kind)),
            match kind {
                Kind::Directory | Kind::File => outcome is Ok,
                Kind::Other => outcome matches Err(error) && error@
                    == crate::storage::StorageErrorView::Other(
                    "refusing to migrate symlink or special file: "@ + path.shown@,
                ),
            },
    {
        match kind {
            Kind::Directory => {
                self.directories.push(path);
                Ok(())
            },
            Kind::File => {
                self.files.push(path);
                Ok(())
            },
            Kind::Other => {
                let mut message = "refusing to migrate symlink or special file: ".to_string();
                message.append(path.shown.as_str());
                Err(StorageError::Other(message))
            },
        }
    }

    /// The places of the files that were found, in order, and the files.
    pub fn into_files(self) -> (found: (Vec<usize>, Vec<PathText>))
        ensures
            found.1@ == self@.files,
            crate::order::ordering(sort_keys(self@.files), found.0@),
            found.0@.len() == found.1@.len(),
            forall|i: int| 0 <= i < found.0@.len() ==> #[trigger] found.0@[i] < found.1@.len(),
    {
        let mut keys: Vec<Vec<u8>> = Vec::new();
        let mut i: usize = 0;
        while i < self.files.len()
            invariant
                i <= self.files.len(),
                keys@.len() == i,
                forall|k: int|
                    0 <= k < i ==> (#[trigger] keys@[k])@ == sort_key(self.files@[k].bytes@),
            decreases self.files.len() - i,
        {
            keys.push(sort_key_of(&self.files[i].bytes));
            i += 1;
        }
        assert(crate::order::name_bytes(keys@) =~= sort_keys(self.files@));
        let order = order_by_name(&keys);
        (order, self.files)
    }
}

/// The search that begins as `start` and takes the steps of `trace`.
pub open spec fn walked(start: WalkView, trace: Seq<WalkStep>) -> WalkView
    decreases trace.len(),
{
    if trace.len() == 0 {
        start
    } else {
        walked(start, trace.drop_last()).next(trace.last())
    }
}

/// The directories that were handed out, in order.
pub open spec fn handed_out(start: WalkView, trace: Seq<WalkStep>) -> Seq<PathText>
    decreases trace.len(),
{
    if trace.len() == 0 {
        Seq::empty()
    } else {
        let earlier = handed_out(start, trace.drop_last());
        let before = walked(start, trace.drop_last());
        if trace.last() is Take && before.directories.len() > 0 {
            earlier.push(before.directories.last())
        } else {
            earlier
        }
    }
}

/// The paths of one kind that were found, in order.
pub open spec fn found_paths(trace: Seq<WalkStep>, kind: Kind) -> Seq<PathText>
    decreases trace.len(),
{
    if trace.len() == 0 {
        Seq::empty()
    } else {
        let earlier = found_paths(trace.drop_last(), kind);
        match trace.last() {
            WalkStep::Find(path, found) => if found == kind {
                earlier.push(path)
            } else {
                earlier
            },
            WalkStep::Take => earlier,
        }
    }
}

/// A search is complete: the files are those that were found, in that order;
/// and every directory, the first one and each that was found, is either still
/// waiting or was handed out, and just once. So when none is waiting any more,
/// all of them were looked into.
pub proof fn law_walks_are_complete(start: WalkView, trace: Seq<WalkStep>)
    ensures
        ({
            let walk = walked(start, trace);
            let directories = start.directories + found_paths(trace, Kind::Directory);
            let handed = handed_out(start, trace);
            &&& walk.files == start.files + found_paths(trace, Kind::File)
            &&& (handed + walk.directories).to_multiset() == directories.to_multiset()
            &&& walk.directories.len() == 0 ==> handed.to_multiset() == directories.to_multiset()
        }),
    decreases trace.len(),
{
    broadcast use vstd::seq_lib::group_to_multiset_ensures;

    let walk = walked(start, trace);
    let handed = handed_out(start, trace);
    let directories = start.directories + found_paths(trace, Kind::Directory);
    if trace.len() == 0 {
        assert(start.files + found_paths(trace, Kind::File) =~= start.files);
        assert(handed + walk.directories =~= start.directories);
        assert(directories =~= start.directories);
    } else {
        let earlier = trace.drop_last();
        law_walks_are_complete(start, earlier);
        let before = walked(start, earlier);
        let gone = handed_out(start, earlier);
        let known = start.directories + found_paths(earlier, Kind::Directory);
        match trace.last() {
            WalkStep::Take => {
                if before.directories.len() > 0 {
                    lemma_moved_over(gone, before.directories);
                }
            },
            WalkStep::Find(path, Kind::Directory) => {
                assert(handed + walk.directories =~= (gone + before.directories).push(path));
                assert(directories =~= known.push(path));
            },
            WalkStep::Find(path, Kind::File) => {
                assert(walk.files =~= start.files + found_paths(trace, Kind::File));
            },
            WalkStep::Find(path, Kind::Other) => {},
        }
    }
    if walk.directories.len() == 0 {
        assert(handed + walk.directories =~= handed);
    }
}

/// Taking the last of one list and putting it behind another loses nothing.
proof fn lemma_moved_over(gone: Seq<PathText>, waiting: Seq<PathText>)
    requires
        waiting.len() > 0,
    ensures
        (gone.push(waiting.last()) + waiting.drop_last()).to_multiset() == (gone
            + waiting).to_multiset(),
{
    let one = seq![waiting.last()];
    let rest = waiting.drop_last();
    vstd::seq_lib::lemma_multiset_commutative(gone + one, rest);
    vstd::seq_lib::lemma_multiset_commutative(gone, one);
    vstd::seq_lib::lemma_multiset_commutative(gone, waiting);
    vstd::seq_lib::lemma_multiset_commutative(rest, one);
    assert(gone.push(waiting.last()) =~= gone + one);
    assert(waiting =~= rest + one);
    assert((gone + one).to_multiset().add(rest.to_multiset()) =~= gone.to_multiset().add(
        rest.to_multiset().add(one.to_multiset()),
    ));
}

fn sort_key_of(path: &Vec<u8>) -> (key: Vec<u8>)
    ensures
        key@ == sort_key(path@),
{
    let mut key: Vec<u8> = Vec::new();
    let mut i: usize = 0;
    while i < path.len()
        invariant
            i <= path.len(),
            key@ == sort_key(path@).take(i as int),
        decreases path.len() - i,
    {
        let byte: u8 = if path[i] == 0x2f {
            0
        } else {
            path[i]
        };
        key.push(byte);
        assert(sort_key(path@).take(i + 1) =~= sort_key(path@).take(i as int).push(byte));
        i += 1;
    }
    assert(sort_key(path@).take(path@.len() as int) =~= sort_key(path@));
    key
}

} // verus!
