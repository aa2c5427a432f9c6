//! Serving an uploaded bundle from a local directory.
//!
//! The first request for a build fetches its bundle and unpacks it. Unpacking
//! goes to a directory of its own, which is then renamed: the final directory
//! exists only when it is complete.
use vstd::prelude::*;
use vstd::string::*;

use crate::ids::Uuid;
use crate::os_path::lies_below;
use crate::paths::{contains_char, goes_up, path_extension, path_is_absolute, path_parts};
use crate::render::bundle::BundleError;
use crate::text::{lower_text, same_text, trim_start};

verus! {

/// Why a file of a bundle is not served.
#[derive(Debug)]
pub enum StorybookServeError {
    /// There is no such file, or its path leads out of the bundle.
    NotFound,
    /// The bundle cannot be unpacked.
    Bundle(BundleError),
    /// The bundle cannot be fetched.
    Storage(String),
    Io(String),
}

/// A serving error, in the terms of the contracts.
pub enum ServeErrorView {
    NotFound,
    Bundle(crate::render::bundle::BundleErrorView),
    Storage(Seq<char>),
    Io(Seq<char>),
}

impl View for StorybookServeError {
    type V = ServeErrorView;

    open spec fn view(&self) -> ServeErrorView {
        match self {
            StorybookServeError::NotFound => ServeErrorView::NotFound,
            StorybookServeError::Bundle(error) => ServeErrorView::Bundle(error@),
            StorybookServeError::Storage(message) => ServeErrorView::Storage(message@),
            StorybookServeError::Io(message) => ServeErrorView::Io(message@),
        }
    }
}

impl ServeErrorView {
    /// The text in which the error is reported.
    pub open spec fn text(self) -> Seq<char> {
        match self {
            ServeErrorView::NotFound => "storybook asset not found"@,
            ServeErrorView::Bundle(error) => "bundle extraction failed: "@ + error.text(),
            ServeErrorView::Storage(message) => "storage error: "@ + message,
            ServeErrorView::Io(message) => "io error: "@ + message,
        }
    }
}

impl StorybookServeError {
    /// The text in which the error is reported.
    pub fn message(&self) -> (text: String)
        ensures
            text@ == self@.text(),
    {
        match self {
            StorybookServeError::NotFound => "storybook asset not found".to_string(),
            StorybookServeError::Bundle(error) => {
                let mut text = "bundle extraction failed: ".to_string();
                let shown = error.message();
                text.append(shown.as_str());
                text
            },
            StorybookServeError::Storage(message) => {
                let mut text = "storage error: ".to_string();
                text.append(message.as_str());
                text
            },
            StorybookServeError::Io(message) => {
                let mut text = "io error: ".to_string();
                text.append(message.as_str());
                text
            },
        }
    }
}

// ── which file ──────────────────────────────────────────────────────────

/// The path below the bundle that a request asks for.
pub open spec fn requested(path: Seq<char>) -> Seq<char> {
    let path = crate::text::trimmed_start(path, '/');
    if path.len() == 0 {
        "index.html"@
    } else {
        path
    }
}

/// The path below the bundle that a request asks for: `index.html` for an
/// empty one.
pub fn requested_path(rel_path: &str) -> (path: String)
    ensures
        path@ == requested(rel_path@),
{
    let path = trim_start(rel_path, '/');
    proof {
        reveal_strlit("");
        assert(path@.len() == 0 ==> path@ =~= ""@);
    }
    if same_text(path.as_str(), "") {
        "index.html".to_string()
    } else {
        path
    }
}

/// The names that lead from the bundle's directory to a file. A path that
/// leads out of it is answered as if there were no such file.
pub fn resolve_asset(rel: &str) -> (names: Result<Vec<String>, StorybookServeError>)
    ensures
        match names {
            Ok(names) => !rel@.contains('\\') && crate::paths::stays_below(rel@)
                && crate::text::views(names@) == crate::paths::parts(rel@),
            Err(error) => (rel@.contains('\\') || !crate::paths::stays_below(rel@)) && error@
                == ServeErrorView::NotFound,
        },
{
    let names = path_parts(rel);
    assert(forall|i: int|
        0 <= i < names@.len() ==> #[trigger] crate::text::views(names@)[i] == names@[i]@);
    if contains_char(rel, '\\') || path_is_absolute(rel) || goes_up(&names) {
        return Err(StorybookServeError::NotFound);
    }
    Ok(names)
}

/// Whether a file may be served, where `actual` and `root` are the paths of the
/// file and of the bundle's directory after all links were followed, if they
/// exist.
pub open spec fn may_serve(actual: Option<Vec<u8>>, root: Option<Vec<u8>>, is_file: bool) -> bool {
    &&& actual matches Some(actual)
    &&& root matches Some(root)
    &&& crate::os_path::components(root@).is_prefix_of(crate::os_path::components(actual@))
    &&& is_file
}

/// Decides whether a file may be served, after all links were followed.
pub fn confirm_asset(actual: Option<Vec<u8>>, root: Option<Vec<u8>>, is_file: bool) -> (outcome:
    Result<(), StorybookServeError>)
    ensures
        match outcome {
            Ok(()) => may_serve(actual, root, is_file),
            Err(error) => !may_serve(actual, root, is_file) && error@ == ServeErrorView::NotFound,
        },
{
    if let Some(actual) = actual {
        if let Some(root) = root {
            if lies_below(&actual, &root) && is_file {
                return Ok(());
            }
        }
    }
    Err(StorybookServeError::NotFound)
}

/// The content type of a file with the given extension, in lower case.
pub open spec fn type_of_extension(extension: Seq<char>) -> Seq<char> {
    if extension == "html"@ || extension == "htm"@ {
        "text/html; charset=utf-8"@
    } else if extension == "js"@ || extension == "mjs"@ || extension == "cjs"@ {
        "text/javascript; charset=utf-8"@
    } else if extension == "css"@ {
        "text/css; charset=utf-8"@
    } else if extension == "json"@ || extension == "map"@ {
        "application/json; charset=utf-8"@
    } else if extension == "svg"@ {
        "image/svg+xml"@
    } else if extension == "png"@ {
        "image/png"@
    } else if extension == "jpg"@ || extension == "jpeg"@ {
        "image/jpeg"@
    } else if extension == "gif"@ {
        "image/gif"@
    } else if extension == "webp"@ {
        "image/webp"@
    } else if extension == "avif"@ {
        "image/avif"@
    } else if extension == "ico"@ {
        "image/x-icon"@
    } else if extension == "wasm"@ {
        "application/wasm"@
    } else if extension == "woff"@ {
        "font/woff"@
    } else if extension == "woff2"@ {
        "font/woff2"@
    } else if extension == "ttf"@ {
        "font/ttf"@
    } else if extension == "otf"@ {
        "font/otf"@
    } else if extension == "eot"@ {
        "application/vnd.ms-fontobject"@
    } else if extension == "txt"@ {
        "text/plain; charset=utf-8"@
    } else if extension == "xml"@ {
        "application/xml"@
    } else {
        "application/octet-stream"@
    }
}

/// The content type of a file of a bundle, by its extension in any case.
pub fn content_type_for(path: &str) -> (kind: &'static str)
    ensures
        kind@ == match crate::paths::extension(path@) {
            Some(extension) => type_of_extension(crate::text::lower(extension)),
            None => "application/octet-stream"@,
        },
{
    let extension = match path_extension(path) {
        Some(extension) => lower_text(extension.as_str()),
        None => {
            return "application/octet-stream";
        },
    };
    let extension = extension.as_str();
    if same_text(extension, "html") || same_text(extension, "htm") {
        "text/html; charset=utf-8"
    } else if same_text(extension, "js") || same_text(extension, "mjs") || same_text(
        extension,
        "cjs",
    ) {
        "text/javascript; charset=utf-8"
    } else if same_text(extension, "css") {
        "text/css; charset=utf-8"
    } else if same_text(extension, "json") || same_text(extension, "map") {
        "application/json; charset=utf-8"
    } else if same_text(extension, "svg") {
        "image/svg+xml"
    } else if same_text(extension, "png") {
        "image/png"
    } else if same_text(extension, "jpg") || same_text(extension, "jpeg") {
        "image/jpeg"
    } else if same_text(extension, "gif") {
        "image/gif"
    } else if same_text(extension, "webp") {
        "image/webp"
    } else if same_text(extension, "avif") {
        "image/avif"
    } else if same_text(extension, "ico") {
        "image/x-icon"
    } else if same_text(extension, "wasm") {
        "application/wasm"
    } else if same_text(extension, "woff") {
        "font/woff"
    } else if same_text(extension, "woff2") {
        "font/woff2"
    } else if same_text(extension, "ttf") {
        "font/ttf"
    } else if same_text(extension, "otf") {
        "font/otf"
    } else if same_text(extension, "eot") {
        "application/vnd.ms-fontobject"
    } else if same_text(extension, "txt") {
        "text/plain; charset=utf-8"
    } else if same_text(extension, "xml") {
        "application/xml"
    } else {
        "application/octet-stream"
    }
}

/// A request never leads out of the bundle's directory: the path that is
/// looked up begins with the directory's, and what it adds are names without
/// `..`.
pub proof fn law_requests_stay_inside(root: Seq<char>, rel: Seq<char>)
    requires
        crate::paths::stays_below(rel),
    ensures
        root.is_prefix_of(crate::paths::extended(root, crate::paths::parts(rel))),
        crate::paths::parts(crate::paths::extended(root, crate::paths::parts(rel)))
            == crate::paths::parts(root) + crate::paths::parts(rel),
        forall|i: int|
            0 <= i < crate::paths::parts(rel).len() ==> #[trigger] crate::paths::parts(rel)[i]
                != ".."@,
{
    crate::paths::law_parts_are_names(rel);
    crate::paths::law_names_lead_inside(root, crate::paths::parts(rel));
}

// ── the directory of a build ────────────────────────────────────────────

/// The name of the directory that serves a build.
pub fn final_name(build_id: Uuid) -> (name: String)
    ensures
        name@ == build_id.text(),
{
    build_id.to_text()
}

/// The name of a directory in which a bundle is unpacked; `drawn` was drawn
/// for it.
pub fn temporary_name(drawn: Uuid) -> (name: String)
    ensures
        name@ == ".tmp-"@ + crate::ids::hex_text(drawn.value as nat, 32),
{
    let mut name = ".tmp-".to_string();
    let digits = drawn.to_simple_text();
    name.append(digits.as_str());
    name
}

/// A directory in which a bundle is unpacked is never the one that serves a
/// build.
pub proof fn law_temporary_names_are_apart(build: Uuid, drawn: Uuid)
    ensures
        build.text() != ".tmp-"@ + crate::ids::hex_text(drawn.value as nat, 32),
{
    reveal_strlit(".tmp-");
    crate::ids::law_ids_are_plain(build);
    let other = ".tmp-"@ + crate::ids::hex_text(drawn.value as nat, 32);
    assert(other[0] == '.');
    assert(crate::ids::is_id_char(build.text()[0]));
}

/// Where the preparation of a build's directory stands, that is, what it
/// waits for.
#[derive(Debug, Clone, Copy, PartialEq, Eq, Structural)]
pub enum CacheStage {
    /// Does the final directory exist?
    Look,
    /// The lock of the build is being taken.
    Lock,
    /// Does the final directory exist by now?
    LookAgain,
    /// The bundle is being fetched.
    Download,
    /// The directory of all builds is being made.
    MakeDirectory,
    /// The bundle is being unpacked into a temporary directory.
    Extract,
    /// The temporary directory is being removed, because unpacking failed.
    Discard,
    /// What was unpacked is being renamed to the final directory.
    Publish,
    /// What is left of the temporary directory is being removed.
    Clean,
    /// Does the final directory exist, although renaming failed?
    LookOnceMore,
    /// The preparation is over.
    Done,
}

/// What came of an action.
#[derive(Debug)]
pub enum CacheEvent {
    /// Whether the final directory exists.
    Exists(bool),
    /// What was asked is done.
    Done,
    /// What was asked failed.
    Failed(String),
    /// The bundle was refused.
    Refused(BundleError),
}

/// The preparation of a build's directory.
#[derive(Debug)]
pub struct Preparation {
    stage: CacheStage,
    error: Option<StorybookServeError>,
}

/// A preparation, in the terms of the contracts.
pub struct PreparationView {
    pub stage: CacheStage,
    /// The error with which the preparation ends, or will end unless the
    /// final directory turns up.
    pub error: Option<ServeErrorView>,
}

impl View for Preparation {
    type V = PreparationView;

    closed spec fn view(&self) -> PreparationView {
        PreparationView {
            stage: self.stage,
            error: match self.error {
                Some(error) => Some(error@),
                None => None,
            },
        }
    }
}

impl PreparationView {
    /// The preparation at another stage.
    pub open spec fn at(self, stage: CacheStage) -> Self {
        PreparationView { stage, ..self }
    }

    /// The preparation at another stage, with an error.
    pub open spec fn failing(self, stage: CacheStage, error: ServeErrorView) -> Self {
        PreparationView { stage, error: Some(error) }
    }

    /// The preparation after an event. An event that does not answer what it
    /// waits for changes nothing.
    pub open spec fn next(self, event: CacheEvent) -> Self {
        match (self.stage, event) {
            (CacheStage::Look, CacheEvent::Exists(exists)) => self.at(
                if exists {
                    CacheStage::Done
                } else {
                    CacheStage::Lock
                },
            ),
            (CacheStage::Lock, CacheEvent::Done) => self.at(CacheStage::LookAgain),
            (CacheStage::LookAgain, CacheEvent::Exists(exists)) => self.at(
                if exists {
                    CacheStage::Done
                } else {
                    CacheStage::Download
                },
            ),
            (CacheStage::Download, CacheEvent::Done) => self.at(CacheStage::MakeDirectory),
            (CacheStage::Download, CacheEvent::Failed(message)) => self.failing(
                CacheStage::Done,
                ServeErrorView::Storage(message@),
            ),
            (CacheStage::MakeDirectory, CacheEvent::Done) => self.at(CacheStage::Extract),
            (CacheStage::MakeDirectory, CacheEvent::Failed(message)) => self.failing(
                CacheStage::Done,
                ServeErrorView::Io(message@),
            ),
            (CacheStage::Extract, CacheEvent::Done) => self.at(CacheStage::Publish),
            (CacheStage::Extract, CacheEvent::Refused(error)) => self.failing(
                CacheStage::Discard,
                ServeErrorView::Bundle(error@),
            ),
            (CacheStage::Extract, CacheEvent::Failed(message)) => self.failing(
                CacheStage::Discard,
                ServeErrorView::Storage("extract task join: "@ + message@),
            ),
            (CacheStage::Discard, CacheEvent::Done | CacheEvent::Failed(_)) => self.at(
                CacheStage::Done,
            ),
            (CacheStage::Publish, CacheEvent::Done) => self.at(CacheStage::Clean),
            (CacheStage::Publish, CacheEvent::Failed(message)) => self.failing(
                CacheStage::Clean,
                ServeErrorView::Io(message@),
            ),
            (CacheStage::Clean, CacheEvent::Done | CacheEvent::Failed(_)) => self.at(
                if self.error is None {
                    CacheStage::Done
                } else {
                    CacheStage::LookOnceMore
                },
            ),
            (CacheStage::LookOnceMore, CacheEvent::Exists(exists)) => if exists {
                PreparationView { stage: CacheStage::Done, error: None }
            } else {
                self.at(CacheStage::Done)
            },
            _ => self,
        }
    }
}

impl Preparation {
    /// Begins the preparation.
    pub fn begin() -> (preparation: Preparation)
        ensures
            preparation@ == (PreparationView { stage: CacheStage::Look, error: None }),
    {
        Preparation { stage: CacheStage::Look, error: None }
    }

    /// What the preparation waits for.
    pub fn stage(&self) -> (stage: CacheStage)
        ensures
            stage == self@.stage,
    {
        self.stage
    }

    /// Takes in what came of the last action.
    pub fn step(&mut self, event: CacheEvent)
        ensures
            final(self)@ == old(self)@.next(event),
    {
        match event {
            CacheEvent::Exists(exists) => match self.stage {
                CacheStage::Look => {
                    self.stage =
                    if exists {
                        CacheStage::Done
                    } else {
                        CacheStage::Lock
                    };
                },
                CacheStage::LookAgain => {
                    self.stage =
                    if exists {
                        CacheStage::Done
                    } else {
                        CacheStage::Download
                    };
                },
                CacheStage::LookOnceMore => {
                    self.stage = CacheStage::Done;
                    if exists {
                        self.error = None;
                    }
                },
                _ => {},
            },
            CacheEvent::Done => {
                self.stage =
                match self.stage {
                    CacheStage::Lock => CacheStage::LookAgain,
                    CacheStage::Download => CacheStage::MakeDirectory,
                    CacheStage::MakeDirectory => CacheStage::Extract,
                    CacheStage::Extract => CacheStage::Publish,
                    CacheStage::Discard => CacheStage::Done,
                    CacheStage::Publish => CacheStage::Clean,
                    CacheStage::Clean => self.after_cleaning(),
                    other => other,
                };
            },
            CacheEvent::Failed(message) => match self.stage {
                CacheStage::Download => {
                    self.error = Some(StorybookServeError::Storage(message));
                    self.stage = CacheStage::Done;
                },
                CacheStage::MakeDirectory => {
                    self.error = Some(StorybookServeError::Io(message));
                    self.stage = CacheStage::Done;
                },
                CacheStage::Extract => {
                    let mut text = "extract task join: ".to_string();
                    text.append(message.as_str());
                    self.error = Some(StorybookServeError::Storage(text));
                    self.stage = CacheStage::Discard;
                },
                CacheStage::Discard => {
                    self.stage = CacheStage::Done;
                },
                CacheStage::Publish => {
                    self.error = Some(StorybookServeError::Io(message));
                    self.stage = CacheStage::Clean;
                },
                CacheStage::Clean => {
                    self.stage = self.after_cleaning();
                },
                _ => {},
            },
            CacheEvent::Refused(error) => {
                if let CacheStage::Extract = self.stage {
                    self.error = Some(StorybookServeError::Bundle(error));
                    self.stage = CacheStage::Discard;
                }
            },
        }
    }

    fn after_cleaning(&self) -> (stage: CacheStage)
        ensures
            stage == if self@.error is None {
                CacheStage::Done
            } else {
                CacheStage::LookOnceMore
            },
    {
        match &self.error {
            None => CacheStage::Done,
            Some(_) => CacheStage::LookOnceMore,
        }
    }

    /// The error with which the preparation ended, if it did with one.
    pub fn into_error(self) -> (error: Option<StorybookServeError>)
        ensures
            match error {
                Some(error) => self@.error == Some(error@),
                None => self@.error is None,
            },
    {
        self.error
    }
}

// ── what holds of every preparation ─────────────────────────────────────

/// A preparation that has not begun.
pub open spec fn begun() -> PreparationView {
    PreparationView { stage: CacheStage::Look, error: None }
}

/// The preparation that sees the events of `trace`.
pub open spec fn played(trace: Seq<CacheEvent>) -> PreparationView
    decreases trace.len(),
{
    if trace.len() == 0 {
        begun()
    } else {
        played(trace.drop_last()).next(trace.last())
    }
}

/// Whether the final directory was seen, or made by renaming.
pub open spec fn is_in_place(trace: Seq<CacheEvent>) -> bool
    decreases trace.len(),
{
    trace.len() > 0 && (is_in_place(trace.drop_last()) || (match played(trace.drop_last()).stage {
        CacheStage::Look | CacheStage::LookAgain | CacheStage::LookOnceMore => trace.last() == (
        CacheEvent::Exists(true)),
        CacheStage::Publish => trace.last() is Done,
        _ => false,
    }))
}

/// Whether the lock of the build was taken.
pub open spec fn is_locked(trace: Seq<CacheEvent>) -> bool
    decreases trace.len(),
{
    trace.len() > 0 && (is_locked(trace.drop_last()) || (played(trace.drop_last()).stage
        == CacheStage::Lock && trace.last() is Done))
}

/// Whether the bundle was unpacked, or it was tried.
pub open spec fn was_unpacked(trace: Seq<CacheEvent>) -> bool
    decreases trace.len(),
{
    trace.len() > 0 && (was_unpacked(trace.drop_last()) || (played(trace.drop_last()).stage
        == CacheStage::Extract && !(trace.last() is Exists)))
}

/// Whether it was tried to remove the temporary directory.
pub open spec fn was_cleaned(trace: Seq<CacheEvent>) -> bool
    decreases trace.len(),
{
    trace.len() > 0 && (was_cleaned(trace.drop_last()) || ((played(trace.drop_last()).stage
        == CacheStage::Discard || played(trace.drop_last()).stage == CacheStage::Clean) && (
    trace.last() is Done || trace.last() is Failed)))
}

proof fn lemma_preparation_stands(trace: Seq<CacheEvent>)
    ensures
        ({
            let now = played(trace);
            match now.stage {
                CacheStage::Look | CacheStage::Lock => now.error is None && !is_in_place(trace)
                    && !was_unpacked(trace) && !was_cleaned(trace) && !is_locked(trace),
                CacheStage::LookAgain | CacheStage::Download | CacheStage::MakeDirectory
                | CacheStage::Extract => now.error is None && !is_in_place(trace) && !was_unpacked(
                    trace,
                ) && !was_cleaned(trace) && is_locked(trace),
                CacheStage::Publish => now.error is None && !is_in_place(trace) && was_unpacked(
                    trace,
                ) && !was_cleaned(trace) && is_locked(trace),
                CacheStage::Discard => now.error is Some && !is_in_place(trace) && was_unpacked(
                    trace,
                ) && !was_cleaned(trace) && is_locked(trace),
                CacheStage::Clean => (now.error is None) == is_in_place(trace) && was_unpacked(
                    trace,
                ) && !was_cleaned(trace) && is_locked(trace),
                CacheStage::LookOnceMore => now.error is Some && !is_in_place(trace)
                    && was_unpacked(trace) && was_cleaned(trace) && is_locked(trace),
                CacheStage::Done => (now.error is None) == is_in_place(trace) && was_unpacked(trace)
                    == was_cleaned(trace) && (was_unpacked(trace) ==> is_locked(trace)),
            }
        }),
    decreases trace.len(),
{
    if trace.len() > 0 {
        lemma_preparation_stands(trace.drop_last());
    }
}

/// A preparation succeeds exactly where the final directory is in place: it
/// was seen, or it was made by renaming what was unpacked.
pub proof fn law_success_means_in_place(trace: Seq<CacheEvent>)
    ensures
        played(trace).stage == CacheStage::Done ==> ((played(trace).error is None) == is_in_place(
            trace,
        )),
{
    lemma_preparation_stands(trace);
}

/// A bundle is unpacked only under the lock of its build, and whatever comes
/// of it, the temporary directory is removed before the preparation is over.
pub proof fn law_unpacking_leaves_nothing_behind(trace: Seq<CacheEvent>)
    ensures
        was_unpacked(trace) ==> is_locked(trace),
        played(trace).stage == CacheStage::Done && was_unpacked(trace) ==> was_cleaned(trace),
{
    lemma_preparation_stands(trace);
}

// ── what holds of requests and of the course of a preparation ───────────

/// A request asks for the path behind its leading slashes, however many there
/// are; nothing but slashes, or nothing at all, asks for `index.html`.
pub proof fn law_requests_begin_behind_slashes(path: Seq<char>, slashes: nat)
    ensures
        path.len() > 0 && path[0] != '/' ==> requested(crate::text::repeated('/', slashes) + path)
            == path,
        requested(crate::text::repeated('/', slashes)) == "index.html"@,
{
    crate::text::law_trimming_takes_what_was_added(path, '/', slashes);
}

/// A file at or below the bundle's directory, however deep, is served; a
/// directory is not, and neither is what does not exist.
pub proof fn law_files_below_are_served(
    root: Vec<u8>,
    actual: Vec<u8>,
    names: Seq<Seq<u8>>,
    other: Option<Vec<u8>>,
    is_file: bool,
)
    requires
        root@.len() > 0,
        forall|i: int| 0 <= i < names.len() ==> crate::os_path::is_plain_name(#[trigger] names[i]),
        actual@ == crate::os_path::continued(root@, names),
    ensures
        may_serve(Some(actual), Some(root), true),
        !may_serve(Some(actual), Some(root), false),
        !may_serve(None, other, is_file),
        !may_serve(other, None, is_file),
{
    crate::os_path::law_names_lie_below(root@, names);
}

/// Text is served with its character set: what is served as text, script, style
/// or JSON says that it is UTF-8. XML says so itself.
pub proof fn law_texts_are_utf8(extension: Seq<char>)
    ensures
        extension == "html"@ || extension == "htm"@ ==> type_of_extension(extension)
            == "text/html; charset=utf-8"@,
        extension == "js"@ || extension == "mjs"@ || extension == "cjs"@ ==> type_of_extension(
            extension,
        ) == "text/javascript; charset=utf-8"@,
        extension == "css"@ ==> type_of_extension(extension) == "text/css; charset=utf-8"@,
        extension == "json"@ || extension == "map"@ ==> type_of_extension(extension)
            == "application/json; charset=utf-8"@,
        extension == "txt"@ ==> type_of_extension(extension) == "text/plain; charset=utf-8"@,
        extension == "xml"@ ==> type_of_extension(extension) == "application/xml"@,
{
    lemma_extensions();
}

/// A picture is served as an image and a font as a font, each under the name of
/// its own format.
pub proof fn law_pictures_and_fonts_keep_their_format(extension: Seq<char>)
    ensures
        extension == "png"@ || extension == "gif"@ || extension == "webp"@ || extension == "avif"@
            ==> type_of_extension(extension) == "image/"@ + extension,
        extension == "jpg"@ || extension == "jpeg"@ ==> type_of_extension(extension)
            == "image/jpeg"@,
        extension == "svg"@ ==> type_of_extension(extension) == "image/svg+xml"@,
        extension == "ico"@ ==> type_of_extension(extension) == "image/x-icon"@,
        extension == "woff"@ || extension == "woff2"@ || extension == "ttf"@ || extension == "otf"@
            ==> type_of_extension(extension) == "font/"@ + extension,
        extension == "eot"@ ==> type_of_extension(extension) == "application/vnd.ms-fontobject"@,
        extension == "wasm"@ ==> type_of_extension(extension) == "application/wasm"@,
{
    lemma_extensions();
    reveal_strlit("image/");
    reveal_strlit("image/png");
    reveal_strlit("image/gif");
    reveal_strlit("image/webp");
    reveal_strlit("image/avif");
    reveal_strlit("font/");
    reveal_strlit("font/woff");
    reveal_strlit("font/woff2");
    reveal_strlit("font/ttf");
    reveal_strlit("font/otf");
    reveal_strlit("png");
    reveal_strlit("gif");
    reveal_strlit("webp");
    reveal_strlit("avif");
    reveal_strlit("woff");
    reveal_strlit("woff2");
    reveal_strlit("ttf");
    reveal_strlit("otf");
    assert("image/png"@ =~= "image/"@ + "png"@);
    assert("image/gif"@ =~= "image/"@ + "gif"@);
    assert("image/webp"@ =~= "image/"@ + "webp"@);
    assert("image/avif"@ =~= "image/"@ + "avif"@);
    assert("font/woff"@ =~= "font/"@ + "woff"@);
    assert("font/woff2"@ =~= "font/"@ + "woff2"@);
    assert("font/ttf"@ =~= "font/"@ + "ttf"@);
    assert("font/otf"@ =~= "font/"@ + "otf"@);
}

/// How the known extensions are spelled.
proof fn lemma_extensions()
    ensures
        "html"@.len() == 4 && "html"@[0] == 'h' && "html"@[1] == 't' && "html"@[2] == 'm'
            && "html"@[3] == 'l',
        "htm"@.len() == 3 && "htm"@[0] == 'h' && "htm"@[1] == 't' && "htm"@[2] == 'm',
        "js"@.len() == 2 && "js"@[0] == 'j' && "js"@[1] == 's',
        "mjs"@.len() == 3 && "mjs"@[0] == 'm' && "mjs"@[1] == 'j' && "mjs"@[2] == 's',
        "cjs"@.len() == 3 && "cjs"@[0] == 'c' && "cjs"@[1] == 'j' && "cjs"@[2] == 's',
        "css"@.len() == 3 && "css"@[0] == 'c' && "css"@[1] == 's' && "css"@[2] == 's',
        "json"@.len() == 4 && "json"@[0] == 'j' && "json"@[1] == 's' && "json"@[2] == 'o'
            && "json"@[3] == 'n',
        "map"@.len() == 3 && "map"@[0] == 'm' && "map"@[1] == 'a' && "map"@[2] == 'p',
        "svg"@.len() == 3 && "svg"@[0] == 's' && "svg"@[1] == 'v' && "svg"@[2] == 'g',
        "png"@.len() == 3 && "png"@[0] == 'p' && "png"@[1] == 'n' && "png"@[2] == 'g',
        "jpg"@.len() == 3 && "jpg"@[0] == 'j' && "jpg"@[1] == 'p' && "jpg"@[2] == 'g',
        "jpeg"@.len() == 4 && "jpeg"@[0] == 'j' && "jpeg"@[1] == 'p' && "jpeg"@[2] == 'e'
            && "jpeg"@[3] == 'g',
        "gif"@.len() == 3 && "gif"@[0] == 'g' && "gif"@[1] == 'i' && "gif"@[2] == 'f',
        "webp"@.len() == 4 && "webp"@[0] == 'w' && "webp"@[1] == 'e' && "webp"@[2] == 'b'
            && "webp"@[3] == 'p',
        "avif"@.len() == 4 && "avif"@[0] == 'a' && "avif"@[1] == 'v' && "avif"@[2] == 'i'
            && "avif"@[3] == 'f',
        "ico"@.len() == 3 && "ico"@[0] == 'i' && "ico"@[1] == 'c' && "ico"@[2] == 'o',
        "wasm"@.len() == 4 && "wasm"@[0] == 'w' && "wasm"@[1] == 'a' && "wasm"@[2] == 's'
            && "wasm"@[3] == 'm',
        "woff"@.len() == 4 && "woff"@[0] == 'w' && "woff"@[1] == 'o' && "woff"@[2] == 'f'
            && "woff"@[3] == 'f',
        "woff2"@.len() == 5 && "woff2"@[0] == 'w' && "woff2"@[1] == 'o' && "woff2"@[2] == 'f'
            && "woff2"@[3] == 'f' && "woff2"@[4] == '2',
        "ttf"@.len() == 3 && "ttf"@[0] == 't' && "ttf"@[1] == 't' && "ttf"@[2] == 'f',
        "otf"@.len() == 3 && "otf"@[0] == 'o' && "otf"@[1] == 't' && "otf"@[2] == 'f',
        "eot"@.len() == 3 && "eot"@[0] == 'e' && "eot"@[1] == 'o' && "eot"@[2] == 't',
        "txt"@.len() == 3 && "txt"@[0] == 't' && "txt"@[1] == 'x' && "txt"@[2] == 't',
        "xml"@.len() == 3 && "xml"@[0] == 'x' && "xml"@[1] == 'm' && "xml"@[2] == 'l',
{
    reveal_strlit("html");
    reveal_strlit("htm");
    reveal_strlit("js");
    reveal_strlit("mjs");
    reveal_strlit("cjs");
    reveal_strlit("css");
    reveal_strlit("json");
    reveal_strlit("map");
    reveal_strlit("svg");
    reveal_strlit("png");
    reveal_strlit("jpg");
    reveal_strlit("jpeg");
    reveal_strlit("gif");
    reveal_strlit("webp");
    reveal_strlit("avif");
    reveal_strlit("ico");
    reveal_strlit("wasm");
    reveal_strlit("woff");
    reveal_strlit("woff2");
    reveal_strlit("ttf");
    reveal_strlit("otf");
    reveal_strlit("eot");
    reveal_strlit("txt");
    reveal_strlit("xml");
}

/// A file with any other extension is served as bytes.
pub proof fn law_other_files_are_bytes(extension: Seq<char>)
    requires
        extension != "html"@,
        extension != "htm"@,
        extension != "js"@,
        extension != "mjs"@,
        extension != "cjs"@,
        extension != "css"@,
        extension != "json"@,
        extension != "map"@,
        extension != "svg"@,
        extension != "png"@,
        extension != "jpg"@,
        extension != "jpeg"@,
        extension != "gif"@,
        extension != "webp"@,
        extension != "avif"@,
        extension != "ico"@,
        extension != "wasm"@,
        extension != "woff"@,
        extension != "woff2"@,
        extension != "ttf"@,
        extension != "otf"@,
        extension != "eot"@,
        extension != "txt"@,
        extension != "xml"@,
    ensures
        type_of_extension(extension) == "application/octet-stream"@,
{
}

/// How many steps lie behind a stage, at most.
pub open spec fn steps_done(stage: CacheStage) -> nat {
    match stage {
        CacheStage::Look => 0,
        CacheStage::Lock => 1,
        CacheStage::LookAgain => 2,
        CacheStage::Download => 3,
        CacheStage::MakeDirectory => 4,
        CacheStage::Extract => 5,
        CacheStage::Publish => 6,
        CacheStage::Discard => 7,
        CacheStage::Clean => 7,
        CacheStage::LookOnceMore => 8,
        CacheStage::Done => 9,
    }
}

/// How a stage is counted grows with every answer: a preparation that is
/// answered is over after nine answers, and never waits for the same thing
/// twice.
pub proof fn law_preparations_end(before: PreparationView, event: CacheEvent)
    requires
        before.stage == CacheStage::Clean || before.stage == CacheStage::Discard
            || before.stage == CacheStage::LookOnceMore || before.error is None,
    ensures
        answers(before.stage, event) ==> steps_done(before.stage) < steps_done(
            before.next(event).stage,
        ) <= 9,
        !answers(before.stage, event) ==> before.next(event) == before,
        before.stage == CacheStage::Done <==> steps_done(before.stage) == 9,
{
}

/// Whether an event answers what a preparation waits for.
pub open spec fn answers(stage: CacheStage, event: CacheEvent) -> bool {
    match stage {
        CacheStage::Look | CacheStage::LookAgain | CacheStage::LookOnceMore => event is Exists,
        CacheStage::Lock => event is Done,
        CacheStage::Extract => event is Done || event is Failed || event is Refused,
        CacheStage::Done => false,
        _ => event is Done || event is Failed,
    }
}

/// What becomes of a bundle that was not there and with which nothing goes
/// wrong: it is in place. What was there from the beginning, or turned up while
/// the lock was waited for, is served at once.
pub proof fn law_good_bundles_are_put_in_place()
    ensures
        played(
            seq![
                CacheEvent::Exists(false),
                CacheEvent::Done,
                CacheEvent::Exists(false),
                CacheEvent::Done,
                CacheEvent::Done,
                CacheEvent::Done,
                CacheEvent::Done,
                CacheEvent::Done,
            ],
        ) == (PreparationView { stage: CacheStage::Done, error: None }),
        played(seq![CacheEvent::Exists(true)]) == (PreparationView {
            stage: CacheStage::Done,
            error: None,
        }),
        played(seq![CacheEvent::Exists(false), CacheEvent::Done, CacheEvent::Exists(true)]) == (
        PreparationView { stage: CacheStage::Done, error: None }),
{
    reveal_with_fuel(played, 9);
    let a = seq![
        CacheEvent::Exists(false),
        CacheEvent::Done,
        CacheEvent::Exists(false),
        CacheEvent::Done,
        CacheEvent::Done,
        CacheEvent::Done,
        CacheEvent::Done,
        CacheEvent::Done,
    ];
    assert(a.drop_last() =~= a.take(7));
    assert(a.take(7).drop_last() =~= a.take(6));
    assert(a.take(6).drop_last() =~= a.take(5));
    assert(a.take(5).drop_last() =~= a.take(4));
    assert(a.take(4).drop_last() =~= a.take(3));
    assert(a.take(3).drop_last() =~= a.take(2));
    assert(a.take(2).drop_last() =~= a.take(1));
    assert(a.take(1).drop_last() =~= Seq::<CacheEvent>::empty());
    assert(seq![CacheEvent::Exists(true)].drop_last() =~= Seq::<CacheEvent>::empty());
    let b = seq![CacheEvent::Exists(false), CacheEvent::Done, CacheEvent::Exists(true)];
    assert(b.drop_last() =~= a.take(2));
}

/// A preparation fails with what went wrong, and for nothing else; whatever
/// went wrong while the bundle was renamed is forgotten if the final directory
/// turns up.
pub proof fn law_failures_say_what_went_wrong(before: PreparationView, event: CacheEvent)
    ensures
        before.error is None ==> before.next(event).error == match (before.stage, event) {
            (CacheStage::Download, CacheEvent::Failed(message)) => Some(
                ServeErrorView::Storage(message@),
            ),
            (
                CacheStage::MakeDirectory | CacheStage::Publish,
                CacheEvent::Failed(message),
            ) => Some(ServeErrorView::Io(message@)),
            (CacheStage::Extract, CacheEvent::Refused(error)) => Some(
                ServeErrorView::Bundle(error@),
            ),
            (CacheStage::Extract, CacheEvent::Failed(message)) => Some(
                ServeErrorView::Storage("extract task join: "@ + message@),
            ),
            _ => None,
        },
        before.stage == CacheStage::Discard || before.stage == CacheStage::Clean ==> before.next(
            event,
        ).error == before.error,
        before.stage == CacheStage::LookOnceMore ==> before.next(event).error == if event
            == CacheEvent::Exists(true) {
            None
        } else {
            before.error
        },
{
}

/// Every serving error is told in full.
pub proof fn law_errors_are_told_in_full(
    message: Seq<char>,
    error: crate::render::bundle::BundleErrorView,
)
    ensures
        ServeErrorView::Storage(message).text() == "storage error: "@ + message,
        ServeErrorView::Io(message).text() == "io error: "@ + message,
        ServeErrorView::Bundle(error).text() == "bundle extraction failed: "@ + error.text(),
{
}

/// Where renaming failed, the temporary directory is removed and the final one
/// looked for once more: if it is there, all is well, else the failure counts.
/// Where unpacking failed, the temporary directory is removed and the failure
/// counts.
pub proof fn law_failures_clean_up(
    before: PreparationView,
    message: String,
    error: BundleError,
    exists: bool,
)
    ensures
        before.stage == CacheStage::Publish ==> {
            let cleaning = before.next(CacheEvent::Failed(message));
            let looking = cleaning.next(CacheEvent::Done);
            &&& cleaning.stage == CacheStage::Clean
            &&& looking.stage == CacheStage::LookOnceMore
            &&& looking.next(CacheEvent::Exists(exists)) == (PreparationView {
                stage: CacheStage::Done,
                error: if exists {
                    None
                } else {
                    Some(ServeErrorView::Io(message@))
                },
            })
        },
        before.stage == CacheStage::Extract ==> {
            &&& before.next(CacheEvent::Refused(error)).next(CacheEvent::Done) == (PreparationView {
                stage: CacheStage::Done,
                error: Some(ServeErrorView::Bundle(error@)),
            })
            &&& before.next(CacheEvent::Refused(error)).stage == CacheStage::Discard
            &&& before.next(CacheEvent::Failed(message)).stage == CacheStage::Discard
        },
        before.stage == CacheStage::Download || before.stage == CacheStage::MakeDirectory
            ==> before.next(CacheEvent::Failed(message)).stage == CacheStage::Done,
{
}

} // verus!
