//! Taking in screenshots: the row that is stored for one, and the course of an
//! upload by a continuous integration job.
use vstd::prelude::*;
use vstd::string::*;

use crate::error::AppError;
use crate::ids::{Uuid, screenshot_key};
use crate::screenshots::{content_hash, validate_png};
use crate::storage::StorageError;
use crate::text::same_text;

verus! {

/// What is stored of a screenshot, but for the time and the metadata that may
/// come with it.
#[derive(Debug)]
pub struct ScreenshotRow {
    pub id: Uuid,
    pub build_id: Uuid,
    pub name: String,
    pub storage_key: String,
    pub width: i32,
    pub height: i32,
    pub content_hash: String,
}

/// A row, in the terms of the contracts.
pub struct RowView {
    pub id: Uuid,
    pub build_id: Uuid,
    pub name: Seq<char>,
    pub storage_key: Seq<char>,
    pub width: i32,
    pub height: i32,
    pub content_hash: Seq<char>,
}

impl View for ScreenshotRow {
    type V = RowView;

    open spec fn view(&self) -> RowView {
        RowView {
            id: self.id,
            build_id: self.build_id,
            name: self.name@,
            storage_key: self.storage_key@,
            width: self.width,
            height: self.height,
            content_hash: self.content_hash@,
        }
    }
}

/// Where a screenshot belongs.
#[derive(Debug, Clone, Copy, PartialEq, Eq, Structural)]
pub struct Place {
    pub tenant_id: Uuid,
    pub project_id: Uuid,
    pub build_id: Uuid,
}

/// The row of a screenshot with the given dimensions.
pub open spec fn row_of(
    place: Place,
    id: Uuid,
    name: Seq<char>,
    bytes: Seq<u8>,
    dimensions: (u32, u32),
) -> RowView {
    RowView {
        id,
        build_id: place.build_id,
        name,
        storage_key: crate::ids::screenshot_key_text(
            place.tenant_id,
            place.project_id,
            place.build_id,
            id,
        ),
        width: dimensions.0 as i32,
        height: dimensions.1 as i32,
        content_hash: crate::screenshots::hash_text(crate::screenshots::sha256(bytes)),
    }
}

/// Validates an uploaded picture and makes its row; `id` is the identifier
/// that was drawn for it.
pub fn prepare_screenshot(place: Place, id: Uuid, name: &str, bytes: &[u8]) -> (outcome: Result<
    ScreenshotRow,
    AppError,
>)
    ensures
        match outcome {
            Ok(row) => crate::screenshots::png_outcome(bytes@) matches Ok(dimensions) && row@
                == row_of(place, id, name@, bytes@, dimensions) && row.width == dimensions.0
                && row.height == dimensions.1 && row.id == id && row.build_id == place.build_id
                && row.name@ == name@ && row.storage_key@ == "tenants/"@ + place.tenant_id.text()
                + "/projects/"@ + place.project_id.text() + "/builds/"@ + place.build_id.text()
                + "/"@ + id.text() + ".png"@ && row.content_hash@ == "sha256:"@
                + crate::screenshots::hex(crate::screenshots::sha256(bytes@)),
            Err(error) => crate::screenshots::png_outcome(bytes@) == Err::<
                (u32, u32),
                crate::error::AppErrorView,
            >(error@),
        },
{
    let (width, height) = match validate_png(bytes) {
        Ok(dimensions) => dimensions,
        Err(error) => {
            return Err(error);
        },
    };
    proof {
        reveal_strlit("sha256");
        reveal_strlit(":");
        reveal_strlit("sha256:");
        assert("sha256:"@ =~= "sha256"@ + ":"@);
    }
    Ok(
        ScreenshotRow {
            id,
            build_id: place.build_id,
            name: name.to_string(),
            storage_key: screenshot_key(place.tenant_id, place.project_id, place.build_id, id),
            width: width as i32,
            height: height as i32,
            content_hash: content_hash(bytes),
        },
    )
}

/// The answer to a picture that the store did not take.
pub fn upload_failure(error: &StorageError) -> (answer: AppError)
    ensures
        answer@ == crate::error::AppErrorView::Internal("upload screenshot: "@ + error@.text()),
{
    let mut text = "upload screenshot: ".to_string();
    let shown = error.message();
    text.append(shown.as_str());
    AppError::Internal(text)
}

/// The answer to a picture that cannot be opened: that there is none, if the
/// file does not exist or the key names no object.
pub fn open_failure(error: &StorageError) -> (answer: AppError)
    ensures
        answer@ == match error@ {
            crate::storage::StorageErrorView::Io { not_found: true, message } =>
                crate::error::AppErrorView::NotFound,
            crate::storage::StorageErrorView::InvalidKey => crate::error::AppErrorView::NotFound,
            other => crate::error::AppErrorView::Internal("open storage stream: "@ + other.text()),
        },
{
    match error {
        StorageError::Io(fault) => if fault.not_found {
            return AppError::NotFound;
        },
        StorageError::InvalidKey => {
            return AppError::NotFound;
        },
        _ => {},
    }
    let mut text = "open storage stream: ".to_string();
    let shown = error.message();
    text.append(shown.as_str());
    AppError::Internal(text)
}

// ── uploads by a job ────────────────────────────────────────────────────

/// What a build is doing.
#[derive(Debug, Clone, Copy, PartialEq, Eq, Structural)]
pub enum BuildStatus {
    /// It takes in screenshots.
    Pending,
    /// It is past that.
    Later,
}

/// Where the screenshots of a build come from.
#[derive(Debug, Clone, Copy, PartialEq, Eq, Structural)]
pub enum BuildMode {
    /// The job takes them.
    Screenshots,
    /// They are rendered from a bundle.
    Storybook,
}

/// What is read of a build while its row is locked.
#[derive(Debug)]
pub struct BuildState {
    pub status: BuildStatus,
    pub mode: BuildMode,
    /// The names of the plan that is attached to the build, if one is; or the
    /// error of a plan that cannot be read.
    pub plan: Result<Option<Vec<String>>, AppError>,
}

/// The message for a name that is not in the plan.
pub open spec fn unplanned(name: Seq<char>) -> Seq<char> {
    "screenshot `"@ + name
        + "` is not in the capture plan attached to this build; only planned names can be uploaded (re-run the plan if the selection changed)"@
}

/// Whether a build takes a screenshot, and the answer if not.
pub open spec fn admission(build: BuildState, name: Seq<char>) -> Option<
    crate::error::AppErrorView,
> {
    if build.status != BuildStatus::Pending || build.mode != BuildMode::Screenshots {
        Some(crate::error::AppErrorView::Conflict)
    } else {
        match build.plan {
            Err(error) => Some(error@),
            Ok(None) => None,
            Ok(Some(names)) => if crate::text::views(names@).contains(name) {
                None
            } else {
                Some(crate::error::AppErrorView::BadRequestDetail(unplanned(name)))
            },
        }
    }
}

fn is_planned(names: &Vec<String>, name: &str) -> (planned: bool)
    ensures
        planned == crate::text::views(names@).contains(name@),
{
    let mut i: usize = 0;
    while i < names.len()
        invariant
            i <= names.len(),
            forall|k: int| 0 <= k < i ==> #[trigger] crate::text::views(names@)[k] != name@,
        decreases names.len() - i,
    {
        if same_text(names[i].as_str(), name) {
            assert(crate::text::views(names@)[i as int] == name@);
            return true;
        }
        i += 1;
    }
    false
}

/// Decides whether a build takes a screenshot.
pub fn check_admission(build: BuildState, name: &str) -> (outcome: Result<(), AppError>)
    ensures
        match outcome {
            Ok(()) => admission(build, name@) is None,
            Err(error) => admission(build, name@) == Some(error@),
        },
{
    if build.status != BuildStatus::Pending {
        return Err(AppError::Conflict);
    }
    if build.mode != BuildMode::Screenshots {
        return Err(AppError::Conflict);
    }
    match build.plan {
        Err(error) => Err(error),
        Ok(None) => Ok(()),
        Ok(Some(names)) => {
            if is_planned(&names, name) {
                Ok(())
            } else {
                let mut text = "screenshot `".to_string();
                text.append(name);
                text.append(
                    "` is not in the capture plan attached to this build; only planned names can be uploaded (re-run the plan if the selection changed)",
                );
                Err(AppError::BadRequestDetail(text))
            }
        },
    }
}

/// By which way a screenshot comes.
#[derive(Debug, Clone, Copy, PartialEq, Eq, Structural)]
pub enum Route {
    /// A job uploads it. The build is checked while its row is locked.
    Job,
    /// The service made it itself. Only its name is checked, and first.
    Service,
}

/// Where the intake of a screenshot stands, that is, what it waits for.
#[derive(Debug, Clone, Copy, PartialEq, Eq, Structural)]
pub enum IntakeStage {
    /// The picture is being stored.
    Upload,
    /// The row of the build is being locked and read.
    LockBuild,
    /// A screenshot of the same name is being looked for.
    FindDuplicate,
    /// The row is being inserted and the transaction committed.
    Insert,
    /// The stored picture is being deleted again.
    Delete,
    /// The intake is over.
    Done,
}

/// What came of an action.
#[derive(Debug)]
pub enum IntakeEvent {
    /// The picture was stored, the row inserted, or the picture deleted.
    Done,
    /// The store failed.
    StorageFailed(StorageError),
    /// The database failed.
    DatabaseFailed(AppError),
    /// The build that was found, if it was.
    Build(Option<BuildState>),
    /// Whether there is a screenshot of the same name.
    Duplicate(bool),
}

/// The intake of one screenshot. A picture that a job uploads is stored before
/// the build is locked, so that the lock is not held while the store works;
/// where the build then does not take it, it is deleted again.
#[derive(Debug)]
pub struct Intake {
    route: Route,
    row: ScreenshotRow,
    stage: IntakeStage,
    error: Option<AppError>,
}

/// An intake, in the terms of the contracts.
pub struct IntakeView {
    pub route: Route,
    pub row: RowView,
    pub stage: IntakeStage,
    /// The answer, if the screenshot is refused.
    pub error: Option<crate::error::AppErrorView>,
}

impl View for Intake {
    type V = IntakeView;

    closed spec fn view(&self) -> IntakeView {
        IntakeView {
            route: self.route,
            row: self.row@,
            stage: self.stage,
            error: match self.error {
                Some(error) => Some(error@),
                None => None,
            },
        }
    }
}

/// An intake that has not begun.
pub open spec fn begun(route: Route, row: RowView) -> IntakeView {
    IntakeView {
        route,
        row,
        stage: match route {
            Route::Job => IntakeStage::Upload,
            Route::Service => IntakeStage::FindDuplicate,
        },
        error: None,
    }
}

impl IntakeView {
    /// The intake at another stage.
    pub open spec fn at(self, stage: IntakeStage) -> Self {
        IntakeView { stage, ..self }
    }

    /// The intake, over with an error.
    pub open spec fn refused(self, error: crate::error::AppErrorView) -> Self {
        IntakeView { stage: IntakeStage::Done, error: Some(error), ..self }
    }

    /// The intake, to be undone because of an error.
    pub open spec fn undone(self, error: crate::error::AppErrorView) -> Self {
        IntakeView { stage: IntakeStage::Delete, error: Some(error), ..self }
    }

    /// The intake, to be undone if a job uploaded the picture, else over.
    pub open spec fn rejected(self, error: crate::error::AppErrorView) -> Self {
        match self.route {
            Route::Job => self.undone(error),
            Route::Service => self.refused(error),
        }
    }

    /// The intake after an event. An event that does not answer what the
    /// intake waits for changes nothing.
    pub open spec fn next(self, event: IntakeEvent) -> Self {
        match (self.stage, event) {
            (IntakeStage::Upload, IntakeEvent::Done) => self.at(
                match self.route {
                    Route::Job => IntakeStage::LockBuild,
                    Route::Service => IntakeStage::Insert,
                },
            ),
            (IntakeStage::Upload, IntakeEvent::StorageFailed(error)) => self.refused(
                crate::error::AppErrorView::Internal("upload screenshot: "@ + error@.text()),
            ),
            (IntakeStage::LockBuild, IntakeEvent::Build(None)) => self.rejected(
                crate::error::AppErrorView::NotFound,
            ),
            (IntakeStage::LockBuild, IntakeEvent::Build(Some(build))) => match admission(
                build,
                self.row.name,
            ) {
                None => self.at(IntakeStage::FindDuplicate),
                Some(error) => self.rejected(error),
            },
            (IntakeStage::FindDuplicate, IntakeEvent::Duplicate(taken)) => if taken {
                self.rejected(crate::error::AppErrorView::Conflict)
            } else {
                self.at(
                    match self.route {
                        Route::Job => IntakeStage::Insert,
                        Route::Service => IntakeStage::Upload,
                    },
                )
            },
            (IntakeStage::Insert, IntakeEvent::Done) => self.at(IntakeStage::Done),
            (
                IntakeStage::LockBuild | IntakeStage::FindDuplicate | IntakeStage::Insert,
                IntakeEvent::DatabaseFailed(error),
            ) => self.rejected(error@),
            (IntakeStage::Delete, IntakeEvent::Done | IntakeEvent::StorageFailed(_)) => self.at(
                IntakeStage::Done,
            ),
            _ => self,
        }
    }
}

impl Intake {
    /// Validates an uploaded picture and begins its intake.
    pub fn begin(route: Route, place: Place, id: Uuid, name: &str, bytes: &[u8]) -> (outcome:
        Result<Intake, AppError>)
        ensures
            match outcome {
                Ok(intake) => crate::screenshots::png_outcome(bytes@) matches Ok(dimensions)
                    && intake@ == begun(route, row_of(place, id, name@, bytes@, dimensions))
                    && intake@.row.storage_key == "tenants/"@ + place.tenant_id.text()
                    + "/projects/"@ + place.project_id.text() + "/builds/"@ + place.build_id.text()
                    + "/"@ + id.text() + ".png"@,
                Err(error) => crate::screenshots::png_outcome(bytes@) == Err::<
                    (u32, u32),
                    crate::error::AppErrorView,
                >(error@),
            },
    {
        match prepare_screenshot(place, id, name, bytes) {
            Ok(row) => {
                let stage = match route {
                    Route::Job => IntakeStage::Upload,
                    Route::Service => IntakeStage::FindDuplicate,
                };
                Ok(Intake { route, row, stage, error: None })
            },
            Err(error) => Err(error),
        }
    }

    /// What the intake waits for.
    pub fn stage(&self) -> (stage: IntakeStage)
        ensures
            stage == self@.stage,
    {
        self.stage
    }

    /// The row of the screenshot.
    pub fn row(&self) -> (row: &ScreenshotRow)
        ensures
            row@ == self@.row,
    {
        &self.row
    }

    /// Takes in what came of the last action.
    pub fn step(&mut self, event: IntakeEvent)
        ensures
            final(self)@ == old(self)@.next(event),
    {
        match event {
            IntakeEvent::Done => {
                self.stage =
                match self.stage {
                    IntakeStage::Upload => match self.route {
                        Route::Job => IntakeStage::LockBuild,
                        Route::Service => IntakeStage::Insert,
                    },
                    IntakeStage::Insert | IntakeStage::Delete => IntakeStage::Done,
                    other => other,
                };
            },
            IntakeEvent::StorageFailed(error) => match self.stage {
                IntakeStage::Upload => {
                    self.error = Some(upload_failure(&error));
                    self.stage = IntakeStage::Done;
                },
                IntakeStage::Delete => {
                    self.stage = IntakeStage::Done;
                },
                _ => {},
            },
            IntakeEvent::DatabaseFailed(error) => match self.stage {
                IntakeStage::LockBuild | IntakeStage::FindDuplicate | IntakeStage::Insert => {
                    self.reject(error);
                },
                _ => {},
            },
            IntakeEvent::Build(build) => {
                if let IntakeStage::LockBuild = self.stage {
                    match build {
                        None => self.reject(AppError::NotFound),
                        Some(build) => match check_admission(build, self.row.name.as_str()) {
                            Ok(()) => {
                                self.stage = IntakeStage::FindDuplicate;
                            },
                            Err(error) => self.reject(error),
                        },
                    }
                }
            },
            IntakeEvent::Duplicate(taken) => {
                if let IntakeStage::FindDuplicate = self.stage {
                    if taken {
                        self.reject(AppError::Conflict);
                    } else {
                        self.stage =
                        match self.route {
                            Route::Job => IntakeStage::Insert,
                            Route::Service => IntakeStage::Upload,
                        };
                    }
                }
            },
        }
    }

    fn reject(&mut self, error: AppError)
        ensures
            final(self)@ == old(self)@.rejected(error@),
    {
        self.error = Some(error);
        self.stage =
        match self.route {
            Route::Job => IntakeStage::Delete,
            Route::Service => IntakeStage::Done,
        };
    }

    /// The answer, once the intake is over: the row, or the error.
    pub fn into_answer(self) -> (answer: Result<ScreenshotRow, AppError>)
        ensures
            match answer {
                Ok(row) => self@.error is None && row@ == self@.row,
                Err(error) => self@.error == Some(error@),
            },
    {
        match self.error {
            Some(error) => Err(error),
            None => Ok(self.row),
        }
    }
}

// ── what holds of every intake ──────────────────────────────────────────

/// The intake that begins as `start` and sees the events of `trace`.
pub open spec fn played(start: IntakeView, trace: Seq<IntakeEvent>) -> IntakeView
    decreases trace.len(),
{
    if trace.len() == 0 {
        start
    } else {
        played(start, trace.drop_last()).next(trace.last())
    }
}

/// Whether the picture was stored.
pub open spec fn was_stored(start: IntakeView, trace: Seq<IntakeEvent>) -> bool
    decreases trace.len(),
{
    trace.len() > 0 && (was_stored(start, trace.drop_last()) || (played(
        start,
        trace.drop_last(),
    ).stage == IntakeStage::Upload && trace.last() is Done))
}

/// Whether it was tried to delete the picture again.
pub open spec fn was_undone(start: IntakeView, trace: Seq<IntakeEvent>) -> bool
    decreases trace.len(),
{
    trace.len() > 0 && (was_undone(start, trace.drop_last()) || (played(
        start,
        trace.drop_last(),
    ).stage == IntakeStage::Delete && (trace.last() is Done || trace.last() is StorageFailed)))
}

/// A picture that a job uploaded and whose screenshot is then refused is
/// deleted again, before the intake is over; one that is taken, or was never
/// stored, is not.
pub proof fn law_refused_pictures_are_deleted(row: RowView, trace: Seq<IntakeEvent>)
    ensures
        ({
            let start = begun(Route::Job, row);
            let intake = played(start, trace);
            if intake.stage == IntakeStage::Done {
                was_undone(start, trace) == (was_stored(start, trace) && intake.error is Some)
            } else {
                !was_undone(start, trace)
            }
        }),
{
    lemma_job_intake_stands(row, trace);
}

proof fn lemma_job_intake_stands(row: RowView, trace: Seq<IntakeEvent>)
    ensures
        ({
            let start = begun(Route::Job, row);
            let intake = played(start, trace);
            let stored = was_stored(start, trace);
            let undone = was_undone(start, trace);
            &&& intake.route == Route::Job
            &&& match intake.stage {
                IntakeStage::Upload => !stored && !undone && intake.error is None,
                IntakeStage::Delete => stored && !undone && intake.error is Some,
                IntakeStage::Done => undone == (stored && intake.error is Some),
                _ => stored && !undone && intake.error is None,
            }
        }),
    decreases trace.len(),
{
    if trace.len() > 0 {
        lemma_job_intake_stands(row, trace.drop_last());
    }
}

/// A screenshot of the service whose name is taken is refused before anything
/// is stored, and nothing is ever deleted.
pub proof fn law_taken_names_store_nothing(row: RowView, trace: Seq<IntakeEvent>)
    ensures
        ({
            let start = begun(Route::Service, row);
            &&& !was_undone(start, trace)
            &&& trace.len() > 0 && trace[0] == IntakeEvent::Duplicate(true) ==> !was_stored(
                start,
                trace,
            ) && played(start, trace).stage == IntakeStage::Done && played(start, trace).error
                == Some(crate::error::AppErrorView::Conflict)
        }),
    decreases trace.len(),
{
    lemma_service_intake_stands(row, trace);
}

proof fn lemma_service_intake_stands(row: RowView, trace: Seq<IntakeEvent>)
    ensures
        ({
            let start = begun(Route::Service, row);
            let intake = played(start, trace);
            &&& intake.route == Route::Service
            &&& !was_undone(start, trace)
            &&& intake.stage != IntakeStage::Delete
            &&& trace.len() > 0 && trace[0] == IntakeEvent::Duplicate(true) ==> !was_stored(
                start,
                trace,
            ) && intake.stage == IntakeStage::Done && intake.error == Some(
                crate::error::AppErrorView::Conflict,
            )
        }),
    decreases trace.len(),
{
    if trace.len() > 0 {
        let earlier = trace.drop_last();
        lemma_service_intake_stands(row, earlier);
        if trace.len() == 1 {
            let start = begun(Route::Service, row);
            assert(played(start, earlier) == start);
            assert(!was_stored(start, earlier));
        } else {
            assert(earlier[0] == trace[0]);
        }
    }
}

/// Whether the build was found, while its row was locked, to take the
/// screenshot.
pub open spec fn was_admitted(start: IntakeView, trace: Seq<IntakeEvent>) -> bool
    decreases trace.len(),
{
    trace.len() > 0 && (was_admitted(start, trace.drop_last()) || (played(
        start,
        trace.drop_last(),
    ).stage == IntakeStage::LockBuild && (trace.last() matches IntakeEvent::Build(Some(build))
        && admission(build, start.row.name) is None)))
}

/// Whether it was found that no screenshot has the name.
pub open spec fn was_free(start: IntakeView, trace: Seq<IntakeEvent>) -> bool
    decreases trace.len(),
{
    trace.len() > 0 && (was_free(start, trace.drop_last()) || (played(
        start,
        trace.drop_last(),
    ).stage == IntakeStage::FindDuplicate && trace.last() == IntakeEvent::Duplicate(false)))
}

/// A row is inserted, and a screenshot taken, only after its picture was
/// stored and its name found free; and where a job uploads it, only after the
/// locked build was found to take it.
pub proof fn law_taken_screenshots_were_checked(
    route: Route,
    row: RowView,
    trace: Seq<IntakeEvent>,
)
    ensures
        ({
            let start = begun(route, row);
            let intake = played(start, trace);
            intake.stage == IntakeStage::Insert || (intake.stage == IntakeStage::Done
                && intake.error is None) ==> {
                &&& was_stored(start, trace)
                &&& was_free(start, trace)
                &&& route == Route::Job ==> was_admitted(start, trace)
            }
        }),
{
    lemma_checks_stand(route, row, trace);
}

proof fn lemma_checks_stand(route: Route, row: RowView, trace: Seq<IntakeEvent>)
    ensures
        ({
            let start = begun(route, row);
            let intake = played(start, trace);
            let stored = was_stored(start, trace);
            let free = was_free(start, trace);
            let admitted = was_admitted(start, trace);
            &&& intake.route == route
            &&& intake.row == row
            &&& match intake.stage {
                IntakeStage::Upload => intake.error is None && (route == Route::Service ==> free),
                IntakeStage::LockBuild => intake.error is None && stored && route == Route::Job,
                IntakeStage::FindDuplicate => intake.error is None && (route == Route::Job
                    ==> stored && admitted),
                IntakeStage::Insert => intake.error is None && stored && free && (route
                    == Route::Job ==> admitted),
                IntakeStage::Delete => intake.error is Some,
                IntakeStage::Done => intake.error is None ==> stored && free && (route
                    == Route::Job ==> admitted),
            }
        }),
    decreases trace.len(),
{
    if trace.len() > 0 {
        lemma_checks_stand(route, row, trace.drop_last());
    }
}

/// A build that is not taking in screenshots takes none, whatever its plan.
pub proof fn law_only_pending_builds_take_screenshots(build: BuildState, name: Seq<char>)
    ensures
        admission(build, name) is None ==> build.status == BuildStatus::Pending && build.mode
            == BuildMode::Screenshots && (build.plan matches Ok(plan) && (plan matches Some(names)
            ==> crate::text::views(names@).contains(name))),
{
}

/// The row of a screenshot lies where the screenshot belongs: its key begins
/// with the tenant, the project and the build, in this order, and ends with
/// its own identifier; the row has the identifier, the name, the build and the
/// dimensions that it was made for.
pub proof fn law_rows_lie_where_they_belong(
    place: Place,
    id: Uuid,
    name: Seq<char>,
    bytes: Seq<u8>,
    dimensions: (u32, u32),
)
    requires
        dimensions.0 <= i32::MAX,
        dimensions.1 <= i32::MAX,
    ensures
        ({
            let row = row_of(place, id, name, bytes, dimensions);
            &&& ("tenants/"@ + place.tenant_id.text() + "/projects/"@ + place.project_id.text()
                + "/builds/"@ + place.build_id.text() + "/"@).is_prefix_of(row.storage_key)
            &&& (id.text() + ".png"@).is_suffix_of(row.storage_key)
            &&& row.storage_key.len() == 175
            &&& row.id == id
            &&& row.build_id == place.build_id
            &&& row.name == name
            &&& row.width == dimensions.0
            &&& row.height == dimensions.1
            &&& "sha256:"@.is_prefix_of(row.content_hash)
            &&& crate::screenshots::hex(crate::screenshots::sha256(bytes)).is_suffix_of(
                row.content_hash,
            )
        }),
{
    let row = row_of(place, id, name, bytes, dimensions);
    let front = "tenants/"@ + place.tenant_id.text() + "/projects/"@ + place.project_id.text()
        + "/builds/"@ + place.build_id.text() + "/"@;
    let end = id.text() + ".png"@;
    let key = row.storage_key;
    assert(key =~= front + end);
    assert(key.subrange(0, front.len() as int) =~= front);
    assert(key.subrange(key.len() - end.len(), key.len() as int) =~= end);
    crate::ids::law_ids_are_plain(place.tenant_id);
    crate::ids::law_ids_are_plain(place.project_id);
    crate::ids::law_ids_are_plain(place.build_id);
    crate::ids::law_ids_are_plain(id);
    reveal_strlit("tenants/");
    reveal_strlit("/projects/");
    reveal_strlit("/builds/");
    reveal_strlit("/");
    reveal_strlit(".png");
    reveal_strlit("sha256");
    reveal_strlit(":");
    reveal_strlit("sha256:");
    assert("sha256:"@ =~= "sha256"@ + ":"@);
    let hash = row.content_hash;
    let digits = crate::screenshots::hex(crate::screenshots::sha256(bytes));
    assert(hash =~= "sha256:"@ + digits);
    assert(hash.subrange(0, 7) =~= "sha256:"@);
    assert(hash.subrange(hash.len() - digits.len(), hash.len() as int) =~= digits);
}

/// A build takes a screenshot exactly if it is taking in screenshots and has
/// no plan, or a plan with the name in it, wherever in the plan it stands.
/// Else the answer is a conflict where the build does not take in screenshots,
/// the plan's own error where it cannot be read, and else a bad request.
pub proof fn law_admission_is_exact(build: BuildState, name: Seq<char>)
    ensures
        admission(build, name) is None <==> {
            &&& build.status == BuildStatus::Pending
            &&& build.mode == BuildMode::Screenshots
            &&& build.plan matches Ok(plan)
            &&& plan is None || exists|i: int|
                0 <= i < plan->0@.len() && (#[trigger] plan->0@[i])@ == name
        },
        admission(build, name) == Some(crate::error::AppErrorView::Conflict) <== build.status
            != BuildStatus::Pending || build.mode != BuildMode::Screenshots,
        build.status == BuildStatus::Pending && build.mode == BuildMode::Screenshots ==> match (
            build.plan,
            admission(build, name),
        ) {
            (Err(error), answer) => answer == Some(error@),
            (Ok(_), Some(crate::error::AppErrorView::BadRequestDetail(detail))) => (
            "screenshot `"@ + name).is_prefix_of(detail),
            (Ok(_), answer) => answer is None,
        },
{
    if let Ok(Some(names)) = build.plan {
        let views = crate::text::views(names@);
        if views.contains(name) {
            let i = choose|i: int| 0 <= i < views.len() && views[i] == name;
            assert(names@[i]@ == name);
        }
        if exists|i: int| 0 <= i < names@.len() && (#[trigger] names@[i])@ == name {
            let i = choose|i: int| 0 <= i < names@.len() && (#[trigger] names@[i])@ == name;
            assert(views[i] == name);
        }
        let front = "screenshot `"@ + name;
        assert(unplanned(name).subrange(0, front.len() as int) =~= front);
    }
}

/// What becomes of a screenshot that a job uploads and with which nothing goes
/// wrong: it is taken. The picture is stored, the build found to take it, the
/// name found free and the row inserted.
pub proof fn law_good_job_uploads_are_taken(row: RowView, build: BuildState)
    requires
        admission(build, row.name) is None,
    ensures
        ({
            let intake = played(
                begun(Route::Job, row),
                seq![
                    IntakeEvent::Done,
                    IntakeEvent::Build(Some(build)),
                    IntakeEvent::Duplicate(false),
                    IntakeEvent::Done,
                ],
            );
            intake.stage == IntakeStage::Done && intake.error is None && intake.row == row
        }),
{
    reveal_with_fuel(played, 5);
    let a = seq![
        IntakeEvent::Done,
        IntakeEvent::Build(Some(build)),
        IntakeEvent::Duplicate(false),
        IntakeEvent::Done,
    ];
    let b = seq![
        IntakeEvent::Done,
        IntakeEvent::Build(Some(build)),
        IntakeEvent::Duplicate(false),
    ];
    let c = seq![IntakeEvent::Done, IntakeEvent::Build(Some(build))];
    let d = seq![IntakeEvent::Done];
    assert(a.drop_last() =~= b);
    assert(b.drop_last() =~= c);
    assert(c.drop_last() =~= d);
    assert(d.drop_last() =~= Seq::<IntakeEvent>::empty());
}

/// What becomes of a screenshot of the service with which nothing goes wrong:
/// its name is found free, the picture stored, the row inserted.
pub proof fn law_good_service_uploads_are_taken(row: RowView)
    ensures
        ({
            let intake = played(
                begun(Route::Service, row),
                seq![IntakeEvent::Duplicate(false), IntakeEvent::Done, IntakeEvent::Done],
            );
            intake.stage == IntakeStage::Done && intake.error is None && intake.row == row
        }),
{
    reveal_with_fuel(played, 4);
    let a = seq![IntakeEvent::Duplicate(false), IntakeEvent::Done, IntakeEvent::Done];
    let b = seq![IntakeEvent::Duplicate(false), IntakeEvent::Done];
    let c = seq![IntakeEvent::Duplicate(false)];
    assert(a.drop_last() =~= b);
    assert(b.drop_last() =~= c);
    assert(c.drop_last() =~= Seq::<IntakeEvent>::empty());
}

/// An intake is refused with what went wrong, and for nothing else: with the
/// store's failure, the database's failure, the build's answer, that there is
/// no such build, or that the name is taken.
pub proof fn law_refusals_say_what_went_wrong(intake: IntakeView, event: IntakeEvent)
    requires
        intake.error is None,
    ensures
        intake.next(event).error == match (intake.stage, event) {
            (IntakeStage::Upload, IntakeEvent::StorageFailed(error)) => Some(
                crate::error::AppErrorView::Internal("upload screenshot: "@ + error@.text()),
            ),
            (IntakeStage::LockBuild, IntakeEvent::Build(None)) => Some(
                crate::error::AppErrorView::NotFound,
            ),
            (IntakeStage::LockBuild, IntakeEvent::Build(Some(build))) => admission(
                build,
                intake.row.name,
            ),
            (IntakeStage::FindDuplicate, IntakeEvent::Duplicate(true)) => Some(
                crate::error::AppErrorView::Conflict,
            ),
            (
                IntakeStage::LockBuild | IntakeStage::FindDuplicate | IntakeStage::Insert,
                IntakeEvent::DatabaseFailed(error),
            ) => Some(error@),
            _ => None,
        },
        intake.next(event).row == intake.row,
        intake.next(event).route == intake.route,
        intake.next(event).error is Some ==> intake.next(event).stage == if intake.stage
            != IntakeStage::Upload && intake.route == Route::Job {
            IntakeStage::Delete
        } else {
            IntakeStage::Done
        },
{
}

/// A refused intake keeps its answer while the picture is deleted again,
/// whether or not that succeeds, and is over then.
pub proof fn law_deleting_keeps_the_answer(intake: IntakeView, event: IntakeEvent)
    requires
        intake.stage == IntakeStage::Delete,
    ensures
        intake.next(event).error == intake.error,
        event is Done || event is StorageFailed ==> intake.next(event).stage == IntakeStage::Done,
{
}

/// Where an intake begins: a job's picture is stored first, while the service
/// first looks whether the name is free.
pub proof fn law_intakes_begin(row: RowView)
    ensures
        begun(Route::Job, row).stage == IntakeStage::Upload,
        begun(Route::Service, row).stage == IntakeStage::FindDuplicate,
        begun(Route::Job, row).row == row && begun(Route::Service, row).row == row,
        begun(Route::Job, row).error is None && begun(Route::Service, row).error is None,
{
}

/// An event that an intake does not wait for changes nothing, and one that it
/// waits for always moves it on.
pub proof fn law_only_awaited_events_count(intake: IntakeView, event: IntakeEvent)
    ensures
        ({
            let awaited = match intake.stage {
                IntakeStage::Upload | IntakeStage::Delete => event is Done || event
                    is StorageFailed,
                IntakeStage::LockBuild => event is Build || event is DatabaseFailed,
                IntakeStage::FindDuplicate => event is Duplicate || event is DatabaseFailed,
                IntakeStage::Insert => event is Done || event is DatabaseFailed,
                IntakeStage::Done => false,
            };
            if awaited {
                intake.next(event).stage != intake.stage
            } else {
                intake.next(event) == intake
            }
        }),
{
}

} // verus!
