//! Taking in screenshots.
use service::error::{found, AppError};
use service::ids::Uuid;
use service::intake::{
    check_admission, open_failure, prepare_screenshot, upload_failure, BuildMode, BuildState,
    BuildStatus, Intake, IntakeEvent, IntakeStage, Place, Route,
};
use service::screenshots::{content_hash, encode_png, Picture};
use service::storage::{IoFault, StorageError};

fn place() -> Place {
    Place {
        tenant_id: Uuid { value: 1 },
        project_id: Uuid { value: 2 },
        build_id: Uuid { value: 3 },
    }
}

fn png() -> Vec<u8> {
    encode_png(&Picture { width: 2, height: 1, pixels: vec![0; 8] }).expect("encode")
}

fn begin(route: Route) -> Intake {
    Intake::begin(route, place(), Uuid { value: 4 }, "home", &png()).expect("valid")
}

fn open_build(plan: Option<Vec<&str>>) -> BuildState {
    BuildState {
        status: BuildStatus::Pending,
        mode: BuildMode::Screenshots,
        plan: Ok(plan.map(|names| names.into_iter().map(|n| n.to_string()).collect())),
    }
}

#[test]
fn rows_describe_the_picture() {
    let bytes = png();
    let row = prepare_screenshot(place(), Uuid { value: 4 }, "home", &bytes).expect("valid");
    assert_eq!(row.id, Uuid { value: 4 });
    assert_eq!(row.build_id, Uuid { value: 3 });
    assert_eq!(row.name, "home");
    assert_eq!((row.width, row.height), (2, 1));
    assert_eq!(row.content_hash, content_hash(&bytes));
    assert!(row.storage_key.ends_with("/00000000-0000-0000-0000-000000000004.png"));
    assert!(prepare_screenshot(place(), Uuid { value: 4 }, "home", b"no").is_err());
}

#[test]
fn a_job_stores_first_and_inserts_under_the_lock() {
    let mut intake = begin(Route::Job);
    assert_eq!(intake.stage(), IntakeStage::Upload);
    intake.step(IntakeEvent::Done);
    assert_eq!(intake.stage(), IntakeStage::LockBuild);
    intake.step(IntakeEvent::Build(Some(open_build(Some(vec!["about", "home"])))));
    assert_eq!(intake.stage(), IntakeStage::FindDuplicate);
    intake.step(IntakeEvent::Duplicate(false));
    assert_eq!(intake.stage(), IntakeStage::Insert);
    assert_eq!(intake.row().name, "home");
    intake.step(IntakeEvent::Done);
    assert_eq!(intake.stage(), IntakeStage::Done);
    assert_eq!(intake.into_answer().expect("taken").name, "home");
}

#[test]
fn a_refused_upload_of_a_job_is_deleted_again() {
    // The build is gone.
    let mut intake = begin(Route::Job);
    intake.step(IntakeEvent::Done);
    intake.step(IntakeEvent::Build(None));
    assert_eq!(intake.stage(), IntakeStage::Delete);
    intake.step(IntakeEvent::StorageFailed(StorageError::InvalidKey));
    assert_eq!(intake.stage(), IntakeStage::Done);
    assert!(matches!(intake.into_answer(), Err(AppError::NotFound)));
    // The name is taken.
    let mut intake = begin(Route::Job);
    intake.step(IntakeEvent::Done);
    intake.step(IntakeEvent::Build(Some(open_build(None))));
    intake.step(IntakeEvent::Duplicate(true));
    assert_eq!(intake.stage(), IntakeStage::Delete);
    intake.step(IntakeEvent::Done);
    assert!(matches!(intake.into_answer(), Err(AppError::Conflict)));
    // The row cannot be inserted.
    let mut intake = begin(Route::Job);
    intake.step(IntakeEvent::Done);
    intake.step(IntakeEvent::Build(Some(open_build(None))));
    intake.step(IntakeEvent::Duplicate(false));
    intake.step(IntakeEvent::DatabaseFailed(AppError::Internal("db".to_string())));
    assert_eq!(intake.stage(), IntakeStage::Delete);
    // A picture that was not stored is not deleted.
    let mut intake = begin(Route::Job);
    intake.step(IntakeEvent::StorageFailed(StorageError::Other("full".to_string())));
    assert_eq!(intake.stage(), IntakeStage::Done);
    assert!(matches!(
        intake.into_answer(),
        Err(AppError::Internal(m)) if m == "upload screenshot: full"
    ));
}

#[test]
fn the_service_checks_the_name_first() {
    let mut intake = begin(Route::Service);
    assert_eq!(intake.stage(), IntakeStage::FindDuplicate);
    intake.step(IntakeEvent::Duplicate(true));
    assert_eq!(intake.stage(), IntakeStage::Done);
    assert!(matches!(intake.into_answer(), Err(AppError::Conflict)));
    let mut intake = begin(Route::Service);
    intake.step(IntakeEvent::Duplicate(false));
    assert_eq!(intake.stage(), IntakeStage::Upload);
    intake.step(IntakeEvent::Done);
    assert_eq!(intake.stage(), IntakeStage::Insert);
    intake.step(IntakeEvent::DatabaseFailed(AppError::Conflict));
    assert_eq!(intake.stage(), IntakeStage::Done);
    assert!(matches!(intake.into_answer(), Err(AppError::Conflict)));
}

#[test]
fn builds_admit_what_they_planned() {
    assert!(check_admission(open_build(None), "any").is_ok());
    assert!(check_admission(open_build(Some(vec!["a", "b"])), "b").is_ok());
    assert!(matches!(
        check_admission(open_build(Some(vec!["a"])), "b"),
        Err(AppError::BadRequestDetail(m)) if m == "screenshot `b` is not in the capture plan \
            attached to this build; only planned names can be uploaded (re-run the plan if the \
            selection changed)"
    ));
    let mut later = open_build(None);
    later.status = BuildStatus::Later;
    assert!(matches!(check_admission(later, "a"), Err(AppError::Conflict)));
    let mut rendered = open_build(None);
    rendered.mode = BuildMode::Storybook;
    assert!(matches!(check_admission(rendered, "a"), Err(AppError::Conflict)));
    let mut broken = open_build(None);
    broken.plan = Err(AppError::Internal("plan".to_string()));
    assert!(matches!(check_admission(broken, "a"), Err(AppError::Internal(_))));
}

#[test]
fn failures_are_answered() {
    let gone = StorageError::Io(IoFault { not_found: true, message: "gone".to_string() });
    assert!(matches!(open_failure(&gone), AppError::NotFound));
    assert!(matches!(open_failure(&StorageError::InvalidKey), AppError::NotFound));
    let denied = StorageError::Io(IoFault { not_found: false, message: "denied".to_string() });
    assert!(matches!(
        open_failure(&denied),
        AppError::Internal(m) if m == "open storage stream: IO error: denied"
    ));
    assert!(matches!(
        upload_failure(&denied),
        AppError::Internal(m) if m == "upload screenshot: IO error: denied"
    ));
    assert_eq!(found(Some(7)).expect("there"), 7);
    assert!(matches!(found::<u8>(None), Err(AppError::NotFound)));
}
