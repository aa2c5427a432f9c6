//! The course of one attempt to capture a story.
use service::render::browser::{CdpFault, FaultKind, RenderError, RenderOptions, RenderedStory};
use service::render::run::{Action, Closing, Event, StoryRun};
use service::render::verdict::{Check, Evaluated};
use service::span::Span;

const MILLI: u128 = 1_000_000;

fn options() -> RenderOptions {
    let mut options = RenderOptions::new("/opt/chrome", 320, 240);
    options.story_timeout = Span::from_secs(5);
    options
}

fn fault() -> CdpFault {
    CdpFault {
        kind: FaultKind::Other,
        message: "Inspected target navigated or closed".to_string(),
    }
}

fn answered(raw: &str) -> Event {
    Event::Answered(Evaluated::Text(raw.to_string()))
}

/// A run whose story is on the page since the time zero.
fn on_story(options: &RenderOptions) -> StoryRun {
    on_named_story(options, "a--b")
}

fn on_named_story(options: &RenderOptions, story_id: &str) -> StoryRun {
    let mut run = StoryRun::new(options, "http://127.0.0.1:1/", story_id);
    assert!(matches!(run.action(0), Action::OpenPage));
    run.step(Event::Done, 0);
    if options.emulate_reduced_motion {
        assert!(matches!(run.action(0), Action::EmulateReducedMotion));
        run.step(Event::Done, 0);
    }
    assert!(matches!(run.action(0), Action::InstallHook));
    run.step(Event::Done, 0);
    match run.action(0) {
        Action::Navigate(url) => {
            let expected = format!("http://127.0.0.1:1/iframe.html?id={story_id}&viewMode=story");
            assert_eq!(url, expected)
        }
        other => panic!("expected navigation, got {other:?}"),
    }
    run.step(Event::Done, 0);
    assert!(matches!(run.action(0), Action::Probe));
    run
}

/// Lets the story be rendered and settle, at the time `now`.
fn rendered(run: &mut StoryRun, now: u128) {
    assert!(matches!(run.action(now), Action::Probe));
    run.step(answered(r#"{"state":"ready"}"#), now);
    assert!(matches!(run.action(now), Action::Sleep(250)));
    run.step(Event::Done, now);
}

fn expect_check(run: &StoryRun, now: u128, wanted: Check, left: u128) {
    match run.action(now) {
        Action::Evaluate { check, remaining } => {
            assert_eq!(check, wanted);
            assert_eq!(remaining, left);
        }
        other => panic!("expected a check, got {other:?}"),
    }
}

fn outcome(run: StoryRun) -> Result<RenderedStory, RenderError> {
    run.into_outcome().expect("the run is over")
}

fn expect_timeout(run: StoryRun, expected: &str) {
    expect_timeout_of(run, "a--b", 5, expected);
}

fn expect_timeout_of(run: StoryRun, story: &str, seconds: u64, expected: &str) {
    match outcome(run) {
        Err(RenderError::Timeout { story_id, timeout, phase }) => {
            assert_eq!(phase, expected);
            assert_eq!(timeout, Span::from_secs(seconds));
            assert_eq!(story_id, story);
        }
        other => panic!("expected a timeout, got {other:?}"),
    }
}

#[test]
fn a_verified_story_is_captured() {
    let mut options = options();
    options.emulate_reduced_motion = true;
    let mut run = on_story(&options);
    rendered(&mut run, 1_000 * MILLI);
    expect_check(&run, 1_000 * MILLI, Check::Fonts, 4_000 * MILLI);
    run.step(answered(r#"{"ok":true,"failed":["Inter"]}"#), 1_100 * MILLI);
    expect_check(&run, 1_100 * MILLI, Check::ReducedMotion, 3_900 * MILLI);
    run.step(answered(r#"{"ok":true}"#), 1_200 * MILLI);
    expect_check(&run, 1_200 * MILLI, Check::Freeze, 3_800 * MILLI);
    run.step(answered(r#"{"ok":true}"#), 1_300 * MILLI);
    expect_check(&run, 1_300 * MILLI, Check::FontsRecheck, 3_700 * MILLI);
    run.step(answered(r#"{"verified":true,"status":"loaded"}"#), 1_400 * MILLI);
    assert!(matches!(run.action(1_400 * MILLI), Action::Capture));
    run.step(Event::Captured(vec![1, 2, 3]), 1_500 * MILLI);
    assert!(matches!(run.action(1_500 * MILLI), Action::Finish));
    assert_eq!(run.closing(), Closing::Wait);
    let story = outcome(run).expect("a picture");
    assert_eq!(story.png, vec![1, 2, 3]);
    assert!(story.font_warning.expect("a warning").contains("Inter"));
}

#[test]
fn switched_off_checks_are_left_out() {
    let mut options = options();
    options.wait_for_fonts = false;
    options.freeze_before_capture = false;
    let mut run = on_story(&options);
    rendered(&mut run, 0);
    assert!(matches!(run.action(0), Action::Capture));
    run.step(Event::Captured(vec![]), 0);
    assert!(outcome(run).expect("a picture").font_warning.is_none());
}

#[test]
fn a_story_error_signal_fails_fast_with_the_reason() {
    let mut run = on_story(&options());
    run.step(answered(r#"{"state":"error","message":"storyErrored: boom"}"#), MILLI);
    assert!(matches!(
        outcome(run),
        Err(RenderError::Story { story_id, message })
            if story_id == "a--b" && message == "storyErrored: boom"
    ));
}

#[test]
fn probes_are_repeated_until_the_deadline() {
    let mut run = on_story(&options());
    for step in 0..49u128 {
        let now = step * 100 * MILLI;
        // A probe that fails while the page navigates is repeated as well.
        if step % 2 == 0 {
            run.step(Event::Failed(fault()), now);
        } else {
            run.step(answered(r#"{"state":"pending"}"#), now);
        }
        assert!(matches!(run.action(now), Action::Sleep(100)));
        run.step(Event::Done, now);
    }
    run.step(answered("garbled"), 5_000 * MILLI);
    expect_timeout(run, "no render-completion signal arrived");
}

#[test]
fn a_redo_round_regrants_the_dom_heuristic_its_signal_grace() {
    let mut options = options();
    options.freeze_before_capture = false;
    let mut run = on_story(&options);
    let absent = r#"{"state":"absent","dom_ready":true}"#;
    run.step(answered(absent), 1_499 * MILLI);
    assert!(matches!(run.action(0), Action::Sleep(100)));
    run.step(Event::Done, 1_500 * MILLI);
    run.step(answered(absent), 1_500 * MILLI);
    assert!(matches!(run.action(0), Action::Sleep(250)));
    run.step(Event::Done, 1_750 * MILLI);
    run.step(answered(r#"{"ok":true,"failed":["Old"]}"#), 1_800 * MILLI);
    run.step(answered(r#"{"verified":false,"status":"loaded"}"#), 1_900 * MILLI);
    assert!(matches!(run.action(0), Action::Sleep(100)));
    run.step(Event::Done, 2_000 * MILLI);
    // The second round counts from its own beginning.
    run.step(answered(absent), 3_499 * MILLI);
    assert!(matches!(run.action(0), Action::Sleep(100)));
    run.step(Event::Done, 3_500 * MILLI);
    run.step(answered(absent), 3_500 * MILLI);
    assert!(matches!(run.action(0), Action::Sleep(250)));
    run.step(Event::Done, 3_750 * MILLI);
    run.step(answered(r#"{"ok":true}"#), 3_800 * MILLI);
    run.step(answered(r#"{"verified":true,"status":"loaded"}"#), 3_900 * MILLI);
    run.step(Event::Captured(vec![7]), 4_000 * MILLI);
    // The warning of the first round does not belong to this picture.
    assert!(outcome(run).expect("a picture").font_warning.is_none());
}

#[test]
fn a_dom_without_content_is_not_ready() {
    let mut run = on_story(&options());
    run.step(answered(r#"{"state":"absent","dom_ready":false}"#), 3_000 * MILLI);
    assert!(matches!(run.action(0), Action::Sleep(100)));
}

/// Brings a run to a check, at the time zero.
fn at_check(wanted: Check) -> StoryRun {
    at_check_of("a--b", 5, wanted)
}

fn at_check_of(story_id: &str, seconds: u64, wanted: Check) -> StoryRun {
    let mut options = options();
    options.emulate_reduced_motion = true;
    options.story_timeout = Span::from_secs(seconds);
    let mut run = on_named_story(&options, story_id);
    rendered(&mut run, 0);
    for check in [Check::Fonts, Check::ReducedMotion, Check::Freeze, Check::FontsRecheck] {
        expect_check(&run, 0, check, u128::from(seconds) * 1_000 * MILLI);
        if check == wanted {
            break;
        }
        run.step(answered(r#"{"ok":true}"#), 0);
    }
    run
}

#[test]
fn evaluate_retry_exhaustion_falls_to_the_paths_own_phase() {
    let cases: [(Check, &str); 4] = [
        (
            Check::ReducedMotion,
            "the reduced-motion verification evaluate kept failing until the story deadline",
        ),
        (
            Check::Freeze,
            "the freeze evaluate kept failing until the story deadline (the page may be \
             navigating or reloading, or its pending callbacks were collected)",
        ),
        (
            Check::Fonts,
            "the fonts-ready wait evaluate kept failing until the story deadline",
        ),
        (
            Check::FontsRecheck,
            "the fonts recheck evaluate kept failing until the story deadline",
        ),
    ];
    for (check, expected) in cases {
        // 250 milliseconds are left, and every evaluation fails at once.
        let mut run = at_check_of("story-x", 7, check);
        let mut now = 6_750 * MILLI;
        let mut attempts = 0;
        loop {
            match run.action(now) {
                Action::Evaluate { check: asked, remaining } => {
                    assert_eq!((asked, remaining), (check, 7_000 * MILLI - now));
                    attempts += 1;
                    run.step(Event::Failed(fault()), now);
                }
                Action::Sleep(millis) => {
                    now += u128::from(millis) * MILLI;
                    run.step(Event::Done, now);
                }
                Action::Finish => break,
                other => panic!("expected a retry, got {other:?}"),
            }
        }
        assert!(attempts > 1, "a failed evaluation must be tried again, got {attempts} attempt(s)");
        expect_timeout_of(run, "story-x", 7, expected);
    }
}

#[test]
fn evaluate_that_never_returns_falls_to_the_paths_own_timeout_phase() {
    let cases: [(Check, &str); 4] = [
        (
            Check::ReducedMotion,
            "the reduced-motion verification never returned a verdict",
        ),
        (
            Check::Freeze,
            "the freeze did not finish: the page never yielded a verdict \
             (requestAnimationFrame may not be firing)",
        ),
        (
            Check::Fonts,
            "the fonts-ready wait never finished: document.fonts.ready did not resolve within \
             the story deadline",
        ),
        (
            Check::FontsRecheck,
            "the fonts recheck before the capture never returned a verdict",
        ),
    ];
    for (check, expected) in cases {
        let mut run = at_check_of("story-y", 9, check);
        expect_check(&run, 8_800 * MILLI, check, 200 * MILLI);
        run.step(Event::TimedOut, 9_000 * MILLI);
        expect_timeout_of(run, "story-y", 9, expected);
    }
}

#[test]
fn evaluate_retries_until_the_error_clears() {
    let mut run = at_check_of("story-z", 5, Check::Freeze);
    let mut attempts = 1;
    for _ in 0..2 {
        run.step(Event::Failed(fault()), MILLI);
        run.step(Event::Done, MILLI);
        expect_check(&run, MILLI, Check::Freeze, 4_999 * MILLI);
        attempts += 1;
    }
    assert_eq!(attempts, 3, "the first two failures must be retried");
    run.step(answered(r#"{"ok":true}"#), MILLI);
    expect_check(&run, MILLI, Check::FontsRecheck, 4_999 * MILLI);
}

#[test]
fn a_second_wave_that_never_ends_times_out_without_capturing() {
    let mut run = at_check(Check::FontsRecheck);
    run.step(answered(r#"{"verified":true,"status":"loading"}"#), 4_900 * MILLI);
    expect_timeout(
        run,
        "the fonts verification could not be re-established before the capture: the document \
         kept being replaced or kept starting new font loads until the story deadline",
    );
}

#[test]
fn garbled_answers_fail_instead_of_silently_succeeding() {
    for check in [Check::Fonts, Check::ReducedMotion, Check::Freeze, Check::FontsRecheck] {
        let mut run = at_check(check);
        run.step(answered("garbled"), MILLI);
        assert!(matches!(outcome(run), Err(RenderError::Story { .. })));
    }
}

#[test]
fn connection_failures_of_commands_end_the_run() {
    let mut options = options();
    options.emulate_reduced_motion = true;
    for commands in 0..4 {
        let mut run = StoryRun::new(&options, "http://h", "a--b");
        for _ in 0..commands {
            run.step(Event::Done, 0);
        }
        run.step(Event::Failed(fault()), 0);
        let expected = if commands == 0 { Closing::Nothing } else { Closing::Background };
        assert_eq!(run.closing(), expected);
        assert!(matches!(outcome(run), Err(RenderError::Cdp { .. })));
    }
    let mut run = at_check(Check::FontsRecheck);
    run.step(answered(r#"{"verified":true,"status":"loaded"}"#), 0);
    run.step(Event::Failed(fault()), 0);
    assert_eq!(run.closing(), Closing::Background);
    assert!(matches!(outcome(run), Err(RenderError::Cdp { .. })));
}

#[test]
fn events_out_of_turn_change_nothing() {
    let mut run = on_story(&options());
    run.step(Event::Captured(vec![1]), 0);
    run.step(Event::TimedOut, 0);
    run.step(Event::Done, 0);
    assert!(matches!(run.action(0), Action::Probe));
    assert!(run.into_outcome().is_none());
}
