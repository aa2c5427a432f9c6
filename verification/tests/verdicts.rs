//! What the answers of the page mean.
use serde_json::Value;
use service::json::parse_json;
use service::render::browser::RenderError;
use service::render::phase::{fonts_recheck_exhausted, no_signal, phases_of};
use service::render::verdict::{
    fonts_recheck_verdict, fonts_verdict, freeze_verdict, judge_fonts, judge_freeze,
    judge_fonts_recheck, judge_reduced_motion, not_a_document, reduced_motion_verdict, Check,
    Evaluated, Readiness, FONT_WARNING_MAX_FAMILIES,
};

fn answer(raw: &str) -> Evaluated {
    Evaluated::of(Some(&Value::String(raw.to_string())))
}

fn number(n: u64) -> Evaluated {
    Evaluated::of(Some(&Value::from(n)))
}

#[test]
fn readiness_parses_probe_results() {
    let probe = |raw: &str| Readiness::parse(&answer(raw));

    assert_eq!(probe(r#"{"state":"ready"}"#), Readiness::Ready);
    assert_eq!(
        probe(r#"{"state":"error","message":"storyErrored: boom"}"#),
        Readiness::Error("storyErrored: boom".to_string())
    );
    assert_eq!(
        probe(r#"{"state":"absent","dom_ready":true}"#),
        Readiness::Absent { dom_ready: true }
    );
    assert_eq!(
        probe(r#"{"state":"pending","dom_ready":false}"#),
        Readiness::Pending
    );
    // What cannot be read is waited for: no blank page is captured by mistake.
    assert_eq!(probe("not json"), Readiness::Pending);
    assert_eq!(Readiness::parse(&Evaluated::of(None)), Readiness::Pending);
}

#[test]
fn readiness_defaults() {
    let probe = |raw: &str| Readiness::parse(&answer(raw));
    assert_eq!(
        probe(r#"{"state":"error"}"#),
        Readiness::Error("unknown error".to_string())
    );
    assert_eq!(
        probe(r#"{"state":"error","message":7}"#),
        Readiness::Error("unknown error".to_string())
    );
    assert_eq!(
        probe(r#"{"state":"absent"}"#),
        Readiness::Absent { dom_ready: false }
    );
    assert_eq!(probe(r#"["ready"]"#), Readiness::Pending);
    assert_eq!(probe(r#"{"state":true}"#), Readiness::Pending);
    assert_eq!(Readiness::parse(&number(1)), Readiness::Pending);
}

#[test]
fn freeze_verdict_accepts_only_a_verified_ok_true() {
    assert!(freeze_verdict(&answer(r#"{"ok":true}"#), "s").is_ok());
    // More keys do not matter.
    assert!(freeze_verdict(
        &answer(r#"{"ok":true,"sweeps":3,"running":[],"errors":[],"extra":1}"#),
        "s"
    )
    .is_ok());
}

#[test]
fn freeze_verdict_reports_remaining_animations_as_a_freeze_failure() {
    let raw = answer(r#"{"ok":false,"sweeps":10,"running":["blink-a","blink-b"]}"#);
    let message = freeze_verdict(&raw, "s")
        .expect_err("ok:false must fail")
        .message();
    assert!(
        message.contains("freeze failed")
            && message.contains("2 animation(s) still running")
            && message.contains("10 sweep(s)")
            && message.contains("blink-a, blink-b"),
        "freeze failure must name the surviving animations, got {message:?}"
    );
    assert!(!message.contains("unparseable"));
}

#[test]
fn freeze_verdict_reports_css_verification_failure() {
    let raw = answer(
        r#"{"ok":false,"sweeps":2,"reason":"CSS not applied: caret-color=rgb(204, 0, 0) transition-duration=60s"}"#,
    );
    let message = freeze_verdict(&raw, "s")
        .expect_err("ok:false with reason must fail")
        .message();
    assert!(
        message.contains("freeze failed") && message.contains("CSS not applied"),
        "CSS verification failure must include the reason, got {message:?}"
    );
    assert!(
        !message.contains("still running"),
        "a CSS failure must not be reported as an animation failure"
    );
}

#[test]
fn freeze_verdict_rejects_a_response_it_cannot_interpret() {
    let cases: Vec<(&str, Evaluated)> = vec![
        ("evaluate returned no value", Evaluated::of(None)),
        ("non-string value", number(42)),
        ("non-JSON string", answer("not json")),
        ("missing ok key", answer(r#"{"sweeps":2,"running":[]}"#)),
        ("non-boolean ok", answer(r#"{"ok":"true"}"#)),
        ("null ok", answer(r#"{"ok":null}"#)),
    ];
    for (label, value) in &cases {
        let err = freeze_verdict(value, "s").expect_err(&format!(
            "{label}: an uninterpretable freeze result must fail"
        ));
        let message = err.message();
        assert!(
            message.contains("freeze result was unparseable"),
            "{label}: the error must say the result could not be parsed, got {message:?}"
        );
        assert!(
            !message.contains("freeze failed"),
            "{label}: a parse failure must not be reported as a freeze failure"
        );
    }
}

#[test]
fn freeze_messages_are_exact() {
    let message = |value: Evaluated| match freeze_verdict(&value, "a--b") {
        Err(RenderError::Story { story_id, message }) => {
            assert_eq!(story_id, "a--b");
            message
        }
        other => panic!("expected a story failure, got {other:?}"),
    };
    assert_eq!(
        message(answer(
            r#"{"ok":false,"sweeps":3,"running":["x",7,"y"],"errors":["e1",null,"e2"]}"#
        )),
        "freeze failed: 3 animation(s) still running after 3 sweep(s): [x, y] (errors: e1; e2)"
    );
    assert_eq!(
        message(answer(r#"{"ok":false,"sweeps":-1}"#)),
        "freeze failed: 0 animation(s) still running after 0 sweep(s): []"
    );
    assert_eq!(
        message(answer(r#"{"ok":false,"reason":"no","errors":[]}"#)),
        "freeze failed: no (errors: )"
    );
    assert_eq!(
        message(Evaluated::of(None)),
        "freeze result was unparseable: expected a JSON string, got None"
    );
    assert_eq!(
        message(number(42)),
        "freeze result was unparseable: expected a JSON string, got Some(Number(42))"
    );
    assert_eq!(
        message(answer(r#"{"ok":1}"#)),
        "freeze result was unparseable: missing or non-boolean `ok` key (raw: {\"ok\":1})"
    );
    assert_eq!(
        message(answer("nope")),
        "freeze result was unparseable: expected ident at line 1 column 2 (raw: nope)"
    );
}

#[test]
fn parsed_answers_are_judged_alike() {
    let parsed = |raw: &str| parse_json(raw).expect("a document");
    assert_eq!(judge_freeze(&parsed(r#"{"ok":true}"#), ""), None);
    assert_eq!(
        judge_freeze(&parsed(r#"{"ok":false,"reason":"r"}"#), ""),
        Some("freeze failed: r".to_string())
    );
    assert_eq!(judge_reduced_motion(&parsed(r#"{"ok":true}"#), ""), None);
    assert_eq!(
        judge_fonts(&parsed(r#"{"ok":false,"errors":["late"]}"#), ""),
        Err("fonts were not verified as loaded before the capture (errors: late)".to_string())
    );
    assert_eq!(
        judge_fonts_recheck(&parsed(r#"{"status":"loaded"}"#), "RAW"),
        Err(
            "fonts recheck result was unparseable: missing or non-boolean `verified` key (raw: RAW)"
                .to_string()
        )
    );
}

#[test]
fn phase_strings_stay_distinct_per_path() {
    let list = |check: Check| {
        let phases = phases_of(check);
        [phases.retry_log, phases.timeout, phases.retry_exhausted]
    };
    let reduced = list(Check::ReducedMotion);
    let freeze = list(Check::Freeze);
    let fonts = list(Check::Fonts);
    let recheck = list(Check::FontsRecheck);
    let paths = [reduced, freeze, fonts, recheck];
    for (i, a) in paths.iter().enumerate() {
        for b in paths.iter().skip(i + 1) {
            for s_a in a {
                for s_b in b {
                    assert_ne!(
                        s_a, s_b,
                        "two paths must not share a diagnostic string — a shared \
                         phase makes the failing stage unrecoverable from the logs"
                    );
                }
            }
        }
    }

    // Within a path, silence and exhausted retries are different stages.
    assert_ne!(reduced[1], reduced[2], "a timeout and an exhausted retry are different stages");
    assert_ne!(freeze[1], freeze[2], "a timeout and an exhausted retry are different stages");
    assert_ne!(fonts[1], fonts[2], "a timeout and an exhausted retry are different stages");

    // Each text names its path.
    for phase in reduced {
        assert!(
            phase.contains("reduced-motion"),
            "the reduced-motion path must name itself, got {phase:?}"
        );
    }
    for phase in freeze {
        assert!(
            phase.contains("freeze"),
            "the freeze path must name itself, got {phase:?}"
        );
    }
    for phase in fonts {
        assert!(
            phase.contains("fonts"),
            "the fonts path must name itself, got {phase:?}"
        );
    }
    for phase in recheck {
        assert!(
            phase.contains("fonts recheck"),
            "the fonts recheck path must name itself, got {phase:?}"
        );
    }
    for other in reduced.iter().chain(&freeze).chain(&fonts).chain(&recheck) {
        assert_ne!(fonts_recheck_exhausted(), *other);
        assert_ne!(no_signal(), *other);
    }
    assert!(fonts_recheck_exhausted().contains("fonts"));
}

#[test]
fn fonts_verdict_accepts_only_a_verified_ok_true() {
    let ok = answer(r#"{"ok":true,"status":"loaded","errors":[]}"#);
    let warning = fonts_verdict(&ok, "s").expect("a verified ok:true must pass");
    assert!(
        warning.is_none(),
        "no failed fonts means no warning, got {warning:?}"
    );

    let not_ok = answer(
        r#"{"ok":false,"errors":["document.fonts is missing or does not look like a FontFaceSet (status: undefined)"]}"#,
    );
    match fonts_verdict(&not_ok, "s").expect_err("ok:false must fail") {
        RenderError::Story { message, .. } => {
            assert!(
                message.contains("not verified as loaded"),
                "the failure must say what could not be verified, got: {message}"
            );
            assert!(
                message.contains("document.fonts is missing"),
                "the collected diagnostics must reach the message, got: {message}"
            );
        }
        other => panic!("expected a story-scoped failure, got: {other:?}"),
    }
}

#[test]
fn fonts_verdict_turns_failed_fonts_into_a_bounded_warning() {
    // One family: its name and the remedy, nothing folded.
    let warning = fonts_verdict(
        &answer(r#"{"ok":true,"status":"loaded","failed":["Roboto"],"errors":[]}"#),
        "s",
    )
    .expect("ok:true with failures must still pass")
    .expect("failed fonts must produce a warning");
    assert!(
        warning.contains("1 font(s) failed to load")
            && warning.contains("captured with fallback glyphs")
            && warning.contains("Roboto")
            && warning.contains("different pictures")
            && warning.contains("bundle the font files with the build"),
        "the warning must count, name the family, warn that varying external \
         responses can yield different pictures, and name the remedy, got: {warning}"
    );
    assert!(
        !warning.contains("more"),
        "one family must not be folded, got: {warning}"
    );
    assert_eq!(
        warning,
        "1 font(s) failed to load; captured with fallback glyphs: Roboto \u{2014} if the failing font \
         is an external dependency whose responses vary between runs, the same build can produce \
         different pictures; bundle the font files with the build or remove the @font-face \
         reference to restore the intended glyphs"
    );

    // More than the limit: the first ones and a count.
    let families: Vec<String> = (0..8).map(|i| format!("Family{i}")).collect();
    let raw = format!(
        r#"{{"ok":true,"status":"loaded","failed":{},"errors":[]}}"#,
        serde_json::to_string(&families).unwrap()
    );
    let warning = fonts_verdict(&answer(&raw), "s")
        .expect("ok:true with failures must still pass")
        .expect("failed fonts must produce a warning");
    assert!(
        warning.contains("8 font(s) failed to load") && warning.contains("and 3 more"),
        "the count must be the set size and the overflow must fold, got: {warning}"
    );
    assert!(
        warning.contains("Family4") && !warning.contains("Family5"),
        "only the first {FONT_WARNING_MAX_FAMILIES} families may be listed, got: {warning}"
    );

    // No list of failures: no warning.
    assert!(
        fonts_verdict(&answer(r#"{"ok":true,"status":"loaded","errors":[]}"#), "s")
            .expect("ok:true without a failed key must pass")
            .is_none()
    );
}

#[test]
fn fonts_recheck_verdict_allows_capture_only_when_still_verified() {
    assert!(
        fonts_recheck_verdict(&answer(r#"{"verified":true,"status":"loaded"}"#), "s")
            .expect("a verified loaded document must pass")
    );
    assert!(
        !fonts_recheck_verdict(&answer(r#"{"verified":false,"status":"loaded"}"#), "s")
            .expect("an unverified document must ask for a redo, not error")
    );
    assert!(
        !fonts_recheck_verdict(&answer(r#"{"verified":true,"status":"loading"}"#), "s")
            .expect("a new font wave must ask for a redo, not error")
    );
    assert!(
        !fonts_recheck_verdict(&answer(r#"{"verified":true,"status":null}"#), "s")
            .expect("an unreadable status must ask for a redo, not error")
    );
    for garbled in [
        number(42),
        answer("not json"),
        answer(r#"{"status":"loaded"}"#),
    ] {
        match fonts_recheck_verdict(&garbled, "s").expect_err("garbled recheck results must fail") {
            RenderError::Story { message, .. } => assert!(
                message.contains("fonts recheck result was unparseable"),
                "the failure must say the recheck was unparseable, got: {message}"
            ),
            other => panic!("expected a story-scoped failure, got: {other:?}"),
        }
    }
}

#[test]
fn fonts_verdict_rejects_unparseable_results() {
    let garbled = [
        number(42),
        answer("this is not json"),
        answer(r#"{"status":"loaded"}"#),
        answer(r#"{"ok":"yes"}"#),
    ];
    for value in &garbled {
        match fonts_verdict(value, "s").expect_err("garbled results must fail") {
            RenderError::Story { message, .. } => assert!(
                message.contains("unparseable"),
                "the failure must say the result was unparseable, got: {message}"
            ),
            other => panic!("expected a story-scoped failure, got: {other:?}"),
        }
    }
    match fonts_verdict(&Evaluated::of(None), "s").expect_err("a missing result must fail") {
        RenderError::Story { message, .. } => assert!(message.contains("unparseable")),
        other => panic!("expected a story-scoped failure, got: {other:?}"),
    }
}

#[test]
fn reduced_motion_verdict_accepts_only_a_verified_ok_true() {
    assert!(reduced_motion_verdict(&answer(r#"{"ok":true}"#), "s").is_ok());
    assert!(
        reduced_motion_verdict(&answer(r#"{"ok":true,"errors":[],"extra":1}"#), "s").is_ok()
    );

    let message = reduced_motion_verdict(
        &answer(r#"{"ok":false,"errors":["matchMedia does not report reduce"]}"#),
        "s",
    )
    .expect_err("ok:false must fail")
    .message();
    assert!(
        message.contains("could not be verified")
            && message.contains("matchMedia does not report reduce"),
        "the failure must carry the probe's diagnostics, got {message:?}"
    );

    let unparseable: Vec<(&str, Evaluated)> = vec![
        ("evaluate returned no value", Evaluated::of(None)),
        ("non-string value", number(42)),
        ("non-JSON string", answer("not json")),
        ("missing ok key", answer(r#"{"errors":[]}"#)),
        ("non-boolean ok", answer(r#"{"ok":"true"}"#)),
    ];
    for (label, value) in &unparseable {
        let message = reduced_motion_verdict(value, "s")
            .expect_err(&format!("{label}: must fail"))
            .message();
        assert!(
            message.contains("unparseable"),
            "{label}: the error must say the result could not be parsed, got {message:?}"
        );
    }
}

#[test]
fn refused_answers_are_quoted() {
    assert_eq!(
        not_a_document(Check::Fonts, "expected value at line 1 column 1", "oops"),
        "fonts-ready wait result was unparseable: expected value at line 1 column 1 (raw: oops)"
    );
    let shown = Evaluated::of(Some(&Value::Array(vec![Value::from(-1), Value::Null])));
    assert!(matches!(
        shown,
        Evaluated::Other(text) if text == "Some(Array [Number(-1), Null])"
    ));
    assert!(matches!(Evaluated::of(None), Evaluated::Other(text) if text == "None"));
}
