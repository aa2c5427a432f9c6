//! Options, addresses, errors, and how the browser is started.
use service::render::browser::{
    base_url, is_transient_launch_error, story_url, urlencode, CdpFault, FaultKind, RenderError,
    RenderOptions, RenderedStory, DEFAULT_STORY_TIMEOUT,
};
use service::render::launch::{
    after_launch, is_blank, launch_plan, path_candidates, playwright_candidates,
    playwright_directory, profile_failure, retry_once_on_cdp, server_failure, AfterAttempt,
    AfterLaunch, ServerStep, LAUNCH_MAX_ATTEMPTS, LAUNCH_TIMEOUT,
};
use service::span::Span;

fn strings(list: &[&str]) -> Vec<String> {
    list.iter().map(|s| s.to_string()).collect()
}

#[test]
fn builds_iframe_urls() {
    assert_eq!(
        story_url("http://127.0.0.1:1234", "components-button--primary"),
        "http://127.0.0.1:1234/iframe.html?id=components-button--primary&viewMode=story"
    );
    // A slash at the end is not doubled.
    assert_eq!(
        story_url("http://127.0.0.1:1/", "a--b"),
        "http://127.0.0.1:1/iframe.html?id=a--b&viewMode=story"
    );
}

#[test]
fn escapes_unexpected_characters_in_story_ids() {
    assert_eq!(
        story_url("http://h", "a b&id=evil"),
        "http://h/iframe.html?id=a%20b%26id%3Devil&viewMode=story"
    );
}

#[test]
fn query_values_escape_every_other_byte() {
    assert_eq!(urlencode("AZaz09-_.~"), "AZaz09-_.~");
    assert_eq!(urlencode("%/é"), "%25%2F%C3%A9");
    assert_eq!(urlencode(""), "");
    assert_ne!(urlencode("%41"), urlencode("A"));
    assert_eq!(base_url("127.0.0.1:8080"), "http://127.0.0.1:8080");
}

#[test]
fn options_have_defaults() {
    let options = RenderOptions::new("/usr/bin/chromium", 800, 600);
    assert_eq!(options.chromium_path, "/usr/bin/chromium");
    assert_eq!((options.viewport_width, options.viewport_height), (800, 600));
    assert_eq!(options.story_timeout, Span::from_secs(30));
    assert_eq!(options.story_timeout, Span::from_millis(DEFAULT_STORY_TIMEOUT));
    assert!(options.freeze_before_capture && options.wait_for_fonts);
    assert!(!options.emulate_reduced_motion);
}

#[test]
fn spans_show_as_durations_do() {
    assert_eq!(Span::from_secs(30).text(), "30s");
    assert_eq!(Span::from_millis(1_500).text(), "1.5s");
    assert_eq!(Span::from_parts(0, 5).expect("nanoseconds").text(), "5ns");
    assert!(Span::from_parts(0, 1_000_000_000).is_none());
    assert_eq!(Span::from_millis(1_500).as_nanos(), 1_500_000_000);
    assert_eq!(Span::from_millis(1_500).parts(), (1, 500_000_000));
}

fn fault(kind: FaultKind, message: &str) -> CdpFault {
    CdpFault { kind, message: message.to_string() }
}

#[test]
fn errors_read_as_reported() {
    let launch = RenderError::Launch {
        path: "/x".to_string(),
        source: fault(FaultKind::Other, "gone"),
    };
    assert_eq!(launch.message(), "failed to launch chromium at /x: gone");
    assert_eq!(
        RenderError::Server("bind".to_string()).message(),
        "failed to start the bundle static server: bind"
    );
    let timeout = RenderError::Timeout {
        story_id: "a--b".to_string(),
        timeout: Span::from_secs(30),
        phase: "no render-completion signal arrived",
    };
    assert_eq!(
        timeout.message(),
        "story `a--b` did not complete within 30s: no render-completion signal arrived"
    );
    let story = RenderError::Story { story_id: "a--b".to_string(), message: "boom".to_string() };
    assert_eq!(story.message(), "story `a--b` reported a render error: boom");
    let cdp = RenderError::Cdp {
        story_id: "a--b".to_string(),
        source: fault(FaultKind::Other, "timeout"),
    };
    assert_eq!(cdp.message(), "story `a--b` failed to render: timeout");
    assert_eq!(
        server_failure(ServerStep::Bind, "in use").message(),
        "failed to start the bundle static server: bind 127.0.0.1:0: in use"
    );
    assert_eq!(
        server_failure(ServerStep::LocalAddr, "no").message(),
        "failed to start the bundle static server: local_addr: no"
    );
    assert_eq!(
        profile_failure("full").message(),
        "failed to start the bundle static server: create chromium profile dir: full"
    );
}

#[test]
fn launch_plans_follow_the_options() {
    let plan = launch_plan(&RenderOptions::new("/opt/chrome", 320, 240));
    assert_eq!(plan.executable, "/opt/chrome");
    assert_eq!(plan.profile_prefix, "vrt-chromium-");
    assert_eq!(plan.timeout, LAUNCH_TIMEOUT);
    assert_eq!((plan.width, plan.height, plan.sandbox), (320, 240, false));
    assert_eq!(
        plan.arguments,
        vec![
            "--disable-gpu",
            "--disable-dev-shm-usage",
            "--hide-scrollbars",
            "--force-device-scale-factor=1"
        ]
    );
}

fn launch_error(kind: FaultKind) -> RenderError {
    RenderError::Launch { path: "/x".to_string(), source: fault(kind, "m") }
}

#[test]
fn transient_launch_failures_are_retried_with_a_growing_pause() {
    for kind in [FaultKind::LaunchTimeout, FaultKind::LaunchExit, FaultKind::LaunchIo] {
        assert!(is_transient_launch_error(&fault(kind, "")));
        assert!(matches!(after_launch(1, launch_error(kind)), AfterLaunch::Retry(2)));
        assert!(matches!(after_launch(2, launch_error(kind)), AfterLaunch::Retry(4)));
        assert!(matches!(
            after_launch(LAUNCH_MAX_ATTEMPTS, launch_error(kind)),
            AfterLaunch::GiveUp(RenderError::Launch { .. })
        ));
    }
}

#[test]
fn launching_a_missing_chromium_fails_fast() {
    assert!(!is_transient_launch_error(&fault(FaultKind::Other, "no such file")));
    assert!(matches!(
        after_launch(1, launch_error(FaultKind::Other)),
        AfterLaunch::GiveUp(RenderError::Launch { .. })
    ));
    assert!(matches!(
        after_launch(1, RenderError::Server("x".to_string())),
        AfterLaunch::GiveUp(RenderError::Server(_))
    ));
}

fn cdp_error(story_id: &str) -> RenderError {
    RenderError::Cdp {
        story_id: story_id.to_string(),
        source: fault(FaultKind::Other, "Request timed out."),
    }
}

fn run_retry(
    script: Vec<Result<RenderedStory, RenderError>>,
) -> (Result<RenderedStory, RenderError>, u32) {
    let mut attempt = 0;
    let mut script = script;
    loop {
        attempt += 1;
        match retry_once_on_cdp(attempt, script.remove(0)) {
            AfterAttempt::Return(result) => return (result, attempt),
            AfterAttempt::Retry(error) => assert!(matches!(error, RenderError::Cdp { .. })),
        }
    }
}

#[test]
fn a_cdp_failure_is_retried_once_and_can_recover() {
    let ok = RenderedStory { png: vec![1, 2, 3], font_warning: None };
    let (result, calls) = run_retry(vec![Err(cdp_error("s--d")), Ok(ok)]);
    assert_eq!(result.unwrap().png, vec![1, 2, 3]);
    assert_eq!(calls, 2);
}

#[test]
fn a_second_cdp_failure_stops_retrying_and_stays_environmental() {
    let (result, calls) = run_retry(vec![Err(cdp_error("s--d")), Err(cdp_error("s--d"))]);
    assert!(matches!(result, Err(RenderError::Cdp { .. })));
    assert_eq!(calls, 2);
}

#[test]
fn story_scoped_failures_are_not_retried() {
    let story = RenderError::Story { story_id: "s--d".into(), message: "boom".into() };
    let (result, calls) = run_retry(vec![Err(story)]);
    assert!(matches!(result, Err(RenderError::Story { .. })));
    assert_eq!(calls, 1);

    let timeout = RenderError::Timeout {
        story_id: "s--d".into(),
        timeout: Span::from_secs(30),
        phase: "test",
    };
    let (result, calls) = run_retry(vec![Err(timeout)]);
    assert!(matches!(result, Err(RenderError::Timeout { .. })));
    assert_eq!(calls, 1);
}

#[test]
fn a_success_is_returned_without_a_second_attempt() {
    let ok = RenderedStory { png: vec![9], font_warning: None };
    let (result, calls) = run_retry(vec![Ok(ok)]);
    assert_eq!(result.unwrap().png, vec![9]);
    assert_eq!(calls, 1);
}

#[test]
fn browsers_are_looked_for_in_order() {
    assert_eq!(
        path_candidates(&strings(&["/usr/bin", "/opt/"])),
        strings(&[
            "/usr/bin/chromium",
            "/usr/bin/chromium-browser",
            "/usr/bin/google-chrome",
            "/usr/bin/google-chrome-stable",
            "/usr/bin/chrome",
            "/opt/chromium",
            "/opt/chromium-browser",
            "/opt/google-chrome",
            "/opt/google-chrome-stable",
            "/opt/chrome",
        ])
    );
    assert_eq!(
        playwright_candidates(
            "/c",
            &strings(&["chromium-1100", "firefox-1", "chromium-1200", "chromium"])
        ),
        strings(&[
            "/c/chromium-1200/chrome-linux64/chrome",
            "/c/chromium-1200/chrome-linux/chrome",
            "/c/chromium-1100/chrome-linux64/chrome",
            "/c/chromium-1100/chrome-linux/chrome",
        ])
    );
    assert_eq!(playwright_directory(Some("/p"), Some("/home/u")).as_deref(), Some("/p"));
    assert_eq!(
        playwright_directory(None, Some("/home/u")).as_deref(),
        Some("/home/u/.cache/ms-playwright")
    );
    assert_eq!(playwright_directory(None, None), None);
    assert!(is_blank("") && is_blank(" \t\u{3000}") && !is_blank(" x"));
}

#[test]
fn the_default_time_is_thirty_seconds() {
    let options = RenderOptions::new("/opt/chrome", 320, 240);
    assert_eq!(options.story_timeout.parts(), (30, 0));
    let error = RenderError::Timeout {
        story_id: "a--b".to_string(),
        timeout: options.story_timeout,
        phase: "late",
    };
    assert_eq!(error.message(), "story `a--b` did not complete within 30s: late");
}
