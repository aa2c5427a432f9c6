//! How a run gets on: what each good answer leads to, what a bad one costs,
//! and that a page which answers well is captured. Times are in nanoseconds.
use vstd::prelude::*;

use crate::render::browser::{CdpFault, RenderOptions};
use crate::render::run::{Action, Closing, Event, RunView, Stage};
use crate::render::verdict::{Check, Evaluated};

verus! {

/// `value` is a string that holds `document` as JSON.
pub open spec fn holds(value: Evaluated, document: crate::json::JsonView) -> bool {
    value matches Evaluated::Text(raw) && crate::json::json_document(raw@) == Ok::<
        crate::json::JsonView,
        Seq<char>,
    >(document)
}

/// The page says that the story is rendered.
pub open spec fn says_ready(value: Evaluated) -> bool {
    exists|document: crate::json::JsonView| #[trigger]
        holds(value, document) && document.text_at("state"@) == Some("ready"@)
}

/// The page has no Storybook runtime, but its root element has content.
pub open spec fn says_filled(value: Evaluated) -> bool {
    exists|document: crate::json::JsonView| #[trigger]
        holds(value, document) && document.text_at("state"@) == Some("absent"@) && document.bool_at(
            "dom_ready"@,
        ) == Some(true)
}

/// The page says that the story failed.
pub open spec fn says_failed(value: Evaluated) -> bool {
    exists|document: crate::json::JsonView| #[trigger]
        holds(value, document) && document.text_at("state"@) == Some("error"@)
}

/// The page says that a check of the fonts, of reduced motion or of the
/// standstill is passed.
pub open spec fn says_ok(value: Evaluated) -> bool {
    exists|document: crate::json::JsonView| #[trigger]
        holds(value, document) && document.bool_at("ok"@) == Some(true)
}

/// The page says that the fonts still stand as they were verified.
pub open spec fn says_unchanged(value: Evaluated) -> bool {
    exists|document: crate::json::JsonView| #[trigger]
        holds(value, document) && document.bool_at("verified"@) == Some(true) && document.text_at(
            "status"@,
        ) == Some("loaded"@)
}

/// The page says that the fonts no longer stand as they were verified.
pub open spec fn says_changed(value: Evaluated) -> bool {
    exists|document: crate::json::JsonView| #[trigger]
        holds(value, document) && document.bool_at("verified"@) is Some && !(document.bool_at(
            "verified"@,
        ) == Some(true) && document.text_at("status"@) == Some("loaded"@))
}

/// The run is over because its time is used up.
pub open spec fn ends_for_want_of_time(run: RunView) -> bool {
    run.outcome matches Some(
        Err(crate::render::browser::ErrorView::Timeout { story_id, timeout, phase }),
    )
}

proof fn lemma_states_differ()
    ensures
        "ready"@ != "error"@,
        "ready"@ != "absent"@,
        "error"@ != "absent"@,
{
    reveal_strlit("ready");
    reveal_strlit("error");
    reveal_strlit("absent");
    assert("ready"@[0] == 'r');
    assert("error"@[0] == 'e');
    assert("absent"@[0] == 'a');
}

/// A story that says it is rendered is believed, however late it says so: the
/// run goes on to let it settle, and nothing else of it changes.
pub proof fn law_ready_stories_settle(run: RunView, value: Evaluated, now: u128)
    requires
        run.stage is Probe,
        says_ready(value),
    ensures
        run.next(Event::Answered(value), now) == (RunView { stage: Stage::Settle, ..run }),
{
}

/// A probe is repeated, or the time is up, only where the probe failed or the
/// page did not say that the story is rendered. A story is taken for rendered
/// only where the page said so, or where it has content but no runtime and a
/// second and a half have passed.
pub proof fn law_probes_are_repeated_for_a_reason(
    run: RunView,
    since: u128,
    event: Event,
    now: u128,
)
    requires
        run.stage == (Stage::Probe { since }),
        run.outcome is None,
    ensures
        run.next(event, now).stage is Poll || ends_for_want_of_time(
            run.next(event, now),
        ) ==> match event {
            Event::Failed(_) => true,
            Event::Answered(value) => !says_ready(value) && !says_failed(value),
            _ => false,
        },
        run.next(event, now).stage is Settle ==> match event {
            Event::Answered(value) => says_ready(value) || (says_filled(value) && now - since
                >= 1_500_000_000),
            _ => false,
        },
        run.next(event, now).stage is Settle || run.next(event, now).stage is Poll || run.next(
            event,
            now,
        ).stage is Done || run.next(event, now) == run,
{
    lemma_states_differ();
    if let Event::Answered(value) = event {
        if let Evaluated::Text(raw) = value {
            if let Ok(document) = crate::json::json_document(raw@) {
                assert(holds(value, document));
            }
        }
    }
}

/// A page with content but without a runtime is believed once a second and a
/// half have passed since the round began, and not before: until then it is
/// asked again, as long as there is time.
pub proof fn law_filled_pages_are_believed_after_the_grace(
    run: RunView,
    since: u128,
    value: Evaluated,
    now: u128,
)
    requires
        run.stage == (Stage::Probe { since }),
        says_filled(value),
    ensures
        now - since >= 1_500_000_000 ==> run.next(Event::Answered(value), now) == (RunView {
            stage: Stage::Settle,
            ..run
        }),
        now - since < 1_500_000_000 && now < run.deadline ==> run.next(Event::Answered(value), now)
            == (RunView { stage: Stage::Poll { since }, ..run }),
{
    lemma_states_differ();
}

/// A story that says it failed fails the run with the message that it gives,
/// whatever the time.
pub proof fn law_failed_stories_are_reported(
    run: RunView,
    value: Evaluated,
    document: crate::json::JsonView,
    now: u128,
)
    requires
        run.stage is Probe,
        holds(value, document),
        document.text_at("state"@) == Some("error"@),
    ensures
        run.next(Event::Answered(value), now) == (RunView {
            stage: Stage::Done { opened: true },
            outcome: Some(
                Err(
                    crate::render::browser::ErrorView::Story {
                        story_id: run.story_id,
                        message: match document.text_at("message"@) {
                            Some(message) => message,
                            None => "unknown error"@,
                        },
                    },
                ),
            ),
            ..run
        }),
{
    lemma_states_differ();
}

/// A probe that failed, and an answer that says neither that the story is
/// rendered nor that it failed nor that the page has no runtime, are asked
/// again while there is time: after the pause the same round goes on. When the
/// deadline is past, the run ends for want of a signal.
pub proof fn law_undecided_probes_are_repeated(
    run: RunView,
    since: u128,
    event: Event,
    now: u128,
    later: u128,
)
    requires
        run.stage == (Stage::Probe { since }),
        match event {
            Event::Failed(_) => true,
            Event::Answered(value) => forall|document: crate::json::JsonView| #[trigger]
                holds(value, document) ==> document.text_at("state"@) != Some("ready"@)
                    && document.text_at("state"@) != Some("error"@) && document.text_at("state"@)
                    != Some("absent"@),
            _ => false,
        },
    ensures
        now < run.deadline ==> {
            let paused = run.next(event, now);
            &&& paused == (RunView { stage: Stage::Poll { since }, ..run })
            &&& paused.next(Event::Done, later) == run
        },
        now >= run.deadline ==> run.next(event, now).outcome == Some(
            Err::<(Seq<u8>, Option<Seq<char>>), crate::render::browser::ErrorView>(
                crate::render::browser::ErrorView::Timeout {
                    story_id: run.story_id,
                    timeout: run.timeout,
                    phase: "no render-completion signal arrived"@,
                },
            ),
        ),
{
    if let Event::Answered(value) = event {
        if let Evaluated::Text(raw) = value {
            if let Ok(document) = crate::json::json_document(raw@) {
                assert(holds(value, document));
            }
        }
    }
}

/// The stage at which a run stands that has yet to pass the listed checks, of
/// which it leaves out what the options switch off.
pub open spec fn first_wanted(run: RunView, checks: Seq<Check>) -> Stage
    decreases checks.len(),
{
    if checks.len() == 0 {
        Stage::Capture
    } else {
        let wanted = match checks[0] {
            Check::Fonts | Check::FontsRecheck => run.fonts,
            Check::ReducedMotion => run.reduced_motion,
            Check::Freeze => run.freeze,
        };
        if wanted {
            Stage::Evaluate(checks[0])
        } else {
            first_wanted(run, checks.drop_first())
        }
    }
}

proof fn lemma_first_wanted(run: RunView)
    ensures
        first_wanted(run, Seq::empty()) == Stage::Capture,
        first_wanted(run, seq![Check::FontsRecheck]) == run.after_freeze(),
        first_wanted(run, seq![Check::Freeze, Check::FontsRecheck]) == run.after_motion(),
        first_wanted(run, seq![Check::ReducedMotion, Check::Freeze, Check::FontsRecheck])
            == run.after_fonts(),
        first_wanted(
            run,
            seq![Check::Fonts, Check::ReducedMotion, Check::Freeze, Check::FontsRecheck],
        ) == run.after_settle(),
{
    let a = seq![Check::FontsRecheck];
    let b = seq![Check::Freeze, Check::FontsRecheck];
    let c = seq![Check::ReducedMotion, Check::Freeze, Check::FontsRecheck];
    let d = seq![Check::Fonts, Check::ReducedMotion, Check::Freeze, Check::FontsRecheck];
    assert(a.drop_first() =~= Seq::empty());
    assert(b.drop_first() =~= a);
    assert(c.drop_first() =~= b);
    assert(d.drop_first() =~= c);
    assert(a[0] == Check::FontsRecheck && b[0] == Check::Freeze && c[0] == Check::ReducedMotion
        && d[0] == Check::Fonts);
}

/// A settled story goes through the checks that the options ask for, and each
/// passed check leads to the next one of them, at whatever time the page
/// answers: the fonts, reduced motion, the standstill, the fonts once more,
/// then the picture.
pub proof fn law_passed_checks_lead_on(run: RunView, value: Evaluated, now: u128)
    ensures
        run.stage == Stage::Settle ==> run.next(Event::Done, now).stage == first_wanted(
            run,
            seq![Check::Fonts, Check::ReducedMotion, Check::Freeze, Check::FontsRecheck],
        ),
        run.stage == Stage::Evaluate(Check::Fonts) && says_ok(value) ==> run.next(
            Event::Answered(value),
            now,
        ).stage == first_wanted(
            run,
            seq![Check::ReducedMotion, Check::Freeze, Check::FontsRecheck],
        ),
        run.stage == Stage::Evaluate(Check::ReducedMotion) && says_ok(value) ==> run.next(
            Event::Answered(value),
            now,
        ).stage == first_wanted(run, seq![Check::Freeze, Check::FontsRecheck]),
        run.stage == Stage::Evaluate(Check::Freeze) && says_ok(value) ==> run.next(
            Event::Answered(value),
            now,
        ).stage == first_wanted(run, seq![Check::FontsRecheck]),
        run.stage == Stage::Evaluate(Check::FontsRecheck) && says_unchanged(value) ==> run.next(
            Event::Answered(value),
            now,
        ).stage == Stage::Capture,
{
    lemma_first_wanted(run);
}

/// The font warning of a round is the one that the answer about the fonts
/// gives rise to; no other check touches it, and the picture is handed over
/// with it.
pub proof fn law_warnings_come_with_the_picture(
    run: RunView,
    value: Evaluated,
    document: crate::json::JsonView,
    png: Vec<u8>,
    now: u128,
)
    requires
        holds(value, document),
        document.bool_at("ok"@) == Some(true),
    ensures
        run.stage == Stage::Evaluate(Check::Fonts) ==> {
            let warning = run.next(Event::Answered(value), now).warning;
            match document.items_at("failed"@) {
                Some(items) => if crate::json::texts(items).len() == 0 {
                    warning is None
                } else {
                    warning == Some(crate::render::verdict::font_warning(crate::json::texts(items)))
                },
                None => warning is None,
            }
        },
        run.stage == Stage::Evaluate(Check::ReducedMotion) || run.stage == Stage::Evaluate(
            Check::Freeze,
        ) ==> run.next(Event::Answered(value), now).warning == run.warning,
        run.stage == Stage::Capture ==> run.next(Event::Captured(png), now) == (RunView {
            stage: Stage::Done { opened: true },
            outcome: Some(Ok((png@, run.warning))),
            ..run
        }),
{
}

/// An evaluation that failed is tried again where the pause of a tenth of a
/// second ends before the deadline: the run comes back to the same check and
/// has lost nothing. Where it does not, the run ends for want of time.
pub proof fn law_failed_evaluations_are_repeated(
    run: RunView,
    check: Check,
    fault: CdpFault,
    now: u128,
    later: u128,
)
    requires
        run.stage == Stage::Evaluate(check),
    ensures
        now + 100_000_000 < run.deadline ==> {
            let paused = run.next(Event::Failed(fault), now);
            &&& paused == (RunView { stage: Stage::Retry(check), ..run })
            &&& paused.next(Event::Done, later) == run
        },
        now + 100_000_000 >= run.deadline ==> {
            let over = run.next(Event::Failed(fault), now);
            &&& over.stage == (Stage::Done { opened: true })
            &&& over.outcome matches Some(
                Err(crate::render::browser::ErrorView::Timeout { story_id, timeout, phase }),
            )
            &&& story_id == run.story_id
            &&& timeout == run.timeout
        },
{
}

/// Where the fonts no longer stand as they were verified, a new round begins
/// after a pause of a tenth of a second, if that ends before the deadline: the
/// story is probed again from the beginning, without the warning of the round
/// before. Where it does not, the run ends for want of time.
pub proof fn law_changed_fonts_begin_a_new_round(
    run: RunView,
    value: Evaluated,
    now: u128,
    later: u128,
)
    requires
        run.stage == Stage::Evaluate(Check::FontsRecheck),
        says_changed(value),
    ensures
        now + 100_000_000 < run.deadline ==> run.next(Event::Answered(value), now).next(
            Event::Done,
            later,
        ) == (RunView { stage: Stage::Probe { since: later }, warning: None, ..run }),
        now + 100_000_000 >= run.deadline ==> {
            let over = run.next(Event::Answered(value), now);
            &&& over.stage == (Stage::Done { opened: true })
            &&& over.outcome matches Some(
                Err(crate::render::browser::ErrorView::Timeout { story_id, timeout, phase }),
            )
            &&& story_id == run.story_id
            &&& timeout == run.timeout
            &&& phase == crate::render::phase::recheck_exhausted_phase()
        },
{
}

/// The time of a story runs from the moment at which its address was opened:
/// the deadline is that moment and the whole timeout, to the nanosecond.
pub proof fn law_time_runs_from_the_navigation(run: RunView, now: u128)
    requires
        run.stage == Stage::Navigate,
        now + run.timeout.seconds() * 1_000_000_000 + run.timeout.subsecond() <= u128::MAX,
    ensures
        run.next(Event::Done, now) == (RunView {
            stage: Stage::Probe { since: now },
            warning: None,
            deadline: (now + run.timeout.seconds() * 1_000_000_000 + run.timeout.subsecond()) as u128,
            ..run
        }),
{
}

/// What is done at each stage: pauses last a quarter of a second after the
/// story was rendered and a tenth of a second elsewhere, and an evaluation may
/// take all the time that is left and no more.
pub proof fn law_actions_fit_the_stage(run: RunView, now: u128, action: Action)
    requires
        run.due(now, action),
    ensures
        action == Action::Sleep(250) <==> run.stage == Stage::Settle,
        action == Action::Sleep(100) <==> (run.stage is Poll || run.stage is Retry || run.stage
            == Stage::Redo),
        action is Sleep ==> action == Action::Sleep(100) || action == Action::Sleep(250),
        action is Probe <==> run.stage is Probe,
        action is Evaluate <==> run.stage is Evaluate,
        action matches Action::Evaluate { check, remaining } ==> run.stage == Stage::Evaluate(check)
            && if now >= run.deadline {
            remaining == 0
        } else {
            now + remaining == run.deadline
        },
        action is Navigate <==> run.stage == Stage::Navigate,
        action matches Action::Navigate(url) ==> url@ == run.url,
        action is OpenPage <==> run.stage == Stage::OpenPage,
        action is EmulateReducedMotion <==> run.stage == Stage::Emulate,
        action is InstallHook <==> run.stage == Stage::InstallHook,
        action is Capture <==> run.stage == Stage::Capture,
        action is Finish <==> run.stage is Done,
{
}

/// Commands that succeed open the page: an empty page, reduced motion where it
/// is asked for, the listening script, then the story.
pub proof fn law_commands_lead_to_the_story(run: RunView, now: u128)
    ensures
        run.stage == Stage::OpenPage && run.reduced_motion ==> run.next(Event::Done, now)
            == (RunView { stage: Stage::Emulate, ..run }),
        run.stage == Stage::OpenPage && !run.reduced_motion ==> run.next(Event::Done, now)
            == (RunView { stage: Stage::InstallHook, ..run }),
        run.stage == Stage::Emulate ==> run.next(Event::Done, now) == (RunView {
            stage: Stage::InstallHook,
            ..run
        }),
        run.stage == Stage::InstallHook ==> run.next(Event::Done, now) == (RunView {
            stage: Stage::Navigate,
            ..run
        }),
{
}

/// A command that fails ends the run with the failure of the connection; a
/// page that was opened is left to be closed.
pub proof fn law_failed_commands_end_the_run(run: RunView, fault: CdpFault, now: u128)
    requires
        run.stage == Stage::OpenPage || run.stage == Stage::Emulate || run.stage
            == Stage::InstallHook || run.stage == Stage::Navigate || run.stage == Stage::Capture,
    ensures
        run.next(Event::Failed(fault), now) == (RunView {
            stage: Stage::Done { opened: run.stage != Stage::OpenPage },
            outcome: Some(
                Err(
                    crate::render::browser::ErrorView::Cdp {
                        story_id: run.story_id,
                        source: fault@,
                    },
                ),
            ),
            ..run
        }),
{
}

/// A check that is not passed fails the run as a failure of the story, and so
/// does an answer that cannot be read; neither is tried again.
pub proof fn law_failed_checks_end_the_run(run: RunView, check: Check, value: Evaluated, now: u128)
    requires
        run.stage == Stage::Evaluate(check),
        check == Check::FontsRecheck ==> !says_unchanged(value) && !says_changed(value),
        check != Check::FontsRecheck ==> !says_ok(value),
    ensures
        ({
            let over = run.next(Event::Answered(value), now);
            &&& over.stage == (Stage::Done { opened: true })
            &&& over.outcome matches Some(
                Err(crate::render::browser::ErrorView::Story { story_id, message }),
            )
            &&& story_id == run.story_id
        }),
{
    if let Evaluated::Text(raw) = value {
        if let Ok(document) = crate::json::json_document(raw@) {
            assert(holds(value, document));
        }
    }
}

/// Events that each carry a run one good step further, whatever their times:
/// commands that succeed, a story that is rendered, checks that are passed, a
/// picture that is taken.
pub open spec fn is_smooth(run: RunView, event: Event) -> bool {
    match (run.stage, event) {
        (Stage::Probe { since }, Event::Answered(value)) => says_ready(value),
        (Stage::Evaluate(Check::FontsRecheck), Event::Answered(value)) => says_unchanged(value),
        (Stage::Evaluate(check), Event::Answered(value)) => says_ok(value),
        (Stage::Capture, Event::Captured(png)) => true,
        (
            Stage::OpenPage
            | Stage::Emulate
            | Stage::InstallHook
            | Stage::Navigate
            | Stage::Poll { .. }
            | Stage::Settle
            | Stage::Retry(_)
            | Stage::Redo,
            Event::Done,
        ) => true,
        _ => false,
    }
}

/// Every event of `trace` is a good step of the run that has seen the events
/// before it.
pub open spec fn all_smooth(start: RunView, trace: Seq<(Event, u128)>) -> bool {
    forall|i: int|
        0 <= i < trace.len() ==> is_smooth(
            crate::render::run_laws::played(start, trace.take(i)),
            (#[trigger] trace[i]).0,
        )
}

/// How many good steps a run is from its end.
spec fn steps_left(run: RunView) -> nat {
    let recheck = if run.fonts {
        1nat
    } else {
        0nat
    };
    let freeze = if run.freeze {
        1nat
    } else {
        0nat
    };
    let motion = if run.reduced_motion {
        1nat
    } else {
        0nat
    };
    match run.stage {
        Stage::Done { opened } => 0,
        Stage::Capture => 1,
        Stage::Evaluate(Check::FontsRecheck) => 2,
        Stage::Evaluate(Check::Freeze) => 2 + recheck,
        Stage::Evaluate(Check::ReducedMotion) => 2 + recheck + freeze,
        Stage::Evaluate(Check::Fonts) => 2 + recheck + freeze + motion,
        Stage::Settle => 2 + recheck + recheck + freeze + motion,
        Stage::Probe { since } => 3 + recheck + recheck + freeze + motion,
        Stage::Navigate => 4 + recheck + recheck + freeze + motion,
        Stage::InstallHook => 5 + recheck + recheck + freeze + motion,
        Stage::Emulate => 6 + recheck + recheck + freeze + motion,
        Stage::OpenPage => 6 + recheck + recheck + freeze + motion + motion,
        _ => 0,
    }
}

proof fn lemma_smooth_step(run: RunView, event: Event, now: u128)
    requires
        is_smooth(run, event),
        !(run.stage is Poll || run.stage is Retry || run.stage == Stage::Redo),
        run.outcome is None,
    ensures
        ({
            let after = run.next(event, now);
            &&& steps_left(after) + 1 == steps_left(run)
            &&& !(after.stage is Poll || after.stage is Retry || after.stage == Stage::Redo)
            &&& after.stage is Done <==> after.outcome is Some
            &&& after.outcome is Some ==> after.outcome->0 is Ok
            &&& after.outcome matches Some(Ok((png, warning))) ==> event matches Event::Captured(
                taken,
            ) && taken@ == png
        }),
{
}

proof fn lemma_smooth_steps(start: RunView, trace: Seq<(Event, u128)>)
    requires
        start.stage == Stage::OpenPage,
        start.outcome is None,
        all_smooth(start, trace),
    ensures
        ({
            let run = crate::render::run_laws::played(start, trace);
            &&& trace.len() <= steps_left(start)
            &&& steps_left(run) + trace.len() == steps_left(start)
            &&& !(run.stage is Poll || run.stage is Retry || run.stage == Stage::Redo)
            &&& run.stage is Done <==> run.outcome is Some
            &&& run.outcome is Some ==> run.outcome->0 is Ok
            &&& run.outcome matches Some(Ok((png, warning))) ==> trace.last().0 matches Event::Captured(taken)
                && taken@ == png
        }),
    decreases trace.len(),
{
    if trace.len() > 0 {
        let earlier = trace.drop_last();
        assert(trace.take(trace.len() - 1) =~= earlier);
        assert forall|i: int| 0 <= i < earlier.len() implies is_smooth(
            crate::render::run_laws::played(start, earlier.take(i)),
            (#[trigger] earlier[i]).0,
        ) by {
            assert(earlier.take(i) =~= trace.take(i));
            assert(earlier[i] == trace[i]);
        }
        lemma_smooth_steps(start, earlier);
        let run = crate::render::run_laws::played(start, earlier);
        assert(is_smooth(run, trace[trace.len() - 1].0));
        assert(!(run.stage is Done));
        lemma_smooth_step(run, trace.last().0, trace.last().1);
    }
}

/// A page that answers well is captured: a course of good steps alone, at
/// whatever times they come, never ends in an error; it is over after six
/// steps and one more for each check of the round and for the emulation of
/// reduced motion, and then its result is the picture that was taken.
pub proof fn law_good_pages_are_captured(
    options: RenderOptions,
    base_url: Seq<char>,
    story_id: Seq<char>,
    trace: Seq<(Event, u128)>,
)
    requires
        all_smooth(crate::render::run::begun(options, base_url, story_id), trace),
    ensures
        ({
            let start = crate::render::run::begun(options, base_url, story_id);
            let run = crate::render::run_laws::played(start, trace);
            let length = 6 + (if options.wait_for_fonts {
                2int
            } else {
                0int
            }) + (if options.freeze_before_capture {
                1int
            } else {
                0int
            }) + (if options.emulate_reduced_motion {
                2int
            } else {
                0int
            });
            &&& trace.len() <= length
            &&& !(run.outcome is Some && run.outcome->0 is Err)
            &&& trace.len() == length ==> {
                &&& run.outcome matches Some(Ok((png, warning)))
                &&& trace.last().0 matches Event::Captured(taken)
                &&& taken@ == png
            }
        }),
{
    let start = crate::render::run::begun(options, base_url, story_id);
    let run = crate::render::run_laws::played(start, trace);
    lemma_smooth_steps(start, trace);
    if trace.len() == steps_left(start) {
        lemma_nothing_left(run);
    }
}

/// Only a run that is over has no good steps left, among those that a course
/// of good steps comes to.
proof fn lemma_nothing_left(run: RunView)
    requires
        steps_left(run) == 0,
        !(run.stage is Poll || run.stage is Retry || run.stage == Stage::Redo),
    ensures
        run.stage is Done,
{
}

/// A run begins with an empty page, for the story's own address, with the time
/// and the checks that the options give.
pub proof fn law_runs_begin_with_the_options(
    options: RenderOptions,
    base_url: Seq<char>,
    story_id: Seq<char>,
)
    ensures
        ({
            let run = crate::render::run::begun(options, base_url, story_id);
            &&& run.stage == Stage::OpenPage
            &&& run.story_id == story_id
            &&& run.url == crate::render::browser::story_address(base_url, story_id)
            &&& run.timeout == options.story_timeout
            &&& run.freeze == options.freeze_before_capture
            &&& run.reduced_motion == options.emulate_reduced_motion
            &&& run.fonts == options.wait_for_fonts
            &&& run.warning is None
            &&& run.outcome is None
        }),
{
}

/// Events that a stage waits for.
pub open spec fn is_awaited(stage: Stage, event: Event) -> bool {
    match stage {
        Stage::OpenPage | Stage::Emulate | Stage::InstallHook | Stage::Navigate => event is Done
            || event is Failed,
        Stage::Probe { since } => event is Answered || event is Failed,
        Stage::Poll { since } => event is Done,
        Stage::Settle => event is Done,
        Stage::Evaluate(check) => event is Answered || event is Failed || event is TimedOut,
        Stage::Retry(check) => event is Done,
        Stage::Redo => event is Done,
        Stage::Capture => event is Captured || event is Failed,
        Stage::Done { opened } => false,
    }
}

/// An event that a run does not wait for changes nothing, and one that it
/// waits for always moves it on; whatever happens, it stays a run of the same
/// story with the same options.
pub proof fn law_only_awaited_events_count(run: RunView, event: Event, now: u128)
    ensures
        !is_awaited(run.stage, event) ==> run.next(event, now) == run,
        is_awaited(run.stage, event) ==> run.next(event, now).stage != run.stage,
        run.next(event, now).story_id == run.story_id,
        run.next(event, now).url == run.url,
        run.next(event, now).timeout == run.timeout,
        run.next(event, now).freeze == run.freeze,
        run.next(event, now).reduced_motion == run.reduced_motion,
        run.next(event, now).fonts == run.fonts,
{
}

/// An evaluation that the page does not answer in time ends the run at once,
/// with the phase that belongs to its check.
pub proof fn law_unanswered_evaluations_end_the_run(run: RunView, check: Check, now: u128)
    requires
        run.stage == Stage::Evaluate(check),
    ensures
        run.next(Event::TimedOut, now) == (RunView {
            stage: Stage::Done { opened: true },
            outcome: Some(
                Err(
                    crate::render::browser::ErrorView::Timeout {
                        story_id: run.story_id,
                        timeout: run.timeout,
                        phase: crate::render::phase::phase_text(
                            check,
                            crate::render::phase::Silence::TimedOut,
                        ),
                    },
                ),
            ),
            ..run
        }),
{
}

/// A page that was opened is always closed: in the background after a failure
/// of the connection, else before anything else is done.
pub proof fn law_opened_pages_are_closed(run: RunView)
    ensures
        run.stage == (Stage::Done { opened: true }) ==> run.closing() != Closing::Nothing,
        run.stage == (Stage::Done { opened: true }) && !(run.outcome matches Some(
            Err(crate::render::browser::ErrorView::Cdp { story_id, source }),
        )) ==> run.closing() == Closing::Wait,
        !(run.stage is Done) ==> run.closing() == Closing::Nothing,
{
}

} // verus!
