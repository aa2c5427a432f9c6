//! What holds of every course that a run can take.
use vstd::prelude::*;

use crate::render::browser::RenderOptions;
use crate::render::run::{Closing, Event, RunView, Stage};
use crate::render::verdict::{Check, Evaluated};

verus! {

/// The run that begins as `start` and sees the events of `trace`, each with
/// the time of its arrival.
pub open spec fn played(start: RunView, trace: Seq<(Event, u128)>) -> RunView
    decreases trace.len(),
{
    if trace.len() == 0 {
        start
    } else {
        played(start, trace.drop_last()).next(trace.last().0, trace.last().1)
    }
}

/// An answer that lets the run go on to the next check.
pub open spec fn passes(check: Check, value: Evaluated) -> bool {
    match check {
        Check::Fonts => crate::render::verdict::fonts_finding(value) is Ok,
        Check::ReducedMotion => crate::render::verdict::reduced_motion_finding(value) is None,
        Check::Freeze => crate::render::verdict::freeze_finding(value) is None,
        Check::FontsRecheck => crate::render::verdict::recheck_finding(value) == Ok::<
            bool,
            Seq<char>,
        >(true),
    }
}

/// An event by which the story, probed since `since`, shows itself rendered.
pub open spec fn shows_rendered(event: Event, since: u128, now: u128) -> bool {
    &&& event matches Event::Answered(value)
    &&& match crate::render::verdict::readiness_of(value) {
        crate::render::verdict::ReadinessView::Ready => true,
        crate::render::verdict::ReadinessView::Absent { dom_ready } => dom_ready && now - since
            >= crate::render::run::SIGNAL_GRACE * crate::render::run::NANOS_PER_MILLI,
        _ => false,
    }
}

/// Whether the story showed itself rendered when it was last probed.
pub open spec fn last_seen_rendered(start: RunView, trace: Seq<(Event, u128)>) -> bool
    decreases trace.len(),
{
    if trace.len() == 0 {
        false
    } else {
        match played(start, trace.drop_last()).stage {
            Stage::Probe { since } => shows_rendered(trace.last().0, since, trace.last().1),
            _ => last_seen_rendered(start, trace.drop_last()),
        }
    }
}

/// The checks that were passed since the story was last probed, in order.
pub open spec fn passed_checks(start: RunView, trace: Seq<(Event, u128)>) -> Seq<Check>
    decreases trace.len(),
{
    if trace.len() == 0 {
        Seq::empty()
    } else {
        let earlier = passed_checks(start, trace.drop_last());
        match (played(start, trace.drop_last()).stage, trace.last().0) {
            (Stage::Probe { since }, _) => Seq::empty(),
            (Stage::Evaluate(check), Event::Answered(value)) => if passes(check, value) {
                earlier.push(check)
            } else {
                earlier
            },
            _ => earlier,
        }
    }
}

/// The font warning that the checks passed since the story was last probed
/// came with.
pub open spec fn round_warning(start: RunView, trace: Seq<(Event, u128)>) -> Option<Seq<char>>
    decreases trace.len(),
{
    if trace.len() == 0 {
        None
    } else {
        let earlier = round_warning(start, trace.drop_last());
        match (played(start, trace.drop_last()).stage, trace.last().0) {
            (Stage::Probe { since }, _) => None,
            (Stage::Evaluate(Check::Fonts), Event::Answered(value)) =>
                match crate::render::verdict::fonts_finding(value) {
                    Ok(warning) => warning,
                    Err(_) => earlier,
                },
            _ => earlier,
        }
    }
}

/// `list`, if `wanted`.
pub open spec fn only_if(wanted: bool, list: Seq<Check>) -> Seq<Check> {
    if wanted {
        list
    } else {
        Seq::empty()
    }
}

/// The checks that come before `check` in a round.
pub open spec fn checks_before(run: RunView, check: Check) -> Seq<Check> {
    match check {
        Check::Fonts => Seq::empty(),
        Check::ReducedMotion => only_if(run.fonts, seq![Check::Fonts]),
        Check::Freeze => only_if(run.fonts, seq![Check::Fonts]) + only_if(
            run.reduced_motion,
            seq![Check::ReducedMotion],
        ),
        Check::FontsRecheck => only_if(run.fonts, seq![Check::Fonts]) + only_if(
            run.reduced_motion,
            seq![Check::ReducedMotion],
        ) + only_if(run.freeze, seq![Check::Freeze]),
    }
}

/// The checks of a whole round, in order: the fonts, reduced motion, the
/// standstill, and the fonts once more. What the options switch off is left
/// out.
pub open spec fn required_checks(run: RunView) -> Seq<Check> {
    checks_before(run, Check::FontsRecheck) + only_if(run.fonts, seq![Check::FontsRecheck])
}

/// The commands that were carried out before the first probe, in order.
pub open spec fn commands_done(start: RunView, trace: Seq<(Event, u128)>) -> Seq<Stage>
    decreases trace.len(),
{
    if trace.len() == 0 {
        Seq::empty()
    } else {
        let earlier = commands_done(start, trace.drop_last());
        let stage = played(start, trace.drop_last()).stage;
        match (stage, trace.last().0) {
            (Stage::OpenPage | Stage::Emulate | Stage::InstallHook | Stage::Navigate, Event::Done) =>
                earlier.push(stage),
            _ => earlier,
        }
    }
}

/// The stages at which the story is on the page.
pub open spec fn on_story(stage: Stage) -> bool {
    match stage {
        Stage::OpenPage | Stage::Emulate | Stage::InstallHook | Stage::Navigate => false,
        Stage::Done { opened } => false,
        _ => true,
    }
}

/// A run keeps what it was made for.
proof fn lemma_settings_stay(start: RunView, trace: Seq<(Event, u128)>)
    ensures
        played(start, trace).story_id == start.story_id,
        played(start, trace).url == start.url,
        played(start, trace).timeout == start.timeout,
        played(start, trace).freeze == start.freeze,
        played(start, trace).reduced_motion == start.reduced_motion,
        played(start, trace).fonts == start.fonts,
    decreases trace.len(),
{
    if trace.len() > 0 {
        lemma_settings_stay(start, trace.drop_last());
    }
}

/// Whether the options ask for `check`.
spec fn switched_on(run: RunView, check: Check) -> bool {
    match check {
        Check::Fonts | Check::FontsRecheck => run.fonts,
        Check::ReducedMotion => run.reduced_motion,
        Check::Freeze => run.freeze,
    }
}

/// What is known of the round at each stage.
spec fn round_stands(start: RunView, trace: Seq<(Event, u128)>) -> bool {
    let run = played(start, trace);
    let passed = passed_checks(start, trace);
    let seen = last_seen_rendered(start, trace);
    let warned = run.warning == round_warning(start, trace);
    match run.stage {
        Stage::Probe { since } => run.warning is None && run.outcome is None,
        Stage::Poll { since } => run.warning is None && run.outcome is None,
        Stage::Settle => seen && warned && passed == Seq::<Check>::empty() && run.outcome is None,
        Stage::Evaluate(check) | Stage::Retry(check) => seen && warned && switched_on(start, check)
            && passed == checks_before(start, check) && run.outcome is None,
        Stage::Capture => seen && warned && passed == required_checks(start) && run.outcome is None,
        Stage::Done { opened } => match run.outcome {
            Some(Ok((png, warning))) => seen && passed == required_checks(start) && warning
                == round_warning(start, trace),
            _ => true,
        },
        _ => run.outcome is None,
    }
}

/// Each check is followed by the next one that is switched on.
proof fn lemma_check_order(run: RunView)
    ensures
        checks_before(run, Check::Fonts) == Seq::<Check>::empty(),
        run.fonts ==> checks_before(run, Check::Fonts).push(Check::Fonts) == checks_before(
            run,
            Check::ReducedMotion,
        ),
        !run.fonts ==> checks_before(run, Check::ReducedMotion) == Seq::<Check>::empty(),
        run.reduced_motion ==> checks_before(run, Check::ReducedMotion).push(Check::ReducedMotion)
            == checks_before(run, Check::Freeze),
        !run.reduced_motion ==> checks_before(run, Check::Freeze) == checks_before(
            run,
            Check::ReducedMotion,
        ),
        run.freeze ==> checks_before(run, Check::Freeze).push(Check::Freeze) == checks_before(
            run,
            Check::FontsRecheck,
        ),
        !run.freeze ==> checks_before(run, Check::FontsRecheck) == checks_before(
            run,
            Check::Freeze,
        ),
        run.fonts ==> checks_before(run, Check::FontsRecheck).push(Check::FontsRecheck)
            == required_checks(run),
        !run.fonts ==> required_checks(run) == checks_before(run, Check::FontsRecheck),
{
    assert(run.fonts ==> checks_before(run, Check::Fonts).push(Check::Fonts) =~= checks_before(
        run,
        Check::ReducedMotion,
    ));
    assert(run.reduced_motion ==> checks_before(run, Check::ReducedMotion).push(
        Check::ReducedMotion,
    ) =~= checks_before(run, Check::Freeze));
    assert(!run.reduced_motion ==> checks_before(run, Check::Freeze) =~= checks_before(
        run,
        Check::ReducedMotion,
    ));
    assert(run.freeze ==> checks_before(run, Check::Freeze).push(Check::Freeze) =~= checks_before(
        run,
        Check::FontsRecheck,
    ));
    assert(!run.freeze ==> checks_before(run, Check::FontsRecheck) =~= checks_before(
        run,
        Check::Freeze,
    ));
    assert(run.fonts ==> checks_before(run, Check::FontsRecheck).push(Check::FontsRecheck)
        =~= required_checks(run));
    assert(!run.fonts ==> required_checks(run) =~= checks_before(run, Check::FontsRecheck));
}

proof fn lemma_round_stands(start: RunView, trace: Seq<(Event, u128)>)
    requires
        start.stage == Stage::OpenPage,
        start.warning is None,
        start.outcome is None,
    ensures
        round_stands(start, trace),
    decreases trace.len(),
{
    if trace.len() > 0 {
        let earlier = trace.drop_last();
        lemma_round_stands(start, earlier);
        lemma_settings_stay(start, earlier);
        lemma_check_order(start);
    }
}

/// A picture is taken only of a verified story: when the run comes to take
/// it, and when it has it, the story showed itself rendered at the last
/// probe, and since that probe it has passed every check that the options
/// ask for, in the fixed order. The warning that comes with the picture is
/// the one of that round.
pub proof fn law_only_verified_stories_are_captured(
    options: RenderOptions,
    base_url: Seq<char>,
    story_id: Seq<char>,
    trace: Seq<(Event, u128)>,
)
    ensures
        ({
            let start = crate::render::run::begun(options, base_url, story_id);
            let run = played(start, trace);
            &&& run.stage == Stage::Capture ==> last_seen_rendered(start, trace) && passed_checks(
                start,
                trace,
            ) == required_checks(start)
            &&& run.outcome matches Some(Ok((png, warning))) ==> last_seen_rendered(start, trace)
                && passed_checks(start, trace) == required_checks(start) && warning
                == round_warning(start, trace)
        }),
{
    let start = crate::render::run::begun(options, base_url, story_id);
    lemma_round_stands(start, trace);
    lemma_outcome_at_the_end(start, trace);
}

proof fn lemma_outcome_at_the_end(start: RunView, trace: Seq<(Event, u128)>)
    requires
        start.stage == Stage::OpenPage,
        start.outcome is None,
    ensures
        played(start, trace).outcome is Some <==> played(start, trace).stage is Done,
    decreases trace.len(),
{
    if trace.len() > 0 {
        lemma_outcome_at_the_end(start, trace.drop_last());
    }
}

/// A run has a result exactly when it is over.
pub proof fn law_outcome_exactly_at_the_end(
    options: RenderOptions,
    base_url: Seq<char>,
    story_id: Seq<char>,
    trace: Seq<(Event, u128)>,
)
    ensures
        ({
            let run = played(crate::render::run::begun(options, base_url, story_id), trace);
            run.outcome is Some <==> run.stage is Done
        }),
{
    lemma_outcome_at_the_end(crate::render::run::begun(options, base_url, story_id), trace);
}

proof fn lemma_commands_in_order(start: RunView, trace: Seq<(Event, u128)>)
    requires
        start.stage == Stage::OpenPage,
    ensures
        ({
            let done = commands_done(start, trace);
            let opened = seq![Stage::OpenPage];
            let emulated = if start.reduced_motion {
                seq![Stage::OpenPage, Stage::Emulate]
            } else {
                opened
            };
            match played(start, trace).stage {
                Stage::OpenPage => done == Seq::<Stage>::empty(),
                Stage::Emulate => done == opened && start.reduced_motion,
                Stage::InstallHook => done == emulated,
                Stage::Navigate => done == emulated.push(Stage::InstallHook),
                Stage::Done { opened } => true,
                _ => done == emulated.push(Stage::InstallHook).push(Stage::Navigate),
            }
        }),
    decreases trace.len(),
{
    if trace.len() > 0 {
        let earlier = trace.drop_last();
        lemma_commands_in_order(start, earlier);
        lemma_settings_stay(start, earlier);
        assert(Seq::<Stage>::empty().push(Stage::OpenPage) =~= seq![Stage::OpenPage]);
        assert(seq![Stage::OpenPage].push(Stage::Emulate) =~= seq![
            Stage::OpenPage,
            Stage::Emulate,
        ]);
    }
}

/// Before the story is on the page, an empty page was opened, reduced motion
/// was switched on where it is asked for, the listening script was installed
/// and only then the story's address was opened.
pub proof fn law_page_is_prepared_before_the_story(
    options: RenderOptions,
    base_url: Seq<char>,
    story_id: Seq<char>,
    trace: Seq<(Event, u128)>,
)
    ensures
        ({
            let start = crate::render::run::begun(options, base_url, story_id);
            on_story(played(start, trace).stage) ==> commands_done(start, trace) == if options.emulate_reduced_motion {
                seq![Stage::OpenPage, Stage::Emulate, Stage::InstallHook, Stage::Navigate]
            } else {
                seq![Stage::OpenPage, Stage::InstallHook, Stage::Navigate]
            }
        }),
{
    let start = crate::render::run::begun(options, base_url, story_id);
    lemma_commands_in_order(start, trace);
    assert(seq![Stage::OpenPage, Stage::Emulate].push(Stage::InstallHook).push(Stage::Navigate)
        =~= seq![Stage::OpenPage, Stage::Emulate, Stage::InstallHook, Stage::Navigate]);
    assert(seq![Stage::OpenPage].push(Stage::InstallHook).push(Stage::Navigate) =~= seq![
        Stage::OpenPage,
        Stage::InstallHook,
        Stage::Navigate,
    ]);
}

/// A failure of the browser connection ends a run as such only where a plain
/// command failed. An evaluation that fails never does: it is tried again
/// until the deadline.
pub proof fn law_connection_errors_come_from_commands(run: RunView, event: Event, now: u128)
    requires
        run.outcome is None,
    ensures
        run.next(event, now).outcome matches Some(
            Err(crate::render::browser::ErrorView::Cdp { story_id, source }),
        ) ==> {
            &&& story_id == run.story_id
            &&& event matches Event::Failed(fault)
            &&& source == fault@
            &&& run.stage == Stage::OpenPage || run.stage == Stage::Emulate || run.stage
                == Stage::InstallHook || run.stage == Stage::Navigate || run.stage == Stage::Capture
        },
{
}

/// A run that ends for want of time says how much time it had and at which
/// phase it ran out; and it ends so only where the time is used up: the page
/// did not answer in time, the deadline is past, or the next try would be
/// past it.
pub proof fn law_timeouts_name_their_phase(run: RunView, event: Event, now: u128)
    requires
        run.outcome is None,
    ensures
        run.next(event, now).outcome matches Some(
            Err(crate::render::browser::ErrorView::Timeout { story_id, timeout, phase }),
        ) ==> {
            &&& story_id == run.story_id
            &&& timeout == run.timeout
            &&& match run.stage {
                Stage::Probe { since } => phase == crate::render::phase::no_signal_phase() && now
                    >= run.deadline,
                Stage::Evaluate(check) => {
                    ||| event is TimedOut && phase == crate::render::phase::phase_text(
                        check,
                        crate::render::phase::Silence::TimedOut,
                    )
                    ||| event is Failed && run.late(now) && phase
                        == crate::render::phase::phase_text(
                        check,
                        crate::render::phase::Silence::Exhausted,
                    )
                    ||| check == Check::FontsRecheck && event is Answered && run.late(now) && phase
                        == crate::render::phase::recheck_exhausted_phase()
                },
                _ => false,
            }
        },
{
}

/// All rounds of a story share one deadline: once the story is on the page,
/// nothing moves it.
pub proof fn law_deadline_is_shared(run: RunView, event: Event, now: u128)
    requires
        on_story(run.stage),
    ensures
        run.next(event, now).deadline == run.deadline,
{
}

/// Nothing is tried again once the time is up: a pause before another probe
/// begins before the deadline, and one before another evaluation or another
/// round also ends before it.
pub proof fn law_retries_end_with_the_deadline(run: RunView, event: Event, now: u128)
    ensures
        run.next(event, now).stage is Poll && !(run.stage is Poll) ==> now < run.deadline,
        run.next(event, now).stage is Retry && !(run.stage is Retry) ==> now
            + crate::render::run::POLL_INTERVAL * crate::render::run::NANOS_PER_MILLI
            < run.deadline,
        run.next(event, now).stage is Redo && !(run.stage is Redo) ==> now
            + crate::render::run::POLL_INTERVAL * crate::render::run::NANOS_PER_MILLI
            < run.deadline,
{
}

/// Every round gives a page without a runtime the full grace: a new round
/// counts from its own beginning.
pub proof fn law_grace_is_granted_anew(run: RunView, now: u128)
    requires
        run.stage == Stage::Redo,
    ensures
        run.next(Event::Done, now).stage == (Stage::Probe { since: now }),
        run.next(Event::Done, now).warning is None,
{
}

/// Nothing happens to a run that is over.
pub proof fn law_finished_runs_stay(run: RunView, event: Event, now: u128)
    requires
        run.stage is Done,
    ensures
        run.next(event, now) == run,
{
}

/// A page is closed in the background exactly after a connection failure; a
/// page that was never opened is not closed.
pub proof fn law_closing(run: RunView)
    ensures
        run.closing() == Closing::Background <==> {
            &&& run.stage == (Stage::Done { opened: true })
            &&& run.outcome matches Some(
                Err(crate::render::browser::ErrorView::Cdp { story_id, source }),
            )
        },
        run.stage == (Stage::Done { opened: false }) ==> run.closing() == Closing::Nothing,
{
}

} // verus!
