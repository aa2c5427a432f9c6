//! The course of one attempt to capture one story.
//!
//! [`StoryRun`] decides what is done next; whoever drives it performs the
//! action in the browser and hands back what came of it. After the page is
//! open a run goes in rounds: wait until the story is rendered, let it settle,
//! then run the required checks. Where the last check finds that the document
//! was replaced in the meantime, a new round begins. All rounds share one
//! deadline.
use vstd::prelude::*;
use vstd::string::*;

use crate::render::browser::{CdpFault, RenderError, RenderOptions, RenderedStory, story_url};
use crate::render::phase::{fonts_recheck_exhausted, no_signal, phases_of};
use crate::render::verdict::{
    Check, Evaluated, Readiness, fonts_recheck_verdict, fonts_verdict, freeze_verdict,
    reduced_motion_verdict,
};
use crate::span::Span;

verus! {

/// The pause between a rendered story and its first check, in milliseconds.
pub const SETTLE_DELAY: u64 = 250;

/// The pause before something is tried again, in milliseconds.
pub const POLL_INTERVAL: u64 = 100;

/// How long a page without a Storybook runtime is given before the content of
/// its root element is believed, in milliseconds.
pub const SIGNAL_GRACE: u64 = 1_500;

/// Nanoseconds in a millisecond.
pub const NANOS_PER_MILLI: u128 = 1_000_000;

/// Where a run stands, that is, what it waits for.
#[derive(Debug, Clone, Copy, PartialEq, Eq, Structural)]
pub enum Stage {
    /// The empty page is being opened.
    OpenPage,
    /// Reduced motion is being switched on.
    Emulate,
    /// The script that listens for the story's signal is being installed.
    InstallHook,
    /// The story's address is being opened.
    Navigate,
    /// The page is being asked whether the story is rendered. The round began
    /// at `since`.
    Probe { since: u128 },
    /// A pause before the page is asked again.
    Poll { since: u128 },
    /// The pause after the story was rendered.
    Settle,
    /// A check is being evaluated in the page.
    Evaluate(Check),
    /// A pause before a failed evaluation is tried again.
    Retry(Check),
    /// A pause before a new round.
    Redo,
    /// The picture is being taken.
    Capture,
    /// The run is over. `opened` says whether there is a page to close.
    Done { opened: bool },
}

/// What the driver has to do next. Times are in nanoseconds on the clock that
/// the driver shows to the run.
#[derive(Debug)]
pub enum Action {
    /// Open an empty page.
    OpenPage,
    /// Emulate the media feature `prefers-reduced-motion: reduce`.
    EmulateReducedMotion,
    /// Install the script that listens for the story's signal.
    InstallHook,
    /// Go to the address.
    Navigate(String),
    /// Ask the page whether the story is rendered.
    Probe,
    /// Wait for so many milliseconds.
    Sleep(u64),
    /// Evaluate a check, for no longer than `remaining` nanoseconds.
    Evaluate { check: Check, remaining: u128 },
    /// Take the picture.
    Capture,
    /// Nothing: the run is over.
    Finish,
}

/// What came of an action.
#[derive(Debug)]
pub enum Event {
    /// The command or the pause is over.
    Done,
    /// The command or the evaluation failed.
    Failed(CdpFault),
    /// The page answered.
    Answered(Evaluated),
    /// The page did not answer in time.
    TimedOut,
    /// The picture was taken.
    Captured(Vec<u8>),
}

/// How the page is closed after a run.
#[derive(Debug, Clone, Copy, PartialEq, Eq, Structural)]
pub enum Closing {
    /// There is no page.
    Nothing,
    /// The page is closed before anything else is done.
    Wait,
    /// The page is closed while the next attempt goes on: it answers no
    /// command, so closing it may take long.
    Background,
}

/// An attempt to capture one story.
#[derive(Debug)]
pub struct StoryRun {
    story_id: String,
    url: String,
    timeout: Span,
    freeze: bool,
    reduced_motion: bool,
    fonts: bool,
    stage: Stage,
    deadline: u128,
    warning: Option<String>,
    outcome: Option<Result<RenderedStory, RenderError>>,
}

/// The result of a run: the picture with the font warning, or the error.
pub type OutcomeView = Result<
    (Seq<u8>, Option<Seq<char>>),
    crate::render::browser::ErrorView,
>;

/// A run, in the terms of the contracts.
pub struct RunView {
    pub story_id: Seq<char>,
    pub url: Seq<char>,
    pub timeout: Span,
    pub freeze: bool,
    pub reduced_motion: bool,
    pub fonts: bool,
    pub stage: Stage,
    pub deadline: u128,
    pub warning: Option<Seq<char>>,
    pub outcome: Option<OutcomeView>,
}

/// An optional text.
pub open spec fn optional_view(text: Option<String>) -> Option<Seq<char>> {
    match text {
        Some(text) => Some(text@),
        None => None,
    }
}

/// The result of a run.
pub open spec fn outcome_view(outcome: Result<RenderedStory, RenderError>) -> OutcomeView {
    match outcome {
        Ok(story) => Ok((story.png@, optional_view(story.font_warning))),
        Err(error) => Err(error@),
    }
}

impl View for StoryRun {
    type V = RunView;

    closed spec fn view(&self) -> RunView {
        RunView {
            story_id: self.story_id@,
            url: self.url@,
            timeout: self.timeout,
            freeze: self.freeze,
            reduced_motion: self.reduced_motion,
            fonts: self.fonts,
            stage: self.stage,
            deadline: self.deadline,
            warning: optional_view(self.warning),
            outcome: match self.outcome {
                Some(outcome) => Some(outcome_view(outcome)),
                None => None,
            },
        }
    }
}

// ── the transitions ─────────────────────────────────────────────────────

/// Addition that stops at the largest number.
pub open spec fn saturated(a: int) -> u128 {
    if a > u128::MAX {
        u128::MAX
    } else {
        a as u128
    }
}

/// A run that has not begun.
pub open spec fn begun(options: RenderOptions, base_url: Seq<char>, story_id: Seq<char>) -> RunView {
    RunView {
        story_id,
        url: crate::render::browser::story_address(base_url, story_id),
        timeout: options.story_timeout,
        freeze: options.freeze_before_capture,
        reduced_motion: options.emulate_reduced_motion,
        fonts: options.wait_for_fonts,
        stage: Stage::OpenPage,
        deadline: 0,
        warning: None,
        outcome: None,
    }
}

impl RunView {
    /// The run at another stage.
    pub open spec fn at(self, stage: Stage) -> RunView {
        RunView { stage, ..self }
    }

    /// The run, over with an error.
    pub open spec fn fails(self, opened: bool, error: crate::render::browser::ErrorView) -> RunView {
        RunView { stage: Stage::Done { opened }, outcome: Some(Err(error)), ..self }
    }

    /// The run, over because the browser connection failed.
    pub open spec fn breaks(self, opened: bool, fault: CdpFault) -> RunView {
        self.fails(
            opened,
            crate::render::browser::ErrorView::Cdp { story_id: self.story_id, source: fault@ },
        )
    }

    /// The run, over because the story failed.
    pub open spec fn rejects(self, message: Seq<char>) -> RunView {
        self.fails(
            true,
            crate::render::browser::ErrorView::Story { story_id: self.story_id, message },
        )
    }

    /// The run, over because its time is used up.
    pub open spec fn expires(self, phase: Seq<char>) -> RunView {
        self.fails(
            true,
            crate::render::browser::ErrorView::Timeout {
                story_id: self.story_id,
                timeout: self.timeout,
                phase,
            },
        )
    }

    /// Whether there is no time left for another try after a pause.
    pub open spec fn late(self, now: u128) -> bool {
        saturated(now + POLL_INTERVAL * NANOS_PER_MILLI) >= self.deadline
    }

    /// The first round, or another one.
    pub open spec fn round(self, now: u128) -> RunView {
        RunView { stage: Stage::Probe { since: now }, warning: None, ..self }
    }

    /// The stage after the standstill.
    pub open spec fn after_freeze(self) -> Stage {
        if self.fonts {
            Stage::Evaluate(Check::FontsRecheck)
        } else {
            Stage::Capture
        }
    }

    /// The stage after reduced motion was checked.
    pub open spec fn after_motion(self) -> Stage {
        if self.freeze {
            Stage::Evaluate(Check::Freeze)
        } else {
            self.after_freeze()
        }
    }

    /// The stage after the fonts were checked.
    pub open spec fn after_fonts(self) -> Stage {
        if self.reduced_motion {
            Stage::Evaluate(Check::ReducedMotion)
        } else {
            self.after_motion()
        }
    }

    /// The stage after the story settled.
    pub open spec fn after_settle(self) -> Stage {
        if self.fonts {
            Stage::Evaluate(Check::Fonts)
        } else {
            self.after_fonts()
        }
    }

    /// After a probe that did not find the story rendered.
    pub open spec fn unready(self, since: u128, now: u128) -> RunView {
        if now >= self.deadline {
            self.expires(crate::render::phase::no_signal_phase())
        } else {
            self.at(Stage::Poll { since })
        }
    }

    /// After an answer to the readiness probe.
    pub open spec fn probed(self, since: u128, value: Evaluated, now: u128) -> RunView {
        match crate::render::verdict::readiness_of(value) {
            crate::render::verdict::ReadinessView::Ready => self.at(Stage::Settle),
            crate::render::verdict::ReadinessView::Error(message) => self.rejects(message),
            crate::render::verdict::ReadinessView::Absent { dom_ready } => if dom_ready && now
                - since >= SIGNAL_GRACE * NANOS_PER_MILLI {
                self.at(Stage::Settle)
            } else {
                self.unready(since, now)
            },
            crate::render::verdict::ReadinessView::Pending => self.unready(since, now),
        }
    }

    /// After an answer to a check.
    pub open spec fn judged(self, check: Check, value: Evaluated, now: u128) -> RunView {
        match check {
            Check::Fonts => match crate::render::verdict::fonts_finding(value) {
                Ok(warning) => RunView { stage: self.after_fonts(), warning, ..self },
                Err(message) => self.rejects(message),
            },
            Check::ReducedMotion => match crate::render::verdict::reduced_motion_finding(value) {
                None => self.at(self.after_motion()),
                Some(message) => self.rejects(message),
            },
            Check::Freeze => match crate::render::verdict::freeze_finding(value) {
                None => self.at(self.after_freeze()),
                Some(message) => self.rejects(message),
            },
            Check::FontsRecheck => match crate::render::verdict::recheck_finding(value) {
                Ok(true) => self.at(Stage::Capture),
                Ok(false) => if self.late(now) {
                    self.expires(crate::render::phase::recheck_exhausted_phase())
                } else {
                    self.at(Stage::Redo)
                },
                Err(message) => self.rejects(message),
            },
        }
    }

    /// After an evaluation of a check that failed.
    pub open spec fn unanswered(self, check: Check, now: u128) -> RunView {
        if self.late(now) {
            self.expires(
                crate::render::phase::phase_text(check, crate::render::phase::Silence::Exhausted),
            )
        } else {
            self.at(Stage::Retry(check))
        }
    }

    /// The run after an event at the time `now`. An event that does not answer
    /// what the run waits for changes nothing.
    pub open spec fn next(self, event: Event, now: u128) -> RunView {
        match (self.stage, event) {
            (Stage::OpenPage, Event::Done) => self.at(
                if self.reduced_motion {
                    Stage::Emulate
                } else {
                    Stage::InstallHook
                },
            ),
            (Stage::OpenPage, Event::Failed(fault)) => self.breaks(false, fault),
            (Stage::Emulate, Event::Done) => self.at(Stage::InstallHook),
            (Stage::Emulate, Event::Failed(fault)) => self.breaks(true, fault),
            (Stage::InstallHook, Event::Done) => self.at(Stage::Navigate),
            (Stage::InstallHook, Event::Failed(fault)) => self.breaks(true, fault),
            (Stage::Navigate, Event::Done) => RunView {
                deadline: saturated(now + self.timeout.total()),
                ..self
            }.round(now),
            (Stage::Navigate, Event::Failed(fault)) => self.breaks(true, fault),
            (Stage::Probe { since }, Event::Answered(value)) => self.probed(since, value, now),
            (Stage::Probe { since }, Event::Failed(_)) => self.unready(since, now),
            (Stage::Poll { since }, Event::Done) => self.at(Stage::Probe { since }),
            (Stage::Settle, Event::Done) => self.at(self.after_settle()),
            (Stage::Evaluate(check), Event::Answered(value)) => self.judged(check, value, now),
            (Stage::Evaluate(check), Event::TimedOut) => self.expires(
                crate::render::phase::phase_text(check, crate::render::phase::Silence::TimedOut),
            ),
            (Stage::Evaluate(check), Event::Failed(_)) => self.unanswered(check, now),
            (Stage::Retry(check), Event::Done) => self.at(Stage::Evaluate(check)),
            (Stage::Redo, Event::Done) => self.round(now),
            (Stage::Capture, Event::Captured(png)) => RunView {
                stage: Stage::Done { opened: true },
                outcome: Some(Ok((png@, self.warning))),
                ..self
            },
            (Stage::Capture, Event::Failed(fault)) => self.breaks(true, fault),
            _ => self,
        }
    }

    /// What is to be done at the time `now`.
    pub open spec fn due(self, now: u128, action: Action) -> bool {
        match self.stage {
            Stage::OpenPage => action == Action::OpenPage,
            Stage::Emulate => action == Action::EmulateReducedMotion,
            Stage::InstallHook => action == Action::InstallHook,
            Stage::Navigate => action matches Action::Navigate(url) && url@ == self.url,
            Stage::Probe { since } => action == Action::Probe,
            Stage::Poll { since } => action == Action::Sleep(POLL_INTERVAL),
            Stage::Settle => action == Action::Sleep(SETTLE_DELAY),
            Stage::Evaluate(check) => action == (Action::Evaluate {
                check,
                remaining: if now < self.deadline {
                    (self.deadline - now) as u128
                } else {
                    0
                },
            }),
            Stage::Retry(check) => action == Action::Sleep(POLL_INTERVAL),
            Stage::Redo => action == Action::Sleep(POLL_INTERVAL),
            Stage::Capture => action == Action::Capture,
            Stage::Done { opened } => action == Action::Finish,
        }
    }

    /// How the page is closed, once the run is over.
    pub open spec fn closing(self) -> Closing {
        match self.stage {
            Stage::Done { opened: true } => match self.outcome {
                Some(Err(crate::render::browser::ErrorView::Cdp { story_id, source })) =>
                    Closing::Background,
                _ => Closing::Wait,
            },
            _ => Closing::Nothing,
        }
    }
}

impl StoryRun {
    /// A run for the story `story_id` of the bundle that is served at
    /// `base_url`.
    pub fn new(options: &RenderOptions, base_url: &str, story_id: &str) -> (run: StoryRun)
        ensures
            run@ == begun(*options, base_url@, story_id@),
    {
        StoryRun {
            story_id: story_id.to_string(),
            url: story_url(base_url, story_id),
            timeout: options.story_timeout,
            freeze: options.freeze_before_capture,
            reduced_motion: options.emulate_reduced_motion,
            fonts: options.wait_for_fonts,
            stage: Stage::OpenPage,
            deadline: 0,
            warning: None,
            outcome: None,
        }
    }

    /// What is to be done next.
    pub fn action(&self, now: u128) -> (action: Action)
        ensures
            self@.due(now, action),
    {
        match self.stage {
            Stage::OpenPage => Action::OpenPage,
            Stage::Emulate => Action::EmulateReducedMotion,
            Stage::InstallHook => Action::InstallHook,
            Stage::Navigate => Action::Navigate(self.url.clone()),
            Stage::Probe { since: _ } => Action::Probe,
            Stage::Poll { since: _ } => Action::Sleep(POLL_INTERVAL),
            Stage::Settle => Action::Sleep(SETTLE_DELAY),
            Stage::Evaluate(check) => Action::Evaluate {
                check,
                remaining: self.deadline.saturating_sub(now),
            },
            Stage::Retry(_) => Action::Sleep(POLL_INTERVAL),
            Stage::Redo => Action::Sleep(POLL_INTERVAL),
            Stage::Capture => Action::Capture,
            Stage::Done { opened: _ } => Action::Finish,
        }
    }

    /// Takes in what came of the last action.
    pub fn step(&mut self, event: Event, now: u128)
        ensures
            final(self)@ == old(self)@.next(event, now),
    {
        match event {
            Event::Done => self.done(now),
            Event::Failed(fault) => self.failed(fault, now),
            Event::Answered(value) => self.answered(value, now),
            Event::TimedOut => {
                if let Stage::Evaluate(check) = self.stage {
                    self.expire(phases_of(check).timeout);
                }
            },
            Event::Captured(png) => {
                if let Stage::Capture = self.stage {
                    let font_warning = match &self.warning {
                        Some(warning) => Some(warning.clone()),
                        None => None,
                    };
                    self.outcome = Some(Ok(RenderedStory { png, font_warning }));
                    self.stage = Stage::Done { opened: true };
                }
            },
        }
    }

    fn done(&mut self, now: u128)
        ensures
            final(self)@ == old(self)@.next(Event::Done, now),
    {
        match self.stage {
            Stage::OpenPage => {
                self.stage =
                if self.reduced_motion {
                    Stage::Emulate
                } else {
                    Stage::InstallHook
                };
            },
            Stage::Emulate => {
                self.stage = Stage::InstallHook;
            },
            Stage::InstallHook => {
                self.stage = Stage::Navigate;
            },
            Stage::Navigate => {
                self.deadline = now.saturating_add(self.timeout.as_nanos());
                self.warning = None;
                self.stage = Stage::Probe { since: now };
            },
            Stage::Poll { since } => {
                self.stage = Stage::Probe { since };
            },
            Stage::Settle => {
                self.stage =
                if self.fonts {
                    Stage::Evaluate(Check::Fonts)
                } else {
                    self.after_fonts()
                };
            },
            Stage::Retry(check) => {
                self.stage = Stage::Evaluate(check);
            },
            Stage::Redo => {
                self.warning = None;
                self.stage = Stage::Probe { since: now };
            },
            _ => {},
        }
    }

    fn failed(&mut self, fault: CdpFault, now: u128)
        ensures
            final(self)@ == old(self)@.next(Event::Failed(fault), now),
    {
        match self.stage {
            Stage::OpenPage => self.break_off(false, fault),
            Stage::Emulate | Stage::InstallHook | Stage::Navigate | Stage::Capture => self.break_off(
                true,
                fault,
            ),
            Stage::Probe { since } => self.unready(since, now),
            Stage::Evaluate(check) => if self.late(now) {
                self.expire(phases_of(check).retry_exhausted);
            } else {
                self.stage = Stage::Retry(check);
            },
            _ => {},
        }
    }

    fn answered(&mut self, value: Evaluated, now: u128)
        ensures
            final(self)@ == old(self)@.next(Event::Answered(value), now),
    {
        match self.stage {
            Stage::Probe { since } => match Readiness::parse(&value) {
                Readiness::Ready => {
                    self.stage = Stage::Settle;
                },
                Readiness::Error(message) => {
                    let story_id = self.story_id.clone();
                    self.fail(RenderError::Story { story_id, message });
                },
                Readiness::Absent { dom_ready } => {
                    if dom_ready && now >= since && now - since >= SIGNAL_GRACE as u128
                        * NANOS_PER_MILLI {
                        self.stage = Stage::Settle;
                    } else {
                        self.unready(since, now);
                    }
                },
                Readiness::Pending => self.unready(since, now),
            },
            Stage::Evaluate(check) => self.judge(check, &value, now),
            _ => {},
        }
    }

    fn judge(&mut self, check: Check, value: &Evaluated, now: u128)
        requires
            old(self)@.stage == Stage::Evaluate(check),
        ensures
            final(self)@ == old(self)@.judged(check, *value, now),
    {
        match check {
            Check::Fonts => match fonts_verdict(value, self.story_id.as_str()) {
                Ok(warning) => {
                    self.warning = warning;
                    self.stage = self.after_fonts();
                },
                Err(error) => self.fail(error),
            },
            Check::ReducedMotion => match reduced_motion_verdict(value, self.story_id.as_str()) {
                Ok(()) => {
                    self.stage = self.after_motion();
                },
                Err(error) => self.fail(error),
            },
            Check::Freeze => match freeze_verdict(value, self.story_id.as_str()) {
                Ok(()) => {
                    self.stage = self.after_freeze();
                },
                Err(error) => self.fail(error),
            },
            Check::FontsRecheck => match fonts_recheck_verdict(value, self.story_id.as_str()) {
                Ok(true) => {
                    self.stage = Stage::Capture;
                },
                Ok(false) => {
                    if self.late(now) {
                        self.expire(fonts_recheck_exhausted());
                    } else {
                        self.stage = Stage::Redo;
                    }
                },
                Err(error) => self.fail(error),
            },
        }
    }

    fn fail(&mut self, error: RenderError)
        ensures
            final(self)@ == old(self)@.fails(true, error@),
    {
        self.outcome = Some(Err(error));
        self.stage = Stage::Done { opened: true };
    }

    fn break_off(&mut self, opened: bool, fault: CdpFault)
        ensures
            final(self)@ == old(self)@.breaks(opened, fault),
    {
        let story_id = self.story_id.clone();
        self.outcome = Some(Err(RenderError::Cdp { story_id, source: fault }));
        self.stage = Stage::Done { opened };
    }

    fn expire(&mut self, phase: &'static str)
        ensures
            final(self)@ == old(self)@.expires(phase@),
    {
        let story_id = self.story_id.clone();
        let timeout = self.timeout;
        self.fail(RenderError::Timeout { story_id, timeout, phase });
    }

    fn unready(&mut self, since: u128, now: u128)
        ensures
            final(self)@ == old(self)@.unready(since, now),
    {
        if now >= self.deadline {
            self.expire(no_signal());
        } else {
            self.stage = Stage::Poll { since };
        }
    }

    fn late(&self, now: u128) -> (late: bool)
        ensures
            late == self@.late(now),
    {
        now.saturating_add(POLL_INTERVAL as u128 * NANOS_PER_MILLI) >= self.deadline
    }

    fn after_freeze(&self) -> (stage: Stage)
        ensures
            stage == self@.after_freeze(),
    {
        if self.fonts {
            Stage::Evaluate(Check::FontsRecheck)
        } else {
            Stage::Capture
        }
    }

    fn after_motion(&self) -> (stage: Stage)
        ensures
            stage == self@.after_motion(),
    {
        if self.freeze {
            Stage::Evaluate(Check::Freeze)
        } else {
            self.after_freeze()
        }
    }

    fn after_fonts(&self) -> (stage: Stage)
        ensures
            stage == self@.after_fonts(),
    {
        if self.reduced_motion {
            Stage::Evaluate(Check::ReducedMotion)
        } else {
            self.after_motion()
        }
    }

    /// How the page is closed, once the run is over.
    pub fn closing(&self) -> (closing: Closing)
        ensures
            closing == self@.closing(),
    {
        match self.stage {
            Stage::Done { opened: true } => match &self.outcome {
                Some(Err(RenderError::Cdp { story_id: _, source: _ })) => Closing::Background,
                _ => Closing::Wait,
            },
            _ => Closing::Nothing,
        }
    }

    /// The result, once the run is over.
    pub fn into_outcome(self) -> (outcome: Option<Result<RenderedStory, RenderError>>)
        ensures
            match outcome {
                Some(outcome) => self@.outcome == Some(outcome_view(outcome)),
                None => self@.outcome is None,
            },
    {
        self.outcome
    }
}

} // verus!
