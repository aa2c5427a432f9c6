//! How a check that ran out of time is named.
//!
//! All checks wait and retry in the same way, but each of them reports its
//! own phase: from the phase alone one can tell which check was running and
//! whether the page fell silent or kept failing.
use vstd::prelude::*;
use vstd::string::*;

use crate::render::verdict::Check;

verus! {

/// The texts under which one check reports that it got no answer.
#[derive(Debug, Clone, Copy)]
pub struct EvaluatePhases {
    /// Logged when a failed evaluation is tried again.
    pub retry_log: &'static str,
    /// The phase when the page did not answer before the deadline.
    pub timeout: &'static str,
    /// The phase when the evaluation kept failing until the deadline.
    pub retry_exhausted: &'static str,
}

/// What became of an evaluation that gave no answer.
pub enum Silence {
    Retried,
    TimedOut,
    Exhausted,
}

/// The text under which `check` reports `silence`.
pub open spec fn phase_text(check: Check, silence: Silence) -> Seq<char> {
    match check {
        Check::ReducedMotion => match silence {
            Silence::Retried => "reduced-motion probe evaluate failed; retrying"@,
            Silence::TimedOut => "the reduced-motion verification never returned a verdict"@,
            Silence::Exhausted =>
                "the reduced-motion verification evaluate kept failing until the story deadline"@,
        },
        Check::Fonts => match silence {
            Silence::Retried => "fonts-ready wait evaluate failed; retrying"@,
            Silence::TimedOut =>
                "the fonts-ready wait never finished: document.fonts.ready did not resolve within the story deadline"@,
            Silence::Exhausted =>
                "the fonts-ready wait evaluate kept failing until the story deadline"@,
        },
        Check::FontsRecheck => match silence {
            Silence::Retried => "fonts recheck probe evaluate failed; retrying"@,
            Silence::TimedOut => "the fonts recheck before the capture never returned a verdict"@,
            Silence::Exhausted =>
                "the fonts recheck evaluate kept failing until the story deadline"@,
        },
        Check::Freeze => match silence {
            Silence::Retried => "freeze evaluate failed; retrying"@,
            Silence::TimedOut =>
                "the freeze did not finish: the page never yielded a verdict (requestAnimationFrame may not be firing)"@,
            Silence::Exhausted =>
                "the freeze evaluate kept failing until the story deadline (the page may be navigating or reloading, or its pending callbacks were collected)"@,
        },
    }
}

/// The phase when the fonts had to be verified again and again until the
/// deadline.
pub open spec fn recheck_exhausted_phase() -> Seq<char> {
    "the fonts verification could not be re-established before the capture: the document kept being replaced or kept starting new font loads until the story deadline"@
}

/// The phase when the story never reported that it is rendered.
pub open spec fn no_signal_phase() -> Seq<char> {
    "no render-completion signal arrived"@
}

/// The phase when the fonts had to be verified again and again until the
/// deadline.
pub fn fonts_recheck_exhausted() -> (phase: &'static str)
    ensures
        phase@ == recheck_exhausted_phase(),
{
    "the fonts verification could not be re-established before the capture: the document kept being replaced or kept starting new font loads until the story deadline"
}

/// The phase when the story never reported that it is rendered.
pub fn no_signal() -> (phase: &'static str)
    ensures
        phase@ == no_signal_phase(),
{
    "no render-completion signal arrived"
}

/// The texts under which `check` reports that it got no answer.
pub fn phases_of(check: Check) -> (phases: EvaluatePhases)
    ensures
        phases.retry_log@ == phase_text(check, Silence::Retried),
        phases.timeout@ == phase_text(check, Silence::TimedOut),
        phases.retry_exhausted@ == phase_text(check, Silence::Exhausted),
{
    match check {
        Check::ReducedMotion => EvaluatePhases {
            retry_log: "reduced-motion probe evaluate failed; retrying",
            timeout: "the reduced-motion verification never returned a verdict",
            retry_exhausted:
                "the reduced-motion verification evaluate kept failing until the story deadline",
        },
        Check::Fonts => EvaluatePhases {
            retry_log: "fonts-ready wait evaluate failed; retrying",
            timeout:
                "the fonts-ready wait never finished: document.fonts.ready did not resolve within the story deadline",
            retry_exhausted: "the fonts-ready wait evaluate kept failing until the story deadline",
        },
        Check::FontsRecheck => EvaluatePhases {
            retry_log: "fonts recheck probe evaluate failed; retrying",
            timeout: "the fonts recheck before the capture never returned a verdict",
            retry_exhausted: "the fonts recheck evaluate kept failing until the story deadline",
        },
        Check::Freeze => EvaluatePhases {
            retry_log: "freeze evaluate failed; retrying",
            timeout:
                "the freeze did not finish: the page never yielded a verdict (requestAnimationFrame may not be firing)",
            retry_exhausted:
                "the freeze evaluate kept failing until the story deadline (the page may be navigating or reloading, or its pending callbacks were collected)",
        },
    }
}

/// `part` occurs in `text`.
pub open spec fn occurs(part: Seq<char>, text: Seq<char>) -> bool {
    exists|i: int|
        0 <= i && i + part.len() <= text.len() && #[trigger] text.subrange(i, i + part.len())
            == part
}

/// The name of the path to which a check belongs.
pub open spec fn path_name(check: Check) -> Seq<char> {
    match check {
        Check::ReducedMotion => "reduced-motion"@,
        Check::Fonts => "fonts"@,
        Check::FontsRecheck => "fonts recheck"@,
        Check::Freeze => "freeze"@,
    }
}

proof fn lemma_found_at(part: Seq<char>, text: Seq<char>, i: int)
    requires
        0 <= i,
        i + part.len() <= text.len(),
        forall|k: int| 0 <= k < part.len() ==> part[k] == text[i + k],
    ensures
        occurs(part, text),
{
    assert(text.subrange(i, i + part.len()) =~= part);
}

proof fn lemma_phase_lengths()
    ensures
        phase_text(Check::ReducedMotion, Silence::Retried).len() == 46,
        phase_text(Check::ReducedMotion, Silence::TimedOut).len() == 56,
        phase_text(Check::ReducedMotion, Silence::Exhausted).len() == 78,
        phase_text(Check::Fonts, Silence::Retried).len() == 42,
        phase_text(Check::Fonts, Silence::TimedOut).len() == 99,
        phase_text(Check::Fonts, Silence::Exhausted).len() == 67,
        phase_text(Check::FontsRecheck, Silence::Retried).len() == 45,
        phase_text(Check::FontsRecheck, Silence::TimedOut).len() == 61,
        phase_text(Check::FontsRecheck, Silence::Exhausted).len() == 64,
        phase_text(Check::Freeze, Silence::Retried).len() == 32,
        phase_text(Check::Freeze, Silence::TimedOut).len() == 101,
        phase_text(Check::Freeze, Silence::Exhausted).len() == 140,
        recheck_exhausted_phase().len() == 160,
        no_signal_phase().len() == 35,
{
    reveal_strlit("reduced-motion probe evaluate failed; retrying");
    reveal_strlit("the reduced-motion verification never returned a verdict");
    reveal_strlit("the reduced-motion verification evaluate kept failing until the story deadline");
    reveal_strlit("fonts-ready wait evaluate failed; retrying");
    reveal_strlit(
        "the fonts-ready wait never finished: document.fonts.ready did not resolve within the story deadline",
    );
    reveal_strlit("the fonts-ready wait evaluate kept failing until the story deadline");
    reveal_strlit("fonts recheck probe evaluate failed; retrying");
    reveal_strlit("the fonts recheck before the capture never returned a verdict");
    reveal_strlit("the fonts recheck evaluate kept failing until the story deadline");
    reveal_strlit("freeze evaluate failed; retrying");
    reveal_strlit(
        "the freeze did not finish: the page never yielded a verdict (requestAnimationFrame may not be firing)",
    );
    reveal_strlit(
        "the freeze evaluate kept failing until the story deadline (the page may be navigating or reloading, or its pending callbacks were collected)",
    );
    reveal_strlit(
        "the fonts verification could not be re-established before the capture: the document kept being replaced or kept starting new font loads until the story deadline",
    );
    reveal_strlit("no render-completion signal arrived");
}

/// No text is shared: from a phase one can tell the check and what became of
/// it, and no phase of a check is one of the two that belong to none.
pub proof fn law_phases_are_distinct(a: Check, x: Silence, b: Check, y: Silence)
    ensures
        phase_text(a, x) == phase_text(b, y) ==> a == b && x == y,
        phase_text(a, x) != recheck_exhausted_phase(),
        phase_text(a, x) != no_signal_phase(),
        recheck_exhausted_phase() != no_signal_phase(),
{
    lemma_phase_lengths();
}

/// Every text of a check names the path to which the check belongs, and the
/// phase of a recheck that is never done names the fonts.
pub proof fn law_phases_name_their_path(check: Check, silence: Silence)
    ensures
        occurs(path_name(check), phase_text(check, silence)),
        occurs("fonts"@, recheck_exhausted_phase()),
{
    let text = phase_text(check, silence);
    match check {
        Check::ReducedMotion => {
            reveal_strlit("reduced-motion");
            match silence {
                Silence::Retried => {
                    reveal_strlit("reduced-motion probe evaluate failed; retrying");
                    lemma_found_at(path_name(check), text, 0);
                },
                Silence::TimedOut => {
                    reveal_strlit("the reduced-motion verification never returned a verdict");
                    lemma_found_at(path_name(check), text, 4);
                },
                Silence::Exhausted => {
                    reveal_strlit(
                        "the reduced-motion verification evaluate kept failing until the story deadline",
                    );
                    lemma_found_at(path_name(check), text, 4);
                },
            }
        },
        Check::Fonts => {
            reveal_strlit("fonts");
            match silence {
                Silence::Retried => {
                    reveal_strlit("fonts-ready wait evaluate failed; retrying");
                    lemma_found_at(path_name(check), text, 0);
                },
                Silence::TimedOut => {
                    reveal_strlit(
                        "the fonts-ready wait never finished: document.fonts.ready did not resolve within the story deadline",
                    );
                    lemma_found_at(path_name(check), text, 4);
                },
                Silence::Exhausted => {
                    reveal_strlit(
                        "the fonts-ready wait evaluate kept failing until the story deadline",
                    );
                    lemma_found_at(path_name(check), text, 4);
                },
            }
        },
        Check::FontsRecheck => {
            reveal_strlit("fonts recheck");
            match silence {
                Silence::Retried => {
                    reveal_strlit("fonts recheck probe evaluate failed; retrying");
                    lemma_found_at(path_name(check), text, 0);
                },
                Silence::TimedOut => {
                    reveal_strlit("the fonts recheck before the capture never returned a verdict");
                    lemma_found_at(path_name(check), text, 4);
                },
                Silence::Exhausted => {
                    reveal_strlit(
                        "the fonts recheck evaluate kept failing until the story deadline",
                    );
                    lemma_found_at(path_name(check), text, 4);
                },
            }
        },
        Check::Freeze => {
            reveal_strlit("freeze");
            match silence {
                Silence::Retried => {
                    reveal_strlit("freeze evaluate failed; retrying");
                    lemma_found_at(path_name(check), text, 0);
                },
                Silence::TimedOut => {
                    reveal_strlit(
                        "the freeze did not finish: the page never yielded a verdict (requestAnimationFrame may not be firing)",
                    );
                    lemma_found_at(path_name(check), text, 4);
                },
                Silence::Exhausted => {
                    reveal_strlit(
                        "the freeze evaluate kept failing until the story deadline (the page may be navigating or reloading, or its pending callbacks were collected)",
                    );
                    lemma_found_at(path_name(check), text, 4);
                },
            }
        },
    }
    reveal_strlit("fonts");
    reveal_strlit(
        "the fonts verification could not be re-established before the capture: the document kept being replaced or kept starting new font loads until the story deadline",
    );
    lemma_found_at("fonts"@, recheck_exhausted_phase(), 4);
}

/// From the text one can tell what became of an evaluation: every text of a
/// retry says that the evaluation failed and is tried again, and every text of
/// the last failure says that it kept failing until the deadline.
pub proof fn law_phases_tell_what_happened(check: Check)
    ensures
        occurs("evaluate failed; retrying"@, phase_text(check, Silence::Retried)),
        occurs(
            "evaluate kept failing until the story deadline"@,
            phase_text(check, Silence::Exhausted),
        ),
{
    reveal_strlit("evaluate failed; retrying");
    reveal_strlit("evaluate kept failing until the story deadline");
    let again = "evaluate failed; retrying"@;
    let last = "evaluate kept failing until the story deadline"@;
    let retried = phase_text(check, Silence::Retried);
    let exhausted = phase_text(check, Silence::Exhausted);
    match check {
        Check::ReducedMotion => {
            reveal_strlit("reduced-motion probe evaluate failed; retrying");
            reveal_strlit(
                "the reduced-motion verification evaluate kept failing until the story deadline",
            );
            lemma_found_at(again, retried, 21);
            lemma_found_at(last, exhausted, 32);
        },
        Check::Fonts => {
            reveal_strlit("fonts-ready wait evaluate failed; retrying");
            reveal_strlit("the fonts-ready wait evaluate kept failing until the story deadline");
            lemma_found_at(again, retried, 17);
            lemma_found_at(last, exhausted, 21);
        },
        Check::FontsRecheck => {
            reveal_strlit("fonts recheck probe evaluate failed; retrying");
            reveal_strlit("the fonts recheck evaluate kept failing until the story deadline");
            lemma_found_at(again, retried, 20);
            lemma_found_at(last, exhausted, 18);
        },
        Check::Freeze => {
            reveal_strlit("freeze evaluate failed; retrying");
            reveal_strlit(
                "the freeze evaluate kept failing until the story deadline (the page may be navigating or reloading, or its pending callbacks were collected)",
            );
            lemma_found_at(again, retried, 7);
            lemma_found_at(last, exhausted, 11);
        },
    }
}

} // verus!
