//! What the answers of the page mean.
//!
//! Before a story is captured the page is asked whether it is ready, whether
//! its fonts have arrived, whether reduced motion is in effect and whether
//! every animation stands still. Each question comes back as a JSON text. The
//! functions here judge those texts, and they all fail closed: only an answer
//! that says so in as many words lets the capture go on.
use vstd::prelude::*;
use vstd::string::*;

use crate::json::{Json, parse_json, show_value, value_text};
use crate::render::browser::RenderError;
use crate::text::{decimal, join, join_first, same_text};

verus! {

/// What the page handed back for one evaluated script.
#[derive(Debug)]
pub enum Evaluated {
    /// A string.
    Text(String),
    /// Nothing, or something that is not a string: how it prints.
    Other(String),
}

/// What a value that the page handed back holds: a string, or how it prints.
pub open spec fn is_evaluated(value: Option<serde_json::Value>, evaluated: Evaluated) -> bool {
    match value {
        None => evaluated matches Evaluated::Other(shown) && shown@ == "None"@,
        Some(value) => match crate::json::json_content(value) {
            crate::json::JsonView::Text(text) => evaluated matches Evaluated::Text(held)
                && held@ == text,
            _ => evaluated matches Evaluated::Other(shown) && shown@ == "Some("@
                + crate::json::json_shown(crate::json::json_content(value)) + ")"@,
        },
    }
}

impl Evaluated {
    /// Takes in a value as the browser connection hands it over.
    pub fn of(value: Option<&serde_json::Value>) -> (evaluated: Evaluated)
        ensures
            is_evaluated(
                match value {
                    Some(value) => Some(*value),
                    None => None,
                },
                evaluated,
            ),
    {
        match value {
            None => Evaluated::Other("None".to_string()),
            Some(value) => match value_text(value) {
                Some(text) => Evaluated::Text(text),
                None => {
                    let mut shown = "Some(".to_string();
                    let inner = show_value(value);
                    shown.append(inner.as_str());
                    shown.append(")");
                    Evaluated::Other(shown)
                },
            },
        }
    }
}

/// A question to the page whose answer decides over the capture.
#[derive(Debug, Clone, Copy, PartialEq, Eq, Structural)]
pub enum Check {
    /// Are the fonts of every reachable document loaded?
    Fonts,
    /// Does the page see the emulated media feature?
    ReducedMotion,
    /// Do all animations stand still?
    Freeze,
    /// Do the fonts still stand as they were verified?
    FontsRecheck,
}

/// What the answer to `check` is called in messages.
pub open spec fn answer_name(check: Check) -> Seq<char> {
    match check {
        Check::Fonts => "fonts-ready wait result"@,
        Check::ReducedMotion => "reduced-motion verification result"@,
        Check::Freeze => "freeze result"@,
        Check::FontsRecheck => "fonts recheck result"@,
    }
}

/// The message for an answer that cannot be interpreted.
pub open spec fn unparseable(check: Check, detail: Seq<char>) -> Seq<char> {
    answer_name(check) + " was unparseable: "@ + detail
}

/// The document in an answer, or the message that says why there is none.
pub open spec fn answer_document(check: Check, value: Evaluated) -> Result<
    crate::json::JsonView,
    Seq<char>,
> {
    match value {
        Evaluated::Other(shown) => Err(
            unparseable(check, "expected a JSON string, got "@ + shown@),
        ),
        Evaluated::Text(raw) => match crate::json::json_document(raw@) {
            Ok(document) => Ok(document),
            Err(message) => Err(unparseable(check, message + " (raw: "@ + raw@ + ")"@)),
        },
    }
}

/// Builds the message for an answer that cannot be interpreted.
fn unparseable_message(check: Check, detail: &str) -> (text: String)
    ensures
        text@ == unparseable(check, detail@),
{
    let mut text = match check {
        Check::Fonts => "fonts-ready wait result".to_string(),
        Check::ReducedMotion => "reduced-motion verification result".to_string(),
        Check::Freeze => "freeze result".to_string(),
        Check::FontsRecheck => "fonts recheck result".to_string(),
    };
    text.append(" was unparseable: ");
    text.append(detail);
    text
}

/// The message for an answer that the parser refused with `message`.
pub fn not_a_document(check: Check, message: &str, raw: &str) -> (text: String)
    ensures
        text@ == unparseable(check, message@ + " (raw: "@ + raw@ + ")"@),
{
    let mut detail = message.to_string();
    detail.append(" (raw: ");
    detail.append(raw);
    detail.append(")");
    unparseable_message(check, detail.as_str())
}

/// Reads the document of an answer.
fn read_answer<'a>(check: Check, value: &'a Evaluated) -> (read: Result<(Json, &'a String), String>)
    ensures
        match read {
            Ok((json, raw)) => {
                &&& *value == Evaluated::Text(*raw)
                &&& answer_document(check, *value) == Ok::<crate::json::JsonView, Seq<char>>(json@)
            },
            Err(message) => answer_document(check, *value) == Err::<
                crate::json::JsonView,
                Seq<char>,
            >(message@),
        },
{
    match value {
        Evaluated::Other(shown) => {
            let mut detail = "expected a JSON string, got ".to_string();
            detail.append(shown.as_str());
            Err(unparseable_message(check, detail.as_str()))
        },
        Evaluated::Text(raw) => match parse_json(raw.as_str()) {
            Ok(json) => Ok((json, raw)),
            Err(message) => Err(not_a_document(check, message.as_str(), raw.as_str())),
        },
    }
}

/// The message for a document without the boolean that decides.
pub open spec fn no_flag(check: Check, key: Seq<char>, raw: Seq<char>) -> Seq<char> {
    unparseable(check, "missing or non-boolean `"@ + key + "` key (raw: "@ + raw + ")"@)
}

fn no_flag_message(check: Check, key: &str, raw: &str) -> (text: String)
    ensures
        text@ == no_flag(check, key@, raw@),
{
    let mut detail = "missing or non-boolean `".to_string();
    detail.append(key);
    detail.append("` key (raw: ");
    detail.append(raw);
    detail.append(")");
    unparseable_message(check, detail.as_str())
}

/// The diagnostics of a document, as they end a message: the texts of its
/// `errors` array, or nothing where there is no such array.
pub open spec fn errors_note(document: crate::json::JsonView) -> Seq<char> {
    match document.items_at("errors"@) {
        Some(items) => " (errors: "@ + crate::text::joined(crate::json::texts(items), "; "@) + ")"@,
        None => Seq::empty(),
    }
}

fn errors_note_text(document: &Json) -> (text: String)
    ensures
        text@ == errors_note(document@),
{
    match document.texts_at("errors") {
        Some((list, _)) => {
            let mut text = " (errors: ".to_string();
            let all = join(&list, "; ");
            text.append(all.as_str());
            text.append(")");
            text
        },
        None => String::new(),
    }
}

/// A failure of the story `story_id`.
fn story_failure(story_id: &str, message: String) -> (error: RenderError)
    ensures
        error.is_story_failure(story_id@, message@),
{
    RenderError::Story { story_id: story_id.to_string(), message }
}

// ── freeze ──────────────────────────────────────────────────────────────

/// Why a page is not known to stand still, from the answer `document` that
/// was read out of `raw`; `None` if it is known to.
pub open spec fn freeze_problem(document: crate::json::JsonView, raw: Seq<char>) -> Option<
    Seq<char>,
> {
    match document.bool_at("ok"@) {
        Some(true) => None,
        Some(false) => Some(
            match document.text_at("reason"@) {
                Some(reason) => "freeze failed: "@ + reason + errors_note(document),
                None => {
                    let (count, names) = match document.items_at("running"@) {
                        Some(items) => (
                            items.len(),
                            crate::text::joined(crate::json::texts(items), ", "@),
                        ),
                        None => (0nat, Seq::empty()),
                    };
                    let sweeps = match document.number_at("sweeps"@) {
                        Some(n) => n as nat,
                        None => 0nat,
                    };
                    "freeze failed: "@ + crate::text::decimal_text(count)
                        + " animation(s) still running after "@ + crate::text::decimal_text(sweeps)
                        + " sweep(s): ["@ + names + "]"@ + errors_note(document)
                },
            },
        ),
        None => Some(no_flag(Check::Freeze, "ok"@, raw)),
    }
}

/// Judges a parsed answer to [`Check::Freeze`].
pub fn judge_freeze(document: &Json, raw: &str) -> (problem: Option<String>)
    ensures
        match problem {
            Some(message) => freeze_problem(document@, raw@) == Some(message@),
            None => freeze_problem(document@, raw@) is None,
        },
{
    match document.bool_at("ok") {
        Some(true) => None,
        Some(false) => {
            let note = errors_note_text(document);
            if let Some(reason) = document.text_at("reason") {
                let mut text = "freeze failed: ".to_string();
                text.append(reason.as_str());
                text.append(note.as_str());
                return Some(text);
            }
            let (count, names) = match document.texts_at("running") {
                Some((list, count)) => (count, join(&list, ", ")),
                None => (0usize, String::new()),
            };
            let sweeps: u64 = match document.number_at("sweeps") {
                Some(n) => n,
                None => 0,
            };
            let mut text = "freeze failed: ".to_string();
            let shown = decimal(count as u64);
            text.append(shown.as_str());
            text.append(" animation(s) still running after ");
            let shown = decimal(sweeps);
            text.append(shown.as_str());
            text.append(" sweep(s): [");
            text.append(names.as_str());
            text.append("]");
            text.append(note.as_str());
            Some(text)
        },
        None => Some(no_flag_message(Check::Freeze, "ok", raw)),
    }
}

/// Why the page is not known to stand still, from what it handed back.
pub open spec fn freeze_finding(value: Evaluated) -> Option<Seq<char>> {
    match answer_document(Check::Freeze, value) {
        Ok(document) => freeze_problem(document, value->Text_0@),
        Err(message) => Some(message),
    }
}

/// Judges the answer to [`Check::Freeze`]: `Ok` only where the page says
/// `ok: true`.
pub fn freeze_verdict(value: &Evaluated, story_id: &str) -> (verdict: Result<(), RenderError>)
    ensures
        match freeze_finding(*value) {
            None => verdict is Ok,
            Some(message) => verdict matches Err(error) && error.is_story_failure(
                story_id@,
                message,
            ),
        },
{
    match read_answer(Check::Freeze, value) {
        Ok((document, raw)) => match judge_freeze(&document, raw.as_str()) {
            None => Ok(()),
            Some(message) => Err(story_failure(story_id, message)),
        },
        Err(message) => Err(story_failure(story_id, message)),
    }
}

// ── reduced motion ──────────────────────────────────────────────────────

/// Why reduced motion is not known to be in effect, from the answer `document`
/// that was read out of `raw`; `None` if it is known to be.
pub open spec fn reduced_motion_problem(document: crate::json::JsonView, raw: Seq<char>) -> Option<
    Seq<char>,
> {
    match document.bool_at("ok"@) {
        Some(true) => None,
        Some(false) => Some(
            "reduced-motion emulation was requested but could not be verified as applied"@
                + errors_note(document),
        ),
        None => Some(no_flag(Check::ReducedMotion, "ok"@, raw)),
    }
}

/// Judges a parsed answer to [`Check::ReducedMotion`].
pub fn judge_reduced_motion(document: &Json, raw: &str) -> (problem: Option<String>)
    ensures
        match problem {
            Some(message) => reduced_motion_problem(document@, raw@) == Some(message@),
            None => reduced_motion_problem(document@, raw@) is None,
        },
{
    match document.bool_at("ok") {
        Some(true) => None,
        Some(false) => {
            let mut text =
                "reduced-motion emulation was requested but could not be verified as applied".to_string();
            let note = errors_note_text(document);
            text.append(note.as_str());
            Some(text)
        },
        None => Some(no_flag_message(Check::ReducedMotion, "ok", raw)),
    }
}

/// Why reduced motion is not known to be in effect, from what the page handed
/// back.
pub open spec fn reduced_motion_finding(value: Evaluated) -> Option<Seq<char>> {
    match answer_document(Check::ReducedMotion, value) {
        Ok(document) => reduced_motion_problem(document, value->Text_0@),
        Err(message) => Some(message),
    }
}

/// Judges the answer to [`Check::ReducedMotion`]: `Ok` only where the page
/// says `ok: true`.
pub fn reduced_motion_verdict(value: &Evaluated, story_id: &str) -> (verdict: Result<
    (),
    RenderError,
>)
    ensures
        match reduced_motion_finding(*value) {
            None => verdict is Ok,
            Some(message) => verdict matches Err(error) && error.is_story_failure(
                story_id@,
                message,
            ),
        },
{
    match read_answer(Check::ReducedMotion, value) {
        Ok((document, raw)) => match judge_reduced_motion(&document, raw.as_str()) {
            None => Ok(()),
            Some(message) => Err(story_failure(story_id, message)),
        },
        Err(message) => Err(story_failure(story_id, message)),
    }
}

// ── fonts ───────────────────────────────────────────────────────────────

/// How many font families a warning names; the rest is counted.
pub const FONT_WARNING_MAX_FAMILIES: usize = 5;

/// The warning for the font families in `failed`, of which there is at least
/// one.
pub open spec fn font_warning(failed: Seq<Seq<char>>) -> Seq<char> {
    let listed = crate::text::joined(
        failed.take(if failed.len() <= FONT_WARNING_MAX_FAMILIES {
            failed.len() as int
        } else {
            FONT_WARNING_MAX_FAMILIES as int
        }),
        ", "@,
    );
    let suffix = if failed.len() > FONT_WARNING_MAX_FAMILIES {
        " and "@ + crate::text::decimal_text((failed.len() - FONT_WARNING_MAX_FAMILIES) as nat)
            + " more"@
    } else {
        Seq::empty()
    };
    crate::text::decimal_text(failed.len())
        + " font(s) failed to load; captured with fallback glyphs: "@ + listed + suffix
        + " — if the failing font is an external dependency whose responses vary between runs, the same build can produce different pictures; bundle the font files with the build or remove the @font-face reference to restore the intended glyphs"@
}

/// The font families that an answer lists as failed.
pub open spec fn failed_families(document: crate::json::JsonView) -> Seq<Seq<char>> {
    match document.items_at("failed"@) {
        Some(items) => crate::json::texts(items),
        None => Seq::empty(),
    }
}

/// What an answer to [`Check::Fonts`] comes to: the warning to capture with,
/// if any, or why the fonts are not known to be loaded.
pub open spec fn fonts_outcome(document: crate::json::JsonView, raw: Seq<char>) -> Result<
    Option<Seq<char>>,
    Seq<char>,
> {
    match document.bool_at("ok"@) {
        Some(true) => Ok(
            if failed_families(document).len() == 0 {
                None
            } else {
                Some(font_warning(failed_families(document)))
            },
        ),
        Some(false) => Err(
            "fonts were not verified as loaded before the capture"@ + errors_note(document),
        ),
        None => Err(no_flag(Check::Fonts, "ok"@, raw)),
    }
}

/// The warning for font families that failed to load.
fn font_warning_text(failed: &Vec<String>) -> (text: String)
    ensures
        text@ == font_warning(crate::text::views(failed@)),
{
    let shown: usize = if failed.len() <= FONT_WARNING_MAX_FAMILIES {
        failed.len()
    } else {
        FONT_WARNING_MAX_FAMILIES
    };
    let listed = join_first(failed, shown, ", ");
    let mut suffix = String::new();
    if failed.len() > FONT_WARNING_MAX_FAMILIES {
        suffix = " and ".to_string();
        let more = decimal((failed.len() - FONT_WARNING_MAX_FAMILIES) as u64);
        suffix.append(more.as_str());
        suffix.append(" more");
    }
    let mut text = decimal(failed.len() as u64);
    text.append(" font(s) failed to load; captured with fallback glyphs: ");
    text.append(listed.as_str());
    text.append(suffix.as_str());
    text.append(
        " — if the failing font is an external dependency whose responses vary between runs, the same build can produce different pictures; bundle the font files with the build or remove the @font-face reference to restore the intended glyphs",
    );
    text
}

/// An outcome of the fonts check in plain strings is the one stated.
pub open spec fn same_fonts_outcome(
    outcome: Result<Option<String>, String>,
    stated: Result<Option<Seq<char>>, Seq<char>>,
) -> bool {
    match (outcome, stated) {
        (Ok(None), Ok(None)) => true,
        (Ok(Some(warning)), Ok(Some(text))) => warning@ == text,
        (Err(message), Err(text)) => message@ == text,
        _ => false,
    }
}

/// Judges a parsed answer to [`Check::Fonts`].
pub fn judge_fonts(document: &Json, raw: &str) -> (outcome: Result<Option<String>, String>)
    ensures
        same_fonts_outcome(outcome, fonts_outcome(document@, raw@)),
        match outcome {
            Ok(None) => fonts_outcome(document@, raw@) == Ok::<Option<Seq<char>>, Seq<char>>(None),
            Ok(Some(warning)) => fonts_outcome(document@, raw@) == Ok::<
                Option<Seq<char>>,
                Seq<char>,
            >(Some(warning@)),
            Err(message) => fonts_outcome(document@, raw@) == Err::<Option<Seq<char>>, Seq<char>>(
                message@,
            ),
        },
{
    match document.bool_at("ok") {
        Some(true) => match document.texts_at("failed") {
            Some((failed, _)) => if failed.len() == 0 {
                Ok(None)
            } else {
                Ok(Some(font_warning_text(&failed)))
            },
            None => Ok(None),
        },
        Some(false) => {
            let mut text = "fonts were not verified as loaded before the capture".to_string();
            let note = errors_note_text(document);
            text.append(note.as_str());
            Err(text)
        },
        None => Err(no_flag_message(Check::Fonts, "ok", raw)),
    }
}

/// What the fonts check comes to, from what the page handed back.
pub open spec fn fonts_finding(value: Evaluated) -> Result<Option<Seq<char>>, Seq<char>> {
    match answer_document(Check::Fonts, value) {
        Ok(document) => fonts_outcome(document, value->Text_0@),
        Err(message) => Err(message),
    }
}

/// Judges the answer to [`Check::Fonts`]: `Ok` only where the page says
/// `ok: true`. Fonts that failed to load do not stop the capture; the warning
/// about them comes with it.
pub fn fonts_verdict(value: &Evaluated, story_id: &str) -> (verdict: Result<
    Option<String>,
    RenderError,
>)
    ensures
        match fonts_finding(*value) {
            Ok(None) => verdict == Ok::<Option<String>, RenderError>(None),
            Ok(Some(warning)) => verdict matches Ok(Some(text)) && text@ == warning,
            Err(message) => verdict matches Err(error) && error.is_story_failure(
                story_id@,
                message,
            ),
        },
{
    match read_answer(Check::Fonts, value) {
        Ok((document, raw)) => match judge_fonts(&document, raw.as_str()) {
            Ok(warning) => Ok(warning),
            Err(message) => Err(story_failure(story_id, message)),
        },
        Err(message) => Err(story_failure(story_id, message)),
    }
}

/// What an answer to [`Check::FontsRecheck`] comes to: whether the fonts still
/// stand as they were verified, or why that cannot be told.
pub open spec fn recheck_outcome(document: crate::json::JsonView, raw: Seq<char>) -> Result<
    bool,
    Seq<char>,
> {
    match document.bool_at("verified"@) {
        Some(verified) => Ok(verified && document.text_at("status"@) == Some("loaded"@)),
        None => Err(no_flag(Check::FontsRecheck, "verified"@, raw)),
    }
}

/// Judges a parsed answer to [`Check::FontsRecheck`].
pub fn judge_fonts_recheck(document: &Json, raw: &str) -> (outcome: Result<bool, String>)
    ensures
        match outcome {
            Ok(standing) => recheck_outcome(document@, raw@) == Ok::<bool, Seq<char>>(standing),
            Err(message) => recheck_outcome(document@, raw@) == Err::<bool, Seq<char>>(message@),
        },
{
    match document.bool_at("verified") {
        Some(verified) => {
            let loaded = match document.text_at("status") {
                Some(status) => same_text(status.as_str(), "loaded"),
                None => false,
            };
            Ok(verified && loaded)
        },
        None => Err(no_flag_message(Check::FontsRecheck, "verified", raw)),
    }
}

/// What the recheck comes to, from what the page handed back.
pub open spec fn recheck_finding(value: Evaluated) -> Result<bool, Seq<char>> {
    match answer_document(Check::FontsRecheck, value) {
        Ok(document) => recheck_outcome(document, value->Text_0@),
        Err(message) => Err(message),
    }
}

/// Judges the answer to [`Check::FontsRecheck`]. `Ok(true)`: capture.
/// `Ok(false)`: the document was replaced or new fonts are on their way, so
/// the whole round is run again.
pub fn fonts_recheck_verdict(value: &Evaluated, story_id: &str) -> (verdict: Result<
    bool,
    RenderError,
>)
    ensures
        match recheck_finding(*value) {
            Ok(standing) => verdict == Ok::<bool, RenderError>(standing),
            Err(message) => verdict matches Err(error) && error.is_story_failure(
                story_id@,
                message,
            ),
        },
{
    match read_answer(Check::FontsRecheck, value) {
        Ok((document, raw)) => match judge_fonts_recheck(&document, raw.as_str()) {
            Ok(standing) => Ok(standing),
            Err(message) => Err(story_failure(story_id, message)),
        },
        Err(message) => Err(story_failure(story_id, message)),
    }
}

// ── readiness ───────────────────────────────────────────────────────────

/// What the page says about the rendering of its story.
#[derive(Debug, PartialEq, Eq)]
pub enum Readiness {
    /// The story is rendered.
    Ready,
    /// The story failed to render.
    Error(String),
    /// The story is being rendered, or the answer says nothing.
    Pending,
    /// There is no Storybook runtime in the page. `dom_ready` says whether
    /// the root element has content.
    Absent { dom_ready: bool },
}

/// A readiness, in the terms of the contracts.
pub enum ReadinessView {
    Ready,
    Error(Seq<char>),
    Pending,
    Absent { dom_ready: bool },
}

impl View for Readiness {
    type V = ReadinessView;

    open spec fn view(&self) -> ReadinessView {
        match self {
            Readiness::Ready => ReadinessView::Ready,
            Readiness::Error(message) => ReadinessView::Error(message@),
            Readiness::Pending => ReadinessView::Pending,
            Readiness::Absent { dom_ready } => ReadinessView::Absent { dom_ready: *dom_ready },
        }
    }
}

/// The readiness that an answer of the probe states.
pub open spec fn stated_readiness(document: crate::json::JsonView) -> ReadinessView {
    match document.text_at("state"@) {
        Some(state) => if state == "ready"@ {
            ReadinessView::Ready
        } else if state == "error"@ {
            ReadinessView::Error(
                match document.text_at("message"@) {
                    Some(message) => message,
                    None => "unknown error"@,
                },
            )
        } else if state == "absent"@ {
            ReadinessView::Absent { dom_ready: document.bool_at("dom_ready"@) == Some(true) }
        } else {
            ReadinessView::Pending
        },
        None => ReadinessView::Pending,
    }
}

/// The readiness in what the page handed back. What cannot be read counts as
/// pending.
pub open spec fn readiness_of(value: Evaluated) -> ReadinessView {
    match value {
        Evaluated::Text(raw) => match crate::json::json_document(raw@) {
            Ok(document) => stated_readiness(document),
            Err(_) => ReadinessView::Pending,
        },
        Evaluated::Other(_) => ReadinessView::Pending,
    }
}

impl Readiness {
    /// Reads a parsed answer of the probe.
    pub fn from_document(document: &Json) -> (readiness: Readiness)
        ensures
            readiness@ == stated_readiness(document@),
    {
        let state = match document.text_at("state") {
            Some(state) => state,
            None => {
                return Readiness::Pending;
            },
        };
        if same_text(state.as_str(), "ready") {
            Readiness::Ready
        } else if same_text(state.as_str(), "error") {
            Readiness::Error(
                match document.text_at("message") {
                    Some(message) => message.clone(),
                    None => "unknown error".to_string(),
                },
            )
        } else if same_text(state.as_str(), "absent") {
            let dom_ready = match document.bool_at("dom_ready") {
                Some(dom_ready) => dom_ready,
                None => false,
            };
            Readiness::Absent { dom_ready }
        } else {
            Readiness::Pending
        }
    }

    /// Reads what the page handed back for the readiness probe.
    pub fn parse(value: &Evaluated) -> (readiness: Readiness)
        ensures
            readiness@ == readiness_of(*value),
    {
        match value {
            Evaluated::Text(raw) => match parse_json(raw.as_str()) {
                Ok(document) => Readiness::from_document(&document),
                Err(_) => Readiness::Pending,
            },
            Evaluated::Other(_) => Readiness::Pending,
        }
    }
}

// ── what holds of every verdict ─────────────────────────────────────────

/// The document in a readable answer.
pub open spec fn readable(value: Evaluated) -> Option<crate::json::JsonView> {
    match value {
        Evaluated::Text(raw) => match crate::json::json_document(raw@) {
            Ok(document) => Some(document),
            Err(_) => None,
        },
        Evaluated::Other(_) => None,
    }
}

/// Every check fails closed: the capture goes on only where the page said in
/// as many words that it may.
pub proof fn law_checks_fail_closed(value: Evaluated)
    ensures
        freeze_finding(value) is None <==> (readable(value) matches Some(document)
            && document.bool_at("ok"@) == Some(true)),
        reduced_motion_finding(value) is None <==> (readable(value) matches Some(document)
            && document.bool_at("ok"@) == Some(true)),
        fonts_finding(value) is Ok <==> (readable(value) matches Some(document)
            && document.bool_at("ok"@) == Some(true)),
        recheck_finding(value) == Ok::<bool, Seq<char>>(true) <==> (readable(value) matches Some(
            document,
        ) && document.bool_at("verified"@) == Some(true) && document.text_at("status"@) == Some(
            "loaded"@,
        )),
{
}

/// An answer that cannot be read never counts as rendered: it is asked again.
pub proof fn law_unreadable_probes_wait(value: Evaluated)
    ensures
        readable(value) is None ==> readiness_of(value) == ReadinessView::Pending,
        readiness_of(value) == ReadinessView::Ready <==> (readable(value) matches Some(document)
            && document.text_at("state"@) == Some("ready"@)),
{
    reveal_strlit("ready");
    reveal_strlit("error");
    reveal_strlit("absent");
}

/// The two ways in which a standstill is not known to be reached are told
/// apart by how the message begins: the page says that it failed, or its
/// answer cannot be read.
pub proof fn law_freeze_failures_are_told_apart(value: Evaluated)
    ensures
        freeze_finding(value) matches Some(message) ==> if readable(value) matches Some(document)
            && document.bool_at("ok"@) == Some(false) {
            "freeze failed: "@.is_prefix_of(message)
        } else {
            "freeze result was unparseable: "@.is_prefix_of(message)
        },
{
    reveal_strlit("freeze failed: ");
    reveal_strlit("freeze result was unparseable: ");
    reveal_strlit("freeze result");
    reveal_strlit(" was unparseable: ");
    let failed = "freeze failed: "@;
    let unread = "freeze result was unparseable: "@;
    assert(unread =~= "freeze result"@ + " was unparseable: "@);
    if let Some(message) = freeze_finding(value) {
        if readable(value) is Some && readable(value)->0.bool_at("ok"@) == Some(false) {
            assert(message.subrange(0, failed.len() as int) =~= failed);
        } else {
            assert(message.subrange(0, unread.len() as int) =~= unread);
        }
    }
}

/// A warning names at most five font families: those beyond are only counted,
/// whatever their names.
pub proof fn law_font_warnings_are_bounded(a: Seq<Seq<char>>, b: Seq<Seq<char>>)
    requires
        a.len() == b.len(),
        a.len() > FONT_WARNING_MAX_FAMILIES,
        a.take(FONT_WARNING_MAX_FAMILIES as int) == b.take(FONT_WARNING_MAX_FAMILIES as int),
    ensures
        font_warning(a) == font_warning(b),
{
}

/// An answer that is no string, or no document, is shown in full, with what
/// the parser said of it.
pub proof fn law_unreadable_answers_are_shown(check: Check, value: Evaluated)
    ensures
        match value {
            Evaluated::Other(shown) => answer_document(check, value) matches Err(text) && (
            "expected a JSON string, got "@ + shown@).is_suffix_of(text),
            Evaluated::Text(raw) => match crate::json::json_document(raw@) {
                Err(message) => answer_document(check, value) matches Err(text) && (message
                    + " (raw: "@ + raw@ + ")"@).is_suffix_of(text),
                Ok(document) => answer_document(check, value) == Ok::<
                    crate::json::JsonView,
                    Seq<char>,
                >(document),
            },
        },
{
    if let Err(text) = answer_document(check, value) {
        let end = match value {
            Evaluated::Other(shown) => "expected a JSON string, got "@ + shown@,
            Evaluated::Text(raw) => crate::json::json_document(raw@)->Err_0 + " (raw: "@ + raw@
                + ")"@,
        };
        assert(text.subrange(text.len() - end.len(), text.len() as int) =~= end);
    }
}

/// The diagnostics that the page gives with its answer end the message: all of
/// them, however many, with semicolons between; without an array of them
/// nothing is added.
pub proof fn law_diagnostics_end_the_message(document: crate::json::JsonView)
    ensures
        match document.items_at("errors"@) {
            Some(items) => errors_note(document) == " (errors: "@ + crate::text::joined(
                crate::json::texts(items),
                seq![';', ' '],
            ) + ")"@,
            None => errors_note(document).len() == 0,
        },
{
    reveal_strlit("; ");
    assert("; "@ =~= seq![';', ' ']);
}

/// What a page that does not stand still is reported with: the reason that it
/// gives, or else how many animations are running, after how many sweeps, and
/// the names of all of them; and the diagnostics.
pub proof fn law_freeze_failures_are_told(document: crate::json::JsonView, raw: Seq<char>)
    requires
        document.bool_at("ok"@) == Some(false),
    ensures
        document.text_at("reason"@) matches Some(reason) ==> freeze_problem(document, raw) == Some(
            "freeze failed: "@ + reason + errors_note(document),
        ),
        document.text_at("reason"@) is None ==> {
            let items = if document.items_at("running"@) is Some {
                document.items_at("running"@)->0
            } else {
                Seq::empty()
            };
            let sweeps = if document.number_at("sweeps"@) is Some {
                document.number_at("sweeps"@)->0 as nat
            } else {
                0
            };
            freeze_problem(document, raw) == Some(
                "freeze failed: "@ + crate::text::decimal_text(items.len())
                    + " animation(s) still running after "@ + crate::text::decimal_text(sweeps)
                    + " sweep(s): ["@ + crate::text::joined(crate::json::texts(items), seq![',', ' '])
                    + "]"@ + errors_note(document),
            )
        },
{
    reveal_strlit(", ");
    assert(", "@ =~= seq![',', ' ']);
}

/// A warning gives the number of all font families that failed and names them:
/// all of them up to five, else the first five and how many more there are.
pub proof fn law_font_warnings_name_families(failed: Seq<Seq<char>>)
    ensures
        (crate::text::decimal_text(failed.len())
            + " font(s) failed to load; captured with fallback glyphs: "@ + if failed.len() <= 5 {
            crate::text::joined(failed, seq![',', ' '])
        } else {
            crate::text::joined(failed.take(5), seq![',', ' ']) + " and "@
                + crate::text::decimal_text((failed.len() - 5) as nat) + " more"@
        }).is_prefix_of(font_warning(failed)),
{
    reveal_strlit(", ");
    assert(", "@ =~= seq![',', ' ']);
    assert(failed.take(failed.len() as int) =~= failed);
    let front = crate::text::decimal_text(failed.len())
        + " font(s) failed to load; captured with fallback glyphs: "@ + if failed.len() <= 5 {
        crate::text::joined(failed, seq![',', ' '])
    } else {
        crate::text::joined(failed.take(5), seq![',', ' ']) + " and "@ + crate::text::decimal_text(
            (failed.len() - 5) as nat,
        ) + " more"@
    };
    assert(font_warning(failed).subrange(0, front.len() as int) =~= front);
}

/// The families that failed are the texts in the array `failed`, all of them;
/// a warning is given exactly if there is one. The capture goes on either way.
pub proof fn law_failed_fonts_only_warn(document: crate::json::JsonView, raw: Seq<char>)
    requires
        document.bool_at("ok"@) == Some(true),
    ensures
        fonts_outcome(document, raw) == Ok::<Option<Seq<char>>, Seq<char>>(
            match document.items_at("failed"@) {
                Some(items) => if crate::json::texts(items).len() > 0 {
                    Some(font_warning(crate::json::texts(items)))
                } else {
                    None
                },
                None => None,
            },
        ),
{
}

/// A check that is not passed is reported as such with the diagnostics; an
/// answer without the boolean that decides is reported with its raw text.
pub proof fn law_unpassed_checks_are_told(document: crate::json::JsonView, raw: Seq<char>)
    ensures
        document.bool_at("ok"@) == Some(false) ==> {
            &&& reduced_motion_problem(document, raw) == Some(
                "reduced-motion emulation was requested but could not be verified as applied"@
                    + errors_note(document),
            )
            &&& fonts_outcome(document, raw) == Err::<Option<Seq<char>>, Seq<char>>(
                "fonts were not verified as loaded before the capture"@ + errors_note(document),
            )
        },
        document.bool_at("ok"@) is None ==> {
            let end = "missing or non-boolean `"@ + "ok"@ + "` key (raw: "@ + raw + ")"@;
            &&& freeze_problem(document, raw) matches Some(text) && end.is_suffix_of(text)
            &&& reduced_motion_problem(document, raw) matches Some(text) && end.is_suffix_of(text)
            &&& fonts_outcome(document, raw) matches Err(text) && end.is_suffix_of(text)
        },
        document.bool_at("verified"@) is None ==> {
            let end = "missing or non-boolean `"@ + "verified"@ + "` key (raw: "@ + raw + ")"@;
            recheck_outcome(document, raw) matches Err(text) && end.is_suffix_of(text)
        },
        document.bool_at("verified"@) is Some ==> recheck_outcome(document, raw) == Ok::<
            bool,
            Seq<char>,
        >(document.bool_at("verified"@) == Some(true) && document.text_at("status"@) == Some(
            "loaded"@,
        )),
{
    if document.bool_at("ok"@) is None {
        let end = "missing or non-boolean `"@ + "ok"@ + "` key (raw: "@ + raw + ")"@;
        let a = freeze_problem(document, raw)->0;
        let b = reduced_motion_problem(document, raw)->0;
        let c = fonts_outcome(document, raw)->Err_0;
        assert(a.subrange(a.len() - end.len(), a.len() as int) =~= end);
        assert(b.subrange(b.len() - end.len(), b.len() as int) =~= end);
        assert(c.subrange(c.len() - end.len(), c.len() as int) =~= end);
    }
    if document.bool_at("verified"@) is None {
        let end = "missing or non-boolean `"@ + "verified"@ + "` key (raw: "@ + raw + ")"@;
        let a = recheck_outcome(document, raw)->Err_0;
        assert(a.subrange(a.len() - end.len(), a.len() as int) =~= end);
    }
}

/// A string that the page hands back is taken as it is, however long it is;
/// anything else is kept as it prints.
pub proof fn law_strings_are_taken_as_they_are(value: serde_json::Value, evaluated: Evaluated)
    requires
        is_evaluated(Some(value), evaluated),
    ensures
        crate::json::json_content(value) matches crate::json::JsonView::Text(text) ==> (
        evaluated matches Evaluated::Text(held) && held@ == text),
        !(crate::json::json_content(value) is Text) ==> (evaluated matches Evaluated::Other(shown)
            && shown@ == "Some("@ + crate::json::json_shown(crate::json::json_content(value))
            + ")"@),
{
}

} // verus!
