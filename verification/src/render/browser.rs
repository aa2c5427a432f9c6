//! Options, failures and addresses of a render in a headless browser.
use vstd::prelude::*;
use vstd::string::*;

use vstd::utf8::*;

use crate::span::Span;
use crate::text::trim_end;

verus! {

/// How long one story may take by default, in milliseconds.
pub const DEFAULT_STORY_TIMEOUT: u64 = 30_000;

/// How a story is rendered.
#[derive(Debug, Clone)]
pub struct RenderOptions {
    /// The browser's executable.
    pub chromium_path: String,
    pub viewport_width: u32,
    pub viewport_height: u32,
    /// The time that all stages of one story share.
    pub story_timeout: Span,
    /// Whether caret and animations are brought to a standstill before the
    /// capture.
    pub freeze_before_capture: bool,
    /// Whether the page is shown as to a reader who asked for reduced motion.
    pub emulate_reduced_motion: bool,
    /// Whether the fonts are waited for before the capture.
    pub wait_for_fonts: bool,
}

impl RenderOptions {
    /// The options for a browser and a viewport: the default time, a
    /// standstill and loaded fonts, no reduced motion.
    pub fn new(chromium_path: &str, viewport_width: u32, viewport_height: u32) -> (options: Self)
        ensures
            options.chromium_path@ == chromium_path@,
            options.viewport_width == viewport_width,
            options.viewport_height == viewport_height,
            options.story_timeout.seconds() == 30,
            options.story_timeout.subsecond() == 0,
            options.story_timeout.total() == DEFAULT_STORY_TIMEOUT * 1_000_000,
            options.freeze_before_capture,
            !options.emulate_reduced_motion,
            options.wait_for_fonts,
    {
        RenderOptions {
            chromium_path: chromium_path.to_string(),
            viewport_width,
            viewport_height,
            story_timeout: Span::from_millis(DEFAULT_STORY_TIMEOUT),
            freeze_before_capture: true,
            emulate_reduced_motion: false,
            wait_for_fonts: true,
        }
    }
}

/// A captured story.
#[derive(Debug)]
pub struct RenderedStory {
    /// The picture.
    pub png: Vec<u8>,
    /// The warning about fonts that failed to load in the captured round.
    pub font_warning: Option<String>,
}

/// What kind of failure the browser connection reported.
#[derive(Debug, Clone, Copy, PartialEq, Eq, Structural)]
pub enum FaultKind {
    /// The browser did not announce its address in time.
    LaunchTimeout,
    /// The browser process ended while it was starting.
    LaunchExit,
    /// The pipes of the starting browser failed.
    LaunchIo,
    /// Anything else.
    Other,
}

/// A failure that the browser connection reported.
#[derive(Debug, Clone)]
pub struct CdpFault {
    pub kind: FaultKind,
    pub message: String,
}

/// Why a story was not rendered.
#[derive(Debug)]
pub enum RenderError {
    /// The browser could not be started.
    Launch { path: String, source: CdpFault },
    /// The local server, or the profile directory, could not be set up.
    Server(String),
    /// The time of one story is used up. Every stage of a story draws on the
    /// same deadline; `phase` says which one was running.
    Timeout { story_id: String, timeout: Span, phase: &'static str },
    /// The page itself reported that the story failed, or a check of the page
    /// did not pass.
    Story { story_id: String, message: String },
    /// The browser connection failed.
    Cdp { story_id: String, source: CdpFault },
}

/// A failure of the browser connection, in the terms of the contracts.
pub struct FaultView {
    pub kind: FaultKind,
    pub message: Seq<char>,
}

impl View for CdpFault {
    type V = FaultView;

    open spec fn view(&self) -> FaultView {
        FaultView { kind: self.kind, message: self.message@ }
    }
}

/// A render error, in the terms of the contracts.
pub enum ErrorView {
    Launch { path: Seq<char>, source: FaultView },
    Server(Seq<char>),
    Timeout { story_id: Seq<char>, timeout: Span, phase: Seq<char> },
    Story { story_id: Seq<char>, message: Seq<char> },
    Cdp { story_id: Seq<char>, source: FaultView },
}

impl View for RenderError {
    type V = ErrorView;

    open spec fn view(&self) -> ErrorView {
        match self {
            RenderError::Launch { path, source } => ErrorView::Launch {
                path: path@,
                source: source@,
            },
            RenderError::Server(detail) => ErrorView::Server(detail@),
            RenderError::Timeout { story_id, timeout, phase } => ErrorView::Timeout {
                story_id: story_id@,
                timeout: *timeout,
                phase: phase@,
            },
            RenderError::Story { story_id, message } => ErrorView::Story {
                story_id: story_id@,
                message: message@,
            },
            RenderError::Cdp { story_id, source } => ErrorView::Cdp {
                story_id: story_id@,
                source: source@,
            },
        }
    }
}

impl RenderError {
    /// The text in which the error is reported.
    pub open spec fn text(self) -> Seq<char> {
        match self {
            RenderError::Launch { path, source } => "failed to launch chromium at "@ + path@ + ": "@
                + source.message@,
            RenderError::Server(detail) => "failed to start the bundle static server: "@ + detail@,
            RenderError::Timeout { story_id, timeout, phase } => "story `"@ + story_id@
                + "` did not complete within "@ + crate::span::duration_text(
                timeout.seconds(),
                timeout.subsecond(),
            ) + ": "@ + phase@,
            RenderError::Story { story_id, message } => "story `"@ + story_id@
                + "` reported a render error: "@ + message@,
            RenderError::Cdp { story_id, source } => "story `"@ + story_id@
                + "` failed to render: "@ + source.message@,
        }
    }

    /// The text in which the error is reported.
    pub fn message(&self) -> (text: String)
        ensures
            text@ == self.text(),
    {
        match self {
            RenderError::Launch { path, source } => {
                let mut text = "failed to launch chromium at ".to_string();
                text.append(path.as_str());
                text.append(": ");
                text.append(source.message.as_str());
                text
            },
            RenderError::Server(detail) => {
                let mut text = "failed to start the bundle static server: ".to_string();
                text.append(detail.as_str());
                text
            },
            RenderError::Timeout { story_id, timeout, phase } => {
                let mut text = "story `".to_string();
                text.append(story_id.as_str());
                text.append("` did not complete within ");
                let shown = timeout.text();
                text.append(shown.as_str());
                text.append(": ");
                text.append(*phase);
                text
            },
            RenderError::Story { story_id, message } => {
                let mut text = "story `".to_string();
                text.append(story_id.as_str());
                text.append("` reported a render error: ");
                text.append(message.as_str());
                text
            },
            RenderError::Cdp { story_id, source } => {
                let mut text = "story `".to_string();
                text.append(story_id.as_str());
                text.append("` failed to render: ");
                text.append(source.message.as_str());
                text
            },
        }
    }

    /// A failure of the story `story_id` with `message`.
    pub open spec fn is_story_failure(self, story_id: Seq<char>, message: Seq<char>) -> bool {
        self@ == (ErrorView::Story { story_id, message })
    }
}

/// Whether a failed start of the browser may succeed when it is tried again.
///
/// A start that ran out of time, a process that ended at once and a broken
/// pipe come from a loaded machine. A missing executable is none of these.
pub fn is_transient_launch_error(source: &CdpFault) -> (transient: bool)
    ensures
        transient == !(source.kind is Other),
{
    match source.kind {
        FaultKind::LaunchTimeout | FaultKind::LaunchExit | FaultKind::LaunchIo => true,
        FaultKind::Other => false,
    }
}

// ── addresses ───────────────────────────────────────────────────────────

/// A byte that stands for itself in a query value.
pub open spec fn is_unreserved(byte: u8) -> bool {
    ||| 0x41 <= byte <= 0x5a
    ||| 0x61 <= byte <= 0x7a
    ||| 0x30 <= byte <= 0x39
    ||| byte == 0x2d
    ||| byte == 0x5f
    ||| byte == 0x2e
    ||| byte == 0x7e
}

/// An upper-case hexadecimal digit.
pub open spec fn upper_hex(digit: u8) -> char {
    if digit < 10 {
        (48 + digit) as char
    } else {
        (55 + digit) as char
    }
}

/// One byte of a query value: itself, or a percent sign and two digits.
pub open spec fn encoded_byte(byte: u8) -> Seq<char> {
    if is_unreserved(byte) {
        seq![byte as char]
    } else {
        seq!['%', upper_hex(byte / 16), upper_hex(byte % 16)]
    }
}

/// Bytes as a query value.
pub open spec fn encoded(bytes: Seq<u8>) -> Seq<char>
    decreases bytes.len(),
{
    if bytes.len() == 0 {
        Seq::empty()
    } else {
        encoded_byte(bytes[0]) + encoded(bytes.drop_first())
    }
}

/// The address under which the server at `base` shows a story.
pub open spec fn story_address(base: Seq<char>, story_id: Seq<char>) -> Seq<char> {
    crate::text::trimmed_end(base, '/') + "/iframe.html?id="@ + encoded(encode_utf8(story_id))
        + "&viewMode=story"@
}

fn upper_hex_digit(digit: u8) -> (c: char)
    requires
        digit < 16,
    ensures
        c == upper_hex(digit),
{
    if digit < 10 {
        (48 + digit) as char
    } else {
        (55 + digit) as char
    }
}

/// Writes a text as a query value.
pub fn urlencode(value: &str) -> (out: String)
    ensures
        out@ == encoded(encode_utf8(value@)),
{
    let bytes = value.as_bytes();
    let mut out = String::new();
    let mut i: usize = 0;
    assert(bytes@.skip(0) =~= bytes@);
    assert(out@ + encoded(bytes@) =~= encoded(bytes@));
    while i < bytes.len()
        invariant
            i <= bytes.len(),
            out@ + encoded(bytes@.skip(i as int)) == encoded(bytes@),
        decreases bytes.len() - i,
    {
        let byte: u8 = bytes[i];
        let ghost before = out@;
        if (0x41 <= byte && byte <= 0x5a) || (0x61 <= byte && byte <= 0x7a) || (0x30 <= byte && byte
            <= 0x39) || byte == 0x2d || byte == 0x5f || byte == 0x2e || byte == 0x7e {
            out.push(byte as char);
        } else {
            out.push('%');
            out.push(upper_hex_digit(byte / 16));
            out.push(upper_hex_digit(byte % 16));
        }
        assert(out@ =~= before + encoded_byte(byte));
        assert(bytes@.skip(i as int).drop_first() =~= bytes@.skip(i + 1));
        assert(out@ + encoded(bytes@.skip(i + 1)) =~= before + (encoded_byte(byte) + encoded(
            bytes@.skip(i + 1),
        )));
        i += 1;
    }
    assert(out@ + encoded(bytes@.skip(i as int)) =~= out@);
    out
}

/// The address under which the server at `base_url` shows a story.
pub fn story_url(base_url: &str, story_id: &str) -> (url: String)
    ensures
        url@ == story_address(base_url@, story_id@),
{
    let mut url = trim_end(base_url, '/');
    url.append("/iframe.html?id=");
    let id = urlencode(story_id);
    url.append(id.as_str());
    url.append("&viewMode=story");
    url
}

/// The address of a server that listens on `addr`, such as `127.0.0.1:80`.
pub fn base_url(addr: &str) -> (url: String)
    ensures
        url@ == "http://"@ + addr@,
{
    let mut url = "http://".to_string();
    url.append(addr);
    url
}

/// Whether a character can stand in a query value without being escaped, or
/// starts an escape.
pub open spec fn is_query_char(c: char) -> bool {
    c == '%' || (c as u32 <= 0x7f && is_unreserved(c as u8))
}

/// A query value holds unreserved characters and escapes, nothing else: it
/// cannot end the value or start another.
pub proof fn law_encoded_is_safe(bytes: Seq<u8>)
    ensures
        forall|i: int| 0 <= i < encoded(bytes).len() ==> is_query_char(#[trigger] encoded(bytes)[i]),
    decreases bytes.len(),
{
    if bytes.len() > 0 {
        law_encoded_is_safe(bytes.drop_first());
        let head = encoded_byte(bytes[0]);
        let rest = encoded(bytes.drop_first());
        assert forall|i: int| 0 <= i < encoded(bytes).len() implies is_query_char(
            #[trigger] encoded(bytes)[i],
        ) by {
            if i < head.len() {
                assert(encoded(bytes)[i] == head[i]);
            } else {
                assert(encoded(bytes)[i] == rest[i - head.len()]);
            }
        }
    }
}

proof fn lemma_encoded_byte_prefix(a: u8, x: Seq<char>, b: u8, y: Seq<char>)
    requires
        encoded_byte(a) + x == encoded_byte(b) + y,
    ensures
        a == b,
        x == y,
{
    let p = encoded_byte(a);
    let q = encoded_byte(b);
    assert((p + x)[0] == p[0]);
    assert((q + y)[0] == q[0]);
    if is_unreserved(a) {
        assert(p[0] == a as char);
        assert(is_unreserved(b));
    } else {
        assert(p[0] == '%');
        assert(!is_unreserved(b));
        assert((p + x)[1] == p[1] && (p + x)[2] == p[2]);
        assert((q + y)[1] == q[1] && (q + y)[2] == q[2]);
        assert(a / 16 == b / 16 && a % 16 == b % 16);
        assert(a == 16 * (a / 16) + a % 16);
        assert(b == 16 * (b / 16) + b % 16);
    }
    assert((p + x).skip(p.len() as int) =~= x);
    assert((q + y).skip(q.len() as int) =~= y);
}

/// Different bytes give different query values.
pub proof fn law_encoded_is_injective(a: Seq<u8>, b: Seq<u8>)
    requires
        encoded(a) == encoded(b),
    ensures
        a == b,
    decreases a.len(),
{
    if a.len() == 0 {
        if b.len() > 0 {
            assert(encoded(b).len() >= encoded_byte(b[0]).len());
        }
        assert(a =~= b);
    } else if b.len() == 0 {
        assert(encoded(a).len() >= encoded_byte(a[0]).len());
    } else {
        lemma_encoded_byte_prefix(
            a[0],
            encoded(a.drop_first()),
            b[0],
            encoded(b.drop_first()),
        );
        law_encoded_is_injective(a.drop_first(), b.drop_first());
        assert(a =~= seq![a[0]] + a.drop_first());
        assert(b =~= seq![b[0]] + b.drop_first());
    }
}

/// One server shows different stories under different addresses.
pub proof fn law_story_addresses_are_distinct(base: Seq<char>, a: Seq<char>, b: Seq<char>)
    requires
        story_address(base, a) == story_address(base, b),
    ensures
        a == b,
{
    let front = crate::text::trimmed_end(base, '/') + "/iframe.html?id="@;
    let x = encoded(encode_utf8(a));
    let y = encoded(encode_utf8(b));
    let end = "&viewMode=story"@;
    let whole = story_address(base, a);
    assert(whole.len() == front.len() + x.len() + end.len());
    assert(whole.len() == front.len() + y.len() + end.len());
    assert((front + x + end).subrange(front.len() as int, (front.len() + x.len()) as int) =~= x);
    assert((front + y + end).subrange(front.len() as int, (front.len() + y.len()) as int) =~= y);
    law_encoded_is_injective(encode_utf8(a), encode_utf8(b));
    encode_utf8_decode_utf8(a);
    encode_utf8_decode_utf8(b);
}

/// A query value is written byte by byte, wherever it is parted: letters,
/// digits and `-`, `_`, `.`, `~` stand for themselves, and every other byte is
/// a percent sign and two hexadecimal digits, the high one first.
pub proof fn law_encoding_is_bytewise(a: Seq<u8>, b: Seq<u8>, byte: u8)
    ensures
        encoded(a + b) == encoded(a) + encoded(b),
        ({
            let c = byte as char;
            let plain = 'A' <= c <= 'Z' || 'a' <= c <= 'z' || '0' <= c <= '9' || c == '-' || c == '_'
                || c == '.' || c == '~';
            let text = encoded(seq![byte]);
            if plain {
                text == seq![c]
            } else {
                &&& text.len() == 3
                &&& text[0] == '%'
                &&& hex_place(text[1]) * 16 + hex_place(text[2]) == byte
                &&& 0 <= hex_place(text[1]) < 16 && 0 <= hex_place(text[2]) < 16
            }
        }),
    decreases a.len(),
{
    if a.len() == 0 {
        assert(a + b =~= b);
        assert(encoded(a) + encoded(b) =~= encoded(b));
    } else {
        law_encoding_is_bytewise(a.drop_first(), b, byte);
        assert((a + b).drop_first() =~= a.drop_first() + b);
        assert((a + b)[0] == a[0]);
        assert(encoded(a + b) =~= encoded(a) + encoded(b));
    }
    reveal_with_fuel(encoded, 2);
    assert(seq![byte].drop_first() =~= Seq::<u8>::empty());
    assert(encoded(seq![byte]) =~= encoded_byte(byte));
}

/// The number that an upper-case hexadecimal digit stands for; no other
/// character stands for a number below sixteen.
pub open spec fn hex_place(c: char) -> int {
    if '0' <= c <= '9' {
        c as int - '0' as int
    } else if 'A' <= c <= 'F' {
        c as int - 'A' as int + 10
    } else {
        16
    }
}

/// The address of a story is the server's, without the slashes at its end,
/// however many there are, and the fixed path with the story's identifier as a
/// query value.
pub proof fn law_story_addresses(base: Seq<char>, slashes: nat, story_id: Seq<char>)
    requires
        base.len() > 0,
        base.last() != '/',
    ensures
        story_address(base + crate::text::repeated('/', slashes), story_id) == base
            + "/iframe.html?id="@ + encoded(encode_utf8(story_id)) + "&viewMode=story"@,
{
    crate::text::law_trimming_takes_what_was_added(base, '/', slashes);
}

/// Every render error is told in full: the story, and what was said about it.
pub proof fn law_errors_are_told_in_full(error: RenderError)
    ensures
        match error {
            RenderError::Launch { path, source } => error.text() == "failed to launch chromium at "@
                + path@ + ": "@ + source.message@,
            RenderError::Server(detail) => error.text()
                == "failed to start the bundle static server: "@ + detail@,
            RenderError::Timeout { story_id, timeout, phase } => {
                &&& ("story `"@ + story_id@ + "` did not complete within "@).is_prefix_of(
                    error.text(),
                )
                &&& (crate::span::duration_text(timeout.seconds(), timeout.subsecond()) + ": "@
                    + phase@).is_suffix_of(error.text())
            },
            RenderError::Story { story_id, message } => error.text() == "story `"@ + story_id@
                + "` reported a render error: "@ + message@,
            RenderError::Cdp { story_id, source } => error.text() == "story `"@ + story_id@
                + "` failed to render: "@ + source.message@,
        },
{
    if let RenderError::Timeout { story_id, timeout, phase } = error {
        let text = error.text();
        let front = "story `"@ + story_id@ + "` did not complete within "@;
        let end = crate::span::duration_text(timeout.seconds(), timeout.subsecond()) + ": "@
            + phase@;
        assert(text.subrange(0, front.len() as int) =~= front);
        assert(text.subrange(text.len() - end.len(), text.len() as int) =~= end);
    }
}

} // verus!
