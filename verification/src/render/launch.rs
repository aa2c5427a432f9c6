//! Starting the browser, and trying again.
use vstd::prelude::*;
use vstd::string::*;

use crate::order::order_by_name;
use crate::paths::push_name;
use crate::render::browser::{RenderError, RenderOptions, RenderedStory, is_transient_launch_error};
use crate::text::{chars_of, starts_with};
use vstd::slice::slice_to_vec;

verus! {

/// How long the browser may take to start, in milliseconds.
pub const LAUNCH_TIMEOUT: u64 = 45_000;

/// How often a start is tried.
pub const LAUNCH_MAX_ATTEMPTS: u32 = 3;

/// How the browser is started.
#[derive(Debug)]
pub struct LaunchPlan {
    /// The executable.
    pub executable: String,
    /// What the name of the directory for the browser's profile begins with.
    /// Every start gets a directory of its own: a shared one would be locked
    /// by another browser.
    pub profile_prefix: &'static str,
    /// How long the start may take, in milliseconds.
    pub timeout: u64,
    /// The width of the viewport and of the window.
    pub width: u32,
    /// The height of the viewport and of the window.
    pub height: u32,
    /// Whether the browser confines itself. In a container it cannot.
    pub sandbox: bool,
    pub arguments: Vec<&'static str>,
}

/// The arguments with which the browser is started.
pub open spec fn launch_arguments() -> Seq<Seq<char>> {
    seq![
        "--disable-gpu"@,
        "--disable-dev-shm-usage"@,
        "--hide-scrollbars"@,
        "--force-device-scale-factor=1"@,
    ]
}

/// How the browser is started for the given options.
pub fn launch_plan(options: &RenderOptions) -> (plan: LaunchPlan)
    ensures
        plan.executable@ == options.chromium_path@,
        plan.profile_prefix@ == "vrt-chromium-"@,
        plan.timeout == LAUNCH_TIMEOUT,
        plan.width == options.viewport_width,
        plan.height == options.viewport_height,
        !plan.sandbox,
        plan.arguments@.map_values(|argument: &'static str| argument@) == launch_arguments(),
{
    let mut arguments: Vec<&'static str> = Vec::new();
    arguments.push("--disable-gpu");
    arguments.push("--disable-dev-shm-usage");
    arguments.push("--hide-scrollbars");
    arguments.push("--force-device-scale-factor=1");
    assert(arguments@.map_values(|argument: &'static str| argument@) =~= launch_arguments());
    LaunchPlan {
        executable: options.chromium_path.clone(),
        profile_prefix: "vrt-chromium-",
        timeout: LAUNCH_TIMEOUT,
        width: options.viewport_width,
        height: options.viewport_height,
        sandbox: false,
        arguments,
    }
}

/// The error for a profile directory that cannot be made.
pub fn profile_failure(message: &str) -> (error: RenderError)
    ensures
        error@ == crate::render::browser::ErrorView::Server(
            "create chromium profile dir: "@ + message@,
        ),
{
    let mut text = "create chromium profile dir: ".to_string();
    text.append(message);
    RenderError::Server(text)
}

/// A step of starting the local server.
#[derive(Debug, Clone, Copy, PartialEq, Eq, Structural)]
pub enum ServerStep {
    /// Taking a port.
    Bind,
    /// Asking which port it is.
    LocalAddr,
}

/// The error for a local server that cannot be started.
pub fn server_failure(step: ServerStep, message: &str) -> (error: RenderError)
    ensures
        error@ == crate::render::browser::ErrorView::Server(
            (match step {
                ServerStep::Bind => "bind 127.0.0.1:0: "@,
                ServerStep::LocalAddr => "local_addr: "@,
            }) + message@,
        ),
{
    let mut text = match step {
        ServerStep::Bind => "bind 127.0.0.1:0: ".to_string(),
        ServerStep::LocalAddr => "local_addr: ".to_string(),
    };
    text.append(message);
    RenderError::Server(text)
}

/// What is done after a start that failed.
#[derive(Debug)]
pub enum AfterLaunch {
    /// Another start, after so many seconds.
    Retry(u64),
    /// Nothing: the error is reported.
    GiveUp(RenderError),
}

/// Whether the browser may start when it is tried again.
pub open spec fn may_recover(error: crate::render::browser::ErrorView) -> bool {
    error matches crate::render::browser::ErrorView::Launch { path, source } && !(
    source.kind is Other)
}

/// The pause after a failed start, in seconds: two seconds after the first,
/// then twice as long each time.
pub open spec fn backoff(attempt: u32) -> nat {
    vstd::arithmetic::power2::pow2(attempt as nat)
}

/// Decides what is done after the start number `attempt` failed, counting
/// from one.
pub fn after_launch(attempt: u32, error: RenderError) -> (next: AfterLaunch)
    ensures
        if may_recover(error@) && attempt < LAUNCH_MAX_ATTEMPTS {
            next matches AfterLaunch::Retry(seconds) && seconds == backoff(attempt)
        } else {
            next == AfterLaunch::GiveUp(error)
        },
{
    let transient = match &error {
        RenderError::Launch { path: _, source } => is_transient_launch_error(source),
        _ => false,
    };
    if !transient || attempt >= LAUNCH_MAX_ATTEMPTS {
        return AfterLaunch::GiveUp(error);
    }
    let seconds: u64 = 1u64 << attempt;
    proof {
        vstd::arithmetic::power2::lemma2_to64();
        assert(1u64 << 0u32 == 1) by (bit_vector);
        assert(1u64 << 1u32 == 2) by (bit_vector);
        assert(1u64 << 2u32 == 4) by (bit_vector);
    }
    AfterLaunch::Retry(seconds)
}

/// How many starts are made from the one number `attempt` on, where the start
/// number `k` fails with `errors(k)`.
pub open spec fn starts_made(
    errors: spec_fn(u32) -> crate::render::browser::ErrorView,
    attempt: u32,
) -> nat
    decreases LAUNCH_MAX_ATTEMPTS - attempt,
{
    if may_recover(errors(attempt)) && attempt < LAUNCH_MAX_ATTEMPTS {
        1 + starts_made(errors, (attempt + 1) as u32)
    } else {
        1
    }
}

/// However it fails, the browser is started at most three times; and the
/// pauses between are two and four seconds.
pub proof fn law_launch_is_bounded(errors: spec_fn(u32) -> crate::render::browser::ErrorView)
    ensures
        1 <= starts_made(errors, 1) <= 3,
        backoff(1) == 2,
        backoff(2) == 4,
{
    reveal_with_fuel(starts_made, 4);
    vstd::arithmetic::power2::lemma2_to64();
}

/// What is done after an attempt to capture a story.
#[derive(Debug)]
pub enum AfterAttempt {
    /// The result is reported.
    Return(Result<RenderedStory, RenderError>),
    /// Another attempt is made on a new page; the error is only logged.
    Retry(RenderError),
}

/// Decides what is done after the attempt number `attempt`, counting from
/// one. A failure of the browser connection may concern one page alone, so
/// the first one is followed by another attempt; everything else would only
/// fail again.
pub fn retry_once_on_cdp(attempt: u32, result: Result<RenderedStory, RenderError>) -> (next:
    AfterAttempt)
    ensures
        match result {
            Err(RenderError::Cdp { story_id, source }) => if attempt <= 1 {
                next == AfterAttempt::Retry(RenderError::Cdp { story_id, source })
            } else {
                next == AfterAttempt::Return(result)
            },
            _ => next == AfterAttempt::Return(result),
        },
{
    match result {
        Err(RenderError::Cdp { story_id, source }) => {
            if attempt <= 1 {
                AfterAttempt::Retry(RenderError::Cdp { story_id, source })
            } else {
                AfterAttempt::Return(Err(RenderError::Cdp { story_id, source }))
            }
        },
        other => AfterAttempt::Return(other),
    }
}

// ── finding a browser ───────────────────────────────────────────────────

/// A character that separates words.
pub open spec fn is_white_space(c: char) -> bool {
    let code = c as u32;
    ||| 0x09 <= code <= 0x0d
    ||| code == 0x20
    ||| code == 0x85
    ||| code == 0xa0
    ||| code == 0x1680
    ||| 0x2000 <= code <= 0x200a
    ||| code == 0x2028
    ||| code == 0x2029
    ||| code == 0x202f
    ||| code == 0x205f
    ||| code == 0x3000
}

/// Whether a text holds nothing but white space.
pub fn is_blank(text: &str) -> (blank: bool)
    ensures
        blank == forall|i: int| 0 <= i < text@.len() ==> is_white_space(#[trigger] text@[i]),
{
    let chars = chars_of(text);
    let mut i: usize = 0;
    while i < chars.len()
        invariant
            i <= chars.len(),
            chars@ == text@,
            forall|k: int| 0 <= k < i ==> is_white_space(#[trigger] text@[k]),
        decreases chars.len() - i,
    {
        let code: u32 = chars[i] as u32;
        let white = (0x09 <= code && code <= 0x0d) || code == 0x20 || code == 0x85 || code == 0xa0
            || code == 0x1680 || (0x2000 <= code && code <= 0x200a) || code == 0x2028 || code
            == 0x2029 || code == 0x202f || code == 0x205f || code == 0x3000;
        if !white {
            assert(!is_white_space(text@[i as int]));
            return false;
        }
        i += 1;
    }
    true
}

/// The names under which a browser is looked for.
pub open spec fn browser_names() -> Seq<Seq<char>> {
    seq![
        "chromium"@,
        "chromium-browser"@,
        "google-chrome"@,
        "google-chrome-stable"@,
        "chrome"@,
    ]
}

/// Every path that names an executable in one of the directories, in order.
pub open spec fn candidates(directories: Seq<Seq<char>>, names: Seq<Seq<char>>) -> Seq<Seq<char>>
    decreases directories.len(),
{
    if directories.len() == 0 {
        Seq::empty()
    } else {
        candidates(directories.drop_last(), names) + names.map_values(
            |name: Seq<char>| crate::paths::pushed(directories.last(), name),
        )
    }
}

/// Adds the candidates of one directory.
fn push_candidates(found: &mut Vec<String>, directory: &str, names: &Vec<String>)
    ensures
        crate::text::views(final(found)@) == crate::text::views(old(found)@) + crate::text::views(
            names@,
        ).map_values(|name: Seq<char>| crate::paths::pushed(directory@, name)),
{
    let ghost before = crate::text::views(found@);
    let ghost added = crate::text::views(names@).map_values(
        |name: Seq<char>| crate::paths::pushed(directory@, name),
    );
    let mut i: usize = 0;
    assert(before + added.take(0) =~= before);
    while i < names.len()
        invariant
            i <= names.len(),
            added == crate::text::views(names@).map_values(
                |name: Seq<char>| crate::paths::pushed(directory@, name),
            ),
            crate::text::views(found@) == before + added.take(i as int),
        decreases names.len() - i,
    {
        let ghost now = crate::text::views(found@);
        let path = push_name(directory, names[i].as_str());
        let ghost shown = path@;
        found.push(path);
        assert(crate::text::views(found@) =~= now.push(shown));
        assert(before + added.take(i + 1) =~= (before + added.take(i as int)).push(shown));
        i += 1;
    }
    assert(added.take(added.len() as int) =~= added);
}

fn all_candidates(directories: &Vec<String>, names: &Vec<String>) -> (found: Vec<String>)
    ensures
        crate::text::views(found@) == candidates(
            crate::text::views(directories@),
            crate::text::views(names@),
        ),
{
    let ghost all = crate::text::views(directories@);
    let mut found: Vec<String> = Vec::new();
    let mut i: usize = 0;
    assert(crate::text::views(found@) =~= candidates(all.take(0), crate::text::views(names@)));
    while i < directories.len()
        invariant
            i <= directories.len(),
            all == crate::text::views(directories@),
            crate::text::views(found@) == candidates(all.take(i as int), crate::text::views(names@)),
        decreases directories.len() - i,
    {
        assert(all.take(i + 1).drop_last() =~= all.take(i as int));
        push_candidates(&mut found, directories[i].as_str(), names);
        i += 1;
    }
    assert(all.take(all.len() as int) =~= all);
    found
}

/// Where a browser is looked for in the directories of the search path.
pub fn path_candidates(directories: &Vec<String>) -> (found: Vec<String>)
    ensures
        crate::text::views(found@) == candidates(
            crate::text::views(directories@),
            browser_names(),
        ),
{
    let mut names: Vec<String> = Vec::new();
    names.push("chromium".to_string());
    names.push("chromium-browser".to_string());
    names.push("google-chrome".to_string());
    names.push("google-chrome-stable".to_string());
    names.push("chrome".to_string());
    assert(crate::text::views(names@) =~= browser_names());
    all_candidates(directories, &names)
}

/// Where Playwright keeps its browsers: in the directory of its own setting,
/// or else below the home directory.
pub fn playwright_directory(setting: Option<&str>, home: Option<&str>) -> (directory: Option<
    String,
>)
    ensures
        match setting {
            Some(setting) => directory matches Some(path) && path@ == setting@,
            None => match home {
                Some(home) => directory matches Some(path) && path@ == crate::paths::pushed(
                    home@,
                    ".cache/ms-playwright"@,
                ),
                None => directory is None,
            },
        },
{
    match setting {
        Some(setting) => Some(setting.to_string()),
        None => match home {
            Some(home) => Some(push_name(home, ".cache/ms-playwright")),
            None => None,
        },
    }
}

/// The executables of Playwright's browser, below its directory.
pub open spec fn playwright_executables() -> Seq<Seq<char>> {
    seq!["chrome-linux64/chrome"@, "chrome-linux/chrome"@]
}

/// The names that belong to builds of the browser, in order.
pub open spec fn chromium_builds(names: Seq<Seq<char>>) -> Seq<Seq<char>>
    decreases names.len(),
{
    if names.len() == 0 {
        Seq::empty()
    } else {
        let before = chromium_builds(names.drop_last());
        if "chromium-"@.is_prefix_of(names.last()) {
            before.push(names.last())
        } else {
            before
        }
    }
}

/// The bytes of names.
pub open spec fn name_keys(names: Seq<Seq<char>>) -> Seq<Seq<u8>> {
    names.map_values(|name: Seq<char>| vstd::utf8::encode_utf8(name))
}

/// `sorted` holds `names` in descending order.
pub open spec fn is_descending_list(names: Seq<Seq<char>>, sorted: Seq<Seq<char>>) -> bool {
    exists|order: Seq<usize>| #[trigger]
        crate::order::ordering(name_keys(names), order) && sorted == order.reverse().map_values(
            |i: usize| names[i as int],
        )
}

/// The builds of the browser among `names`, the newest first.
fn newest_first(names: &Vec<String>) -> (sorted: Vec<String>)
    ensures
        is_descending_list(
            chromium_builds(crate::text::views(names@)),
            crate::text::views(sorted@),
        ),
{
    let ghost all = crate::text::views(names@);
    let mut builds: Vec<String> = Vec::new();
    let mut i: usize = 0;
    assert(crate::text::views(builds@) =~= chromium_builds(all.take(0)));
    while i < names.len()
        invariant
            i <= names.len(),
            all == crate::text::views(names@),
            crate::text::views(builds@) == chromium_builds(all.take(i as int)),
        decreases names.len() - i,
    {
        let ghost before = crate::text::views(builds@);
        assert(all.take(i + 1).drop_last() =~= all.take(i as int));
        assert(all.take(i + 1).last() == names@[i as int]@);
        if starts_with(names[i].as_str(), "chromium-") {
            builds.push(names[i].clone());
            assert(crate::text::views(builds@) =~= before.push(names@[i as int]@));
        }
        i += 1;
    }
    assert(all.take(all.len() as int) =~= all);
    let ghost shown = crate::text::views(builds@);
    let mut keys: Vec<Vec<u8>> = Vec::new();
    let mut k: usize = 0;
    while k < builds.len()
        invariant
            k <= builds.len(),
            keys@.len() == k,
            forall|j: int|
                0 <= j < k ==> (#[trigger] keys@[j])@ == vstd::utf8::encode_utf8(builds@[j]@),
        decreases builds.len() - k,
    {
        keys.push(slice_to_vec(builds[k].as_str().as_bytes()));
        k += 1;
    }
    assert(crate::order::name_bytes(keys@) =~= name_keys(shown));
    let order = order_by_name(&keys);
    let mut sorted: Vec<String> = Vec::new();
    let mut left: usize = order.len();
    while left > 0
        invariant
            left <= order.len(),
            shown == crate::text::views(builds@),
            forall|j: int| 0 <= j < order@.len() ==> #[trigger] order@[j] < builds@.len(),
            sorted@.len() == order@.len() - left,
            forall|j: int|
                0 <= j < sorted@.len() ==> (#[trigger] sorted@[j])@
                    == shown[order@[order@.len() - 1 - j] as int],
        decreases left,
    {
        left -= 1;
        sorted.push(builds[order[left]].clone());
    }
    proof {
        assert(crate::text::views(sorted@) =~= order@.reverse().map_values(
            |i: usize| shown[i as int],
        ));
        assert(crate::order::ordering(name_keys(shown), order@));
    }
    sorted
}

/// The directories of Playwright's builds.
pub open spec fn below(base: Seq<char>, names: Seq<Seq<char>>) -> Seq<Seq<char>> {
    names.map_values(|name: Seq<char>| crate::paths::pushed(base, name))
}

/// Where a browser is looked for among those that Playwright keeps in `base`,
/// which holds the given names: in the newest build first.
pub fn playwright_candidates(base: &str, names: &Vec<String>) -> (found: Vec<String>)
    ensures
        exists|builds: Seq<Seq<char>>| #[trigger]
            is_descending_list(chromium_builds(crate::text::views(names@)), builds)
                && crate::text::views(found@) == candidates(
                below(base@, builds),
                playwright_executables(),
            ),
{
    let builds = newest_first(names);
    let ghost shown = crate::text::views(builds@);
    let mut directories: Vec<String> = Vec::new();
    push_candidates(&mut directories, base, &builds);
    assert(crate::text::views(directories@) =~= below(base@, shown));
    let mut executables: Vec<String> = Vec::new();
    executables.push("chrome-linux64/chrome".to_string());
    executables.push("chrome-linux/chrome".to_string());
    assert(crate::text::views(executables@) =~= playwright_executables());
    all_candidates(&directories, &executables)
}

// ── what holds of candidates and starts ─────────────────────────────────

/// A browser is looked for in every directory under every name: the candidates
/// of a list of directories are those of its first part and those of the rest,
/// and one directory gives one candidate for each name, in order.
pub proof fn law_candidates_are_complete(
    a: Seq<Seq<char>>,
    b: Seq<Seq<char>>,
    directory: Seq<char>,
    names: Seq<Seq<char>>,
)
    ensures
        candidates(a + b, names) == candidates(a, names) + candidates(b, names),
        candidates(seq![directory], names).len() == names.len(),
        directory.len() > 0 && directory.last() != '/' ==> forall|i: int|
            0 <= i < names.len() ==> #[trigger] candidates(seq![directory], names)[i] == directory
                + seq!['/'] + names[i],
        directory.len() == 0 || directory.last() == '/' ==> forall|i: int|
            0 <= i < names.len() ==> #[trigger] candidates(seq![directory], names)[i] == directory
                + names[i],
    decreases b.len(),
{
    if b.len() == 0 {
        assert(a + b =~= a);
        assert(candidates(a, names) + candidates(b, names) =~= candidates(a, names));
    } else {
        law_candidates_are_complete(a, b.drop_last(), directory, names);
        assert((a + b).drop_last() =~= a + b.drop_last());
        assert((a + b).last() == b.last());
        assert(candidates(a + b, names) =~= candidates(a, names) + candidates(b, names));
    }
    reveal_with_fuel(candidates, 2);
    reveal_strlit("/");
    assert("/"@ =~= seq!['/']);
    assert(seq![directory].drop_last() =~= Seq::<Seq<char>>::empty());
    assert(seq![directory].last() == directory);
    assert(candidates(seq![directory], names) =~= names.map_values(
        |name: Seq<char>| crate::paths::pushed(directory, name),
    ));
}

/// The builds of the browser among names are those that begin with
/// `chromium-`, all of them and in their order, wherever the list is parted.
pub proof fn law_all_builds_are_kept(a: Seq<Seq<char>>, b: Seq<Seq<char>>, name: Seq<char>)
    ensures
        chromium_builds(a + b) == chromium_builds(a) + chromium_builds(b),
        chromium_builds(seq![name]) == if "chromium-"@.is_prefix_of(name) {
            seq![name]
        } else {
            Seq::<Seq<char>>::empty()
        },
    decreases b.len(),
{
    if b.len() == 0 {
        assert(a + b =~= a);
        assert(chromium_builds(a) + chromium_builds(b) =~= chromium_builds(a));
    } else {
        law_all_builds_are_kept(a, b.drop_last(), name);
        assert((a + b).drop_last() =~= a + b.drop_last());
        assert((a + b).last() == b.last());
        assert(chromium_builds(a + b) =~= chromium_builds(a) + chromium_builds(b));
    }
    reveal_with_fuel(chromium_builds, 2);
    assert(seq![name].drop_last() =~= Seq::<Seq<char>>::empty());
    assert(seq![name].last() == name);
    assert(Seq::<Seq<char>>::empty().push(name) =~= seq![name]);
}

/// A descending list holds every name once, and no name stands before a
/// greater one: the newest build is tried first.
pub proof fn law_newest_builds_come_first(names: Seq<Seq<char>>, sorted: Seq<Seq<char>>)
    requires
        is_descending_list(names, sorted),
        names.len() <= usize::MAX,
    ensures
        sorted.len() == names.len(),
        forall|i: int| 0 <= i < names.len() ==> sorted.contains(#[trigger] names[i]),
        forall|a: int, b: int|
            0 <= a < b < sorted.len() ==> !crate::order::less(
                vstd::utf8::encode_utf8(#[trigger] sorted[a]),
                vstd::utf8::encode_utf8(#[trigger] sorted[b]),
            ),
{
    let keys = name_keys(names);
    let order = choose|order: Seq<usize>| #[trigger]
        crate::order::ordering(keys, order) && sorted == order.reverse().map_values(
            |i: usize| names[i as int],
        );
    crate::order::law_orderings_sort(keys, order);
    let n = order.len() as int;
    assert forall|a: int| 0 <= a < sorted.len() implies #[trigger] sorted[a] == names[order[n - 1
        - a] as int] by {}
    assert forall|i: int| 0 <= i < names.len() implies sorted.contains(#[trigger] names[i]) by {
        assert(order.contains(i as usize));
        let k = choose|k: int| 0 <= k < order.len() && order[k] == i as usize;
        assert(sorted[n - 1 - k] == names[i]);
    }
    assert forall|a: int, b: int| 0 <= a < b < sorted.len() implies !crate::order::less(
        vstd::utf8::encode_utf8(#[trigger] sorted[a]),
        vstd::utf8::encode_utf8(#[trigger] sorted[b]),
    ) by {
        let x = order[n - 1 - b];
        let y = order[n - 1 - a];
        assert(order[n - 1 - b] != order[n - 1 - a]);
        crate::order::lemma_ordering_places(keys, order);
        assert(keys[x as int] == vstd::utf8::encode_utf8(sorted[b]));
        assert(keys[y as int] == vstd::utf8::encode_utf8(sorted[a]));
    }
}

/// A start that ran out of time, a process that ended at once and a broken
/// pipe are worth another start, and nothing else is. Where each start fails
/// so, three are made, each with three quarters of a minute.
pub proof fn law_passing_faults_are_retried(
    errors: spec_fn(u32) -> crate::render::browser::ErrorView,
    error: crate::render::browser::ErrorView,
)
    ensures
        may_recover(error) <==> (error matches crate::render::browser::ErrorView::Launch {
            path,
            source,
        } && (source.kind is LaunchTimeout || source.kind is LaunchExit || source.kind is LaunchIo)),
        may_recover(errors(1)) && may_recover(errors(2)) ==> starts_made(errors, 1) == 3,
        may_recover(errors(1)) && !may_recover(errors(2)) ==> starts_made(errors, 1) == 2,
        !may_recover(errors(1)) ==> starts_made(errors, 1) == 1,
        LAUNCH_MAX_ATTEMPTS == 3,
        LAUNCH_TIMEOUT == 45_000,
{
    reveal_with_fuel(starts_made, 4);
}

/// White space is a tabulator, a line end, a space, or one of the other spaces
/// and separators: these characters, and no others.
pub proof fn law_white_space(c: char)
    ensures
        is_white_space(c) <==> seq![
            0x09u32,
            0x0a,
            0x0b,
            0x0c,
            0x0d,
            0x20,
            0x85,
            0xa0,
            0x1680,
            0x2000,
            0x2001,
            0x2002,
            0x2003,
            0x2004,
            0x2005,
            0x2006,
            0x2007,
            0x2008,
            0x2009,
            0x200a,
            0x2028,
            0x2029,
            0x202f,
            0x205f,
            0x3000,
        ].contains(c as u32),
{
    let codes = seq![
        0x09u32,
        0x0a,
        0x0b,
        0x0c,
        0x0d,
        0x20,
        0x85,
        0xa0,
        0x1680,
        0x2000,
        0x2001,
        0x2002,
        0x2003,
        0x2004,
        0x2005,
        0x2006,
        0x2007,
        0x2008,
        0x2009,
        0x200a,
        0x2028,
        0x2029,
        0x202f,
        0x205f,
        0x3000,
    ];
    assert(codes.len() == 25);
    assert(codes[0] == 0x09 && codes[1] == 0x0a && codes[2] == 0x0b && codes[3] == 0x0c && codes[4]
        == 0x0d && codes[5] == 0x20 && codes[6] == 0x85 && codes[7] == 0xa0 && codes[8] == 0x1680);
    assert(codes[9] == 0x2000 && codes[10] == 0x2001 && codes[11] == 0x2002 && codes[12] == 0x2003
        && codes[13] == 0x2004 && codes[14] == 0x2005 && codes[15] == 0x2006 && codes[16] == 0x2007
        && codes[17] == 0x2008 && codes[18] == 0x2009 && codes[19] == 0x200a);
    assert(codes[20] == 0x2028 && codes[21] == 0x2029 && codes[22] == 0x202f && codes[23] == 0x205f
        && codes[24] == 0x3000);
}

/// Playwright's builds are looked for right below its directory, each of them.
pub proof fn law_builds_lie_below(base: Seq<char>, names: Seq<Seq<char>>)
    requires
        base.len() > 0,
        base.last() != '/',
    ensures
        below(base, names).len() == names.len(),
        forall|i: int|
            0 <= i < names.len() ==> #[trigger] below(base, names)[i] == base + seq!['/'] + names[i],
{
    reveal_strlit("/");
    assert("/"@ =~= seq!['/']);
}

} // verus!
