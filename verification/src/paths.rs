//! Unix paths as texts.
//!
//! A path is split at its slashes. Empty pieces and `.` say nothing; `..`
//! leads out; every other piece is a name. The functions here only look at
//! the text of a path, never at a file system.
use vstd::prelude::*;
use vstd::string::*;

use crate::text::{chars_of, same_text, split_text, text_of};

verus! {

/// Whether a path starts at the root of the file system.
pub open spec fn is_absolute(path: Seq<char>) -> bool {
    path.len() > 0 && path[0] == '/'
}

/// A piece of a path that says something: a name, or `..`.
pub open spec fn is_telling(piece: Seq<char>) -> bool {
    piece.len() > 0 && piece != "."@
}

/// The telling pieces among `pieces`, in order.
pub open spec fn telling(pieces: Seq<Seq<char>>) -> Seq<Seq<char>>
    decreases pieces.len(),
{
    if pieces.len() == 0 {
        Seq::empty()
    } else {
        let before = telling(pieces.drop_last());
        if is_telling(pieces.last()) {
            before.push(pieces.last())
        } else {
            before
        }
    }
}

/// The names and the `..` of a path, in order.
pub open spec fn parts(path: Seq<char>) -> Seq<Seq<char>> {
    telling(crate::text::split(path, '/'))
}

/// Whether a path leads to nowhere but below where it starts: it is relative
/// and never goes up.
pub open spec fn stays_below(path: Seq<char>) -> bool {
    &&& !is_absolute(path)
    &&& forall|i: int| 0 <= i < parts(path).len() ==> #[trigger] parts(path)[i] != ".."@
}

/// A path with one more name.
pub open spec fn pushed(path: Seq<char>, name: Seq<char>) -> Seq<char> {
    if path.len() == 0 || path.last() == '/' {
        path + name
    } else {
        path + "/"@ + name
    }
}

/// A path with more names.
pub open spec fn extended(path: Seq<char>, names: Seq<Seq<char>>) -> Seq<char>
    decreases names.len(),
{
    if names.len() == 0 {
        path
    } else {
        pushed(extended(path, names.drop_last()), names.last())
    }
}

/// The last name of a path, if it ends in one.
pub open spec fn file_name(path: Seq<char>) -> Option<Seq<char>> {
    if parts(path).len() > 0 && parts(path).last() != ".."@ {
        Some(parts(path).last())
    } else {
        None
    }
}

/// Where `c` occurs last in `text`.
pub open spec fn last_position(text: Seq<char>, c: char) -> Option<int>
    decreases text.len(),
{
    if text.len() == 0 {
        None
    } else if text.last() == c {
        Some(text.len() - 1)
    } else {
        last_position(text.drop_last(), c)
    }
}

/// What follows the last dot of the last name, if a dot stands there that
/// does not begin the name.
pub open spec fn extension(path: Seq<char>) -> Option<Seq<char>> {
    match file_name(path) {
        Some(name) => match last_position(name, '.') {
            Some(i) => if i > 0 {
                Some(name.skip(i + 1))
            } else {
                None
            },
            None => None,
        },
        None => None,
    }
}

/// The names and the `..` of a path.
pub fn path_parts(path: &str) -> (names: Vec<String>)
    ensures
        crate::text::views(names@) == parts(path@),
{
    let pieces = split_text(path, '/');
    let ghost all = crate::text::views(pieces@);
    let mut names: Vec<String> = Vec::new();
    let mut i: usize = 0;
    assert(crate::text::views(names@) =~= telling(all.take(0)));
    while i < pieces.len()
        invariant
            i <= pieces.len(),
            all == crate::text::views(pieces@),
            crate::text::views(names@) == telling(all.take(i as int)),
        decreases pieces.len() - i,
    {
        let ghost before = crate::text::views(names@);
        assert(all.take(i + 1).drop_last() =~= all.take(i as int));
        assert(all.take(i + 1).last() == pieces@[i as int]@);
        if !same_text(pieces[i].as_str(), "") && !same_text(pieces[i].as_str(), ".") {
            proof {
                reveal_strlit("");
                assert(""@ =~= Seq::<char>::empty());
            }
            names.push(pieces[i].clone());
            assert(crate::text::views(names@) =~= before.push(pieces@[i as int]@));
            assert(pieces@[i as int]@.len() > 0) by {
                if pieces@[i as int]@.len() == 0 {
                    assert(pieces@[i as int]@ =~= ""@);
                }
            }
        } else {
            proof {
                reveal_strlit("");
            }
        }
        i += 1;
    }
    assert(all.take(all.len() as int) =~= all);
    names
}

/// Whether a path starts at the root of the file system.
pub fn path_is_absolute(path: &str) -> (absolute: bool)
    ensures
        absolute == is_absolute(path@),
{
    let chars = chars_of(path);
    chars.len() > 0 && chars[0] == '/'
}

/// Whether a text holds a character.
pub fn contains_char(text: &str, c: char) -> (found: bool)
    ensures
        found == text@.contains(c),
{
    let chars = chars_of(text);
    let mut i: usize = 0;
    while i < chars.len()
        invariant
            i <= chars.len(),
            chars@ == text@,
            forall|k: int| 0 <= k < i ==> chars@[k] != c,
        decreases chars.len() - i,
    {
        if chars[i] == c {
            assert(text@[i as int] == c);
            return true;
        }
        i += 1;
    }
    false
}

/// Whether a list of names holds `..`.
pub fn goes_up(names: &Vec<String>) -> (up: bool)
    ensures
        up == exists|i: int|
            0 <= i < names@.len() && #[trigger] crate::text::views(names@)[i] == ".."@,
{
    let mut i: usize = 0;
    while i < names.len()
        invariant
            i <= names.len(),
            forall|k: int| 0 <= k < i ==> #[trigger] crate::text::views(names@)[k] != ".."@,
        decreases names.len() - i,
    {
        if same_text(names[i].as_str(), "..") {
            assert(crate::text::views(names@)[i as int] == ".."@);
            return true;
        }
        i += 1;
    }
    false
}

/// Adds a name to a path.
pub fn push_name(path: &str, name: &str) -> (longer: String)
    ensures
        longer@ == pushed(path@, name@),
{
    let chars = chars_of(path);
    let mut longer = path.to_string();
    if chars.len() > 0 && chars[chars.len() - 1] != '/' {
        longer.append("/");
    }
    longer.append(name);
    longer
}

/// Adds names to a path.
pub fn push_names(path: &str, names: &Vec<String>) -> (longer: String)
    ensures
        longer@ == extended(path@, crate::text::views(names@)),
{
    let ghost all = crate::text::views(names@);
    let mut longer = path.to_string();
    let mut i: usize = 0;
    while i < names.len()
        invariant
            i <= names.len(),
            all == crate::text::views(names@),
            longer@ == extended(path@, all.take(i as int)),
        decreases names.len() - i,
    {
        assert(all.take(i + 1).drop_last() =~= all.take(i as int));
        longer = push_name(longer.as_str(), names[i].as_str());
        i += 1;
    }
    assert(all.take(all.len() as int) =~= all);
    longer
}

/// What follows the last dot of the last name of a path.
pub fn path_extension(path: &str) -> (found: Option<String>)
    ensures
        match found {
            Some(text) => extension(path@) == Some(text@),
            None => extension(path@) is None,
        },
{
    let names = path_parts(path);
    if names.len() == 0 {
        return None;
    }
    assert(parts(path@).last() == names@[names@.len() - 1]@);
    let name = &names[names.len() - 1];
    if same_text(name.as_str(), "..") {
        return None;
    }
    let chars = chars_of(name.as_str());
    let mut i: usize = chars.len();
    assert(chars@.take(i as int) =~= chars@);
    while i > 0
        invariant
            i <= chars.len(),
            chars@ == name@,
            file_name(path@) == Some(name@),
            last_position(name@, '.') == last_position(chars@.take(i as int), '.'),
        decreases i,
    {
        assert(chars@.take(i as int).drop_last() =~= chars@.take(i - 1));
        if chars[i - 1] == '.' {
            if i == 1 {
                return None;
            }
            assert(chars@.subrange(i as int, chars@.len() as int) =~= name@.skip(i as int));
            return Some(text_of(&chars, i, chars.len()));
        }
        i -= 1;
    }
    None
}

// ── what holds of paths ─────────────────────────────────────────────────

/// A piece that a path can hold: it says something and has no slash.
pub open spec fn is_piece(piece: Seq<char>) -> bool {
    is_telling(piece) && !piece.contains('/')
}

proof fn lemma_telling_pieces(pieces: Seq<Seq<char>>)
    requires
        forall|i: int| 0 <= i < pieces.len() ==> !(#[trigger] pieces[i]).contains('/'),
    ensures
        forall|i: int| 0 <= i < telling(pieces).len() ==> is_piece(#[trigger] telling(pieces)[i]),
    decreases pieces.len(),
{
    if pieces.len() > 0 {
        assert forall|i: int| 0 <= i < pieces.drop_last().len() implies !(
        #[trigger] pieces.drop_last()[i]).contains('/') by {
            assert(pieces.drop_last()[i] == pieces[i]);
        }
        lemma_telling_pieces(pieces.drop_last());
        let before = telling(pieces.drop_last());
        assert(!pieces[pieces.len() - 1].contains('/'));
        assert forall|i: int| 0 <= i < telling(pieces).len() implies is_piece(
            #[trigger] telling(pieces)[i],
        ) by {
            if i < before.len() {
                assert(telling(pieces)[i] == before[i]);
            }
        }
    }
}

/// The parts of a path say something and hold no slash.
pub proof fn law_parts_are_names(path: Seq<char>)
    ensures
        forall|i: int| 0 <= i < parts(path).len() ==> is_piece(#[trigger] parts(path)[i]),
{
    crate::text::lemma_split_pieces(path, '/');
    lemma_telling_pieces(crate::text::split(path, '/'));
}

proof fn lemma_parts_pushed(path: Seq<char>, name: Seq<char>)
    requires
        is_piece(name),
    ensures
        parts(pushed(path, name)) == parts(path).push(name),
        path.is_prefix_of(pushed(path, name)),
{
    reveal_strlit("/");
    let start = if path.len() == 0 || path.last() == '/' {
        path
    } else {
        path + "/"@
    };
    let pieces = crate::text::split(start, '/');
    crate::text::lemma_split_nonempty(path, '/');
    crate::text::lemma_split_nonempty(start, '/');
    if path.len() > 0 && path.last() != '/' {
        assert(start.drop_last() =~= path);
        assert(start.last() == '/');
        assert(pieces == crate::text::split(path, '/').push(Seq::empty()));
        assert(pieces.drop_last() =~= crate::text::split(path, '/'));
    }
    assert(pieces.last() =~= Seq::<char>::empty());
    assert(parts(start) == telling(pieces.drop_last()));
    assert(telling(pieces.drop_last()) == parts(path));
    crate::text::lemma_split_continued(start, name, '/');
    assert(pieces.last() + name =~= name);
    let longer = pieces.drop_last().push(name);
    assert(longer.drop_last() =~= pieces.drop_last());
    assert(pushed(path, name) == start + name);
    assert((start + name).subrange(0, path.len() as int) =~= path);
}

/// Names that are put behind a path lead further inside: the longer path
/// begins with the shorter one, and its parts are those of the shorter path
/// and the names.
pub proof fn law_names_lead_inside(path: Seq<char>, names: Seq<Seq<char>>)
    requires
        forall|i: int| 0 <= i < names.len() ==> is_piece(#[trigger] names[i]),
    ensures
        path.is_prefix_of(extended(path, names)),
        parts(extended(path, names)) == parts(path) + names,
    decreases names.len(),
{
    if names.len() == 0 {
        assert(parts(path) + names =~= parts(path));
        assert(path.subrange(0, path.len() as int) =~= path);
    } else {
        let fewer = names.drop_last();
        assert forall|i: int| 0 <= i < fewer.len() implies is_piece(#[trigger] fewer[i]) by {
            assert(fewer[i] == names[i]);
        }
        law_names_lead_inside(path, fewer);
        lemma_parts_pushed(extended(path, fewer), names.last());
        assert((parts(path) + fewer).push(names.last()) =~= parts(path) + names);
        let middle = extended(path, fewer);
        let longer = extended(path, names);
        assert(longer.subrange(0, path.len() as int) =~= path) by {
            assert forall|i: int| 0 <= i < path.len() implies longer[i] == path[i] by {
                assert(longer.subrange(0, middle.len() as int)[i] == middle[i]);
                assert(middle.subrange(0, path.len() as int)[i] == path[i]);
            }
        }
    }
}

/// A path made of names alone is relative.
pub proof fn law_names_are_relative(names: Seq<Seq<char>>)
    requires
        forall|i: int| 0 <= i < names.len() ==> is_piece(#[trigger] names[i]),
    ensures
        !is_absolute(extended(Seq::empty(), names)),
        names.len() > 0 ==> extended(Seq::empty(), names).len() > 0,
    decreases names.len(),
{
    if names.len() > 0 {
        let fewer = names.drop_last();
        assert forall|i: int| 0 <= i < fewer.len() implies is_piece(#[trigger] fewer[i]) by {
            assert(fewer[i] == names[i]);
        }
        law_names_are_relative(fewer);
        let middle = extended(Seq::empty(), fewer);
        let longer = extended(Seq::empty(), names);
        let name = names[names.len() - 1];
        assert(is_piece(name));
        if middle.len() > 0 {
            assert(longer[0] == middle[0]);
        } else {
            assert(longer =~= name);
            if longer[0] == '/' {
                assert(name.contains(name[0]));
            }
        }
    }
}

proof fn lemma_telling_piecewise(a: Seq<Seq<char>>, b: Seq<Seq<char>>)
    ensures
        telling(a + b) == telling(a) + telling(b),
    decreases b.len(),
{
    if b.len() == 0 {
        assert(a + b =~= a);
        assert(telling(a) + telling(b) =~= telling(a));
    } else {
        lemma_telling_piecewise(a, b.drop_last());
        assert((a + b).drop_last() =~= a + b.drop_last());
        assert((a + b).last() == b.last());
        assert(telling(a + b) =~= telling(a) + telling(b));
    }
}

/// The parts of a path are those before a slash and those behind it, however
/// many there are; a piece without a slash is one part, unless it is empty or
/// `.`, which are none.
pub proof fn law_parts_are_piecewise(a: Seq<char>, b: Seq<char>)
    ensures
        parts(a + seq!['/'] + b) == parts(a) + parts(b),
        !a.contains('/') ==> parts(a) == if a.len() == 0 || a == seq!['.'] {
            Seq::<Seq<char>>::empty()
        } else {
            seq![a]
        },
{
    crate::text::law_splitting_is_piecewise(a, b, '/');
    lemma_telling_piecewise(crate::text::split(a, '/'), crate::text::split(b, '/'));
    reveal_strlit(".");
    assert("."@ =~= seq!['.']);
    reveal_with_fuel(telling, 2);
    assert(seq![a].drop_last() =~= Seq::<Seq<char>>::empty());
    assert(Seq::<Seq<char>>::empty().push(a) =~= seq![a]);
}

/// A plain name: it is not empty, has no slash, and is neither `.` nor `..`.
pub open spec fn is_plain_name(name: Seq<char>) -> bool {
    &&& name.len() > 0
    &&& !name.contains('/')
    &&& name != seq!['.']
    &&& name != seq!['.', '.']
}

proof fn lemma_plain_names(name: Seq<char>)
    requires
        is_plain_name(name),
    ensures
        is_piece(name),
        name != ".."@,
        name[0] != '/',
{
    reveal_strlit(".");
    reveal_strlit("..");
    assert("."@ =~= seq!['.']);
    assert(".."@ =~= seq!['.', '.']);
    assert(name.contains(name[0]));
}

/// Plain names with slashes between them, however many there are, are a path
/// whose parts are these names and that stays below where it starts.
pub proof fn law_plain_names_stay_below(names: Seq<Seq<char>>)
    requires
        names.len() > 0,
        forall|i: int| 0 <= i < names.len() ==> is_plain_name(#[trigger] names[i]),
    ensures
        parts(crate::text::joined(names, seq!['/'])) == names,
        stays_below(crate::text::joined(names, seq!['/'])),
        crate::text::joined(names, seq!['/']).len() > 0,
        crate::text::joined(names, seq!['/'])[0] == names[0][0],
    decreases names.len(),
{
    let path = crate::text::joined(names, seq!['/']);
    if names.len() == 1 {
        lemma_plain_names(names[0]);
        law_parts_are_piecewise(names[0], Seq::empty());
        assert(seq![names[0]] =~= names);
    } else {
        let front = names.drop_last();
        assert forall|i: int| 0 <= i < front.len() implies is_plain_name(#[trigger] front[i]) by {
            assert(front[i] == names[i]);
        }
        law_plain_names_stay_below(front);
        let last = names[names.len() - 1];
        lemma_plain_names(last);
        let before = crate::text::joined(front, seq!['/']);
        law_parts_are_piecewise(before, last);
        law_parts_are_piecewise(last, Seq::empty());
        assert(front + seq![last] =~= names);
        assert(path[0] == before[0]);
        assert(front[0] == names[0]);
    }
    lemma_plain_names(names[0]);
    assert forall|i: int| 0 <= i < parts(path).len() implies #[trigger] parts(path)[i] != ".."@ by {
        assert(is_plain_name(names[i]));
        lemma_plain_names(names[i]);
    }
}

/// A path that starts at the root or in which a piece between slashes is `..`
/// does not stay below.
pub proof fn law_leading_out_is_noticed(path: Seq<char>, at: int)
    requires
        (path.len() > 0 && path[0] == '/') || (0 <= at < crate::text::split(path, '/').len()
            && crate::text::split(path, '/')[at] == seq!['.', '.']),
    ensures
        !stays_below(path),
{
    if !(path.len() > 0 && path[0] == '/') {
        let pieces = crate::text::split(path, '/');
        let a = pieces.take(at);
        let b = pieces.skip(at);
        assert(a + b =~= pieces);
        lemma_telling_piecewise(a, b);
        let c = b.take(1);
        let d = b.skip(1);
        assert(c + d =~= b);
        lemma_telling_piecewise(c, d);
        reveal_strlit(".");
        reveal_strlit("..");
        assert(".."@ =~= seq!['.', '.']);
        assert(c =~= seq![".."@]);
        reveal_with_fuel(telling, 2);
        assert(c.drop_last() =~= Seq::<Seq<char>>::empty());
        assert(c.last() == ".."@);
        assert(telling(c) =~= seq![".."@]);
        let i = telling(a).len() as int;
        assert(parts(path)[i] == ".."@);
    }
}

/// Adding names to a path writes them behind it with slashes between: behind
/// a path that is not empty and does not end in a slash with one more slash,
/// behind nothing as they are.
pub proof fn law_names_are_written_behind(path: Seq<char>, names: Seq<Seq<char>>)
    requires
        names.len() > 0,
        forall|i: int| 0 <= i < names.len() ==> is_piece(#[trigger] names[i]),
    ensures
        extended(Seq::empty(), names) == crate::text::joined(names, seq!['/']),
        path.len() > 0 && path.last() != '/' ==> extended(path, names) == path + seq!['/']
            + crate::text::joined(names, seq!['/']),
        path.len() > 0 && path.last() == '/' ==> extended(path, names) == path
            + crate::text::joined(names, seq!['/']),
    decreases names.len(),
{
    reveal_strlit("/");
    assert("/"@ =~= seq!['/']);
    let none = Seq::<char>::empty();
    let last = names[names.len() - 1];
    assert(is_piece(last));
    if names.len() == 1 {
        reveal_with_fuel(extended, 2);
        assert(names.drop_last() =~= Seq::<Seq<char>>::empty());
        assert(none + last =~= last);
    } else {
        let front = names.drop_last();
        assert forall|i: int| 0 <= i < front.len() implies is_piece(#[trigger] front[i]) by {
            assert(front[i] == names[i]);
        }
        law_names_are_written_behind(path, front);
        let before = crate::text::joined(front, seq!['/']);
        lemma_joined_end(front);
        assert(extended(path, names) == pushed(extended(path, front), last));
        assert(path + seq!['/'] + before + seq!['/'] + last =~= path + seq!['/'] + (before + seq!['/']
            + last));
        assert(path + before + seq!['/'] + last =~= path + (before + seq!['/'] + last));
    }
}

/// Names joined with slashes do not end in a slash.
proof fn lemma_joined_end(names: Seq<Seq<char>>)
    requires
        names.len() > 0,
        forall|i: int| 0 <= i < names.len() ==> is_piece(#[trigger] names[i]),
    ensures
        crate::text::joined(names, seq!['/']).len() > 0,
        crate::text::joined(names, seq!['/']).last() != '/',
{
    let last = names[names.len() - 1];
    assert(is_piece(last));
    assert(last.contains(last.last()));
    let whole = crate::text::joined(names, seq!['/']);
    assert(whole.last() == last.last());
}

proof fn lemma_last_position(text: Seq<char>, c: char)
    ensures
        !text.contains(c) ==> last_position(text, c) is None,
        last_position(text, c) matches Some(i) ==> 0 <= i < text.len() && text[i] == c,
    decreases text.len(),
{
    if text.len() > 0 {
        lemma_last_position(text.drop_last(), c);
        if !text.contains(c) {
            assert(text.contains(text.last()));
            if text.drop_last().contains(c) {
                let k = choose|k: int| 0 <= k < text.drop_last().len() && text.drop_last()[k] == c;
                assert(text[k] == c);
            }
        }
    }
}

proof fn lemma_last_position_of(stem: Seq<char>, c: char, end: Seq<char>)
    requires
        !end.contains(c),
    ensures
        last_position(stem + seq![c] + end, c) == Some(stem.len() as int),
    decreases end.len(),
{
    let whole = stem + seq![c] + end;
    if end.len() > 0 {
        assert(end.contains(end.last()));
        assert(!end.drop_last().contains(c)) by {
            if end.drop_last().contains(c) {
                let k = choose|k: int| 0 <= k < end.drop_last().len() && end.drop_last()[k] == c;
                assert(end[k] == c);
            }
        }
        lemma_last_position_of(stem, c, end.drop_last());
        assert(whole.drop_last() =~= stem + seq![c] + end.drop_last());
        assert(whole.last() == end.last());
    } else {
        assert(whole.last() == c);
    }
}

/// The extension of a path is what follows the last dot of its last name: the
/// text behind it, whatever stands before it, unless nothing does. A name
/// without a dot has none, and neither has a name whose only dot begins it.
pub proof fn law_extensions_follow_the_last_dot(
    directory: Seq<char>,
    stem: Seq<char>,
    end: Seq<char>,
)
    requires
        !stem.contains('/'),
        !end.contains('/'),
        !end.contains('.'),
    ensures
        ({
            let name = stem + seq!['.'] + end;
            stem.len() > 0 && name != seq!['.', '.'] ==> extension(name) == Some(end) && extension(
                directory + seq!['/'] + name,
            ) == Some(end)
        }),
        end.len() > 0 ==> extension(end) is None && extension(directory + seq!['/'] + end) is None,
        end.len() > 0 ==> extension(seq!['.'] + end) is None && extension(
            directory + seq!['/'] + (seq!['.'] + end),
        ) is None,
{
    let name = stem + seq!['.'] + end;
    let hidden = seq!['.'] + end;
    lemma_last_position_of(stem, '.', end);
    lemma_last_position(end, '.');
    lemma_last_position_of(Seq::empty(), '.', end);
    assert(Seq::<char>::empty() + seq!['.'] + end =~= hidden);
    assert(name.skip(stem.len() as int + 1) =~= end);
    if stem.len() > 0 && name != seq!['.', '.'] {
        assert(name.len() >= 2);
        lemma_no_slash(stem, seq!['.'] + end);
        lemma_no_slash(seq!['.'], end);
        assert(stem + (seq!['.'] + end) =~= name);
        lemma_last_name(directory, name);
    }
    if end.len() > 0 {
        assert(!end.contains('.'));
        if end == seq!['.', '.'] {
            assert(end[0] == '.');
            assert(end.contains(end[0]));
        }
        if end == seq!['.'] {
            assert(end[0] == '.');
            assert(end.contains(end[0]));
        }
        lemma_last_name(directory, end);
        lemma_no_slash(seq!['.'], end);
        if hidden == seq!['.', '.'] {
            assert(hidden[1] == end[0]);
            assert(end.contains(end[0]));
        }
        assert(hidden.len() >= 2);
        lemma_last_name(directory, hidden);
    }
}

proof fn lemma_no_slash(a: Seq<char>, b: Seq<char>)
    requires
        !a.contains('/'),
        !b.contains('/'),
    ensures
        !(a + b).contains('/'),
{
    if (a + b).contains('/') {
        let k = choose|k: int| 0 <= k < (a + b).len() && (a + b)[k] == '/';
        if k < a.len() {
            assert(a[k] == '/');
        } else {
            assert(b[k - a.len()] == '/');
        }
    }
}

proof fn lemma_last_name(directory: Seq<char>, name: Seq<char>)
    requires
        is_plain_name(name),
    ensures
        file_name(name) == Some(name),
        file_name(directory + seq!['/'] + name) == Some(name),
{
    lemma_plain_names(name);
    law_parts_are_piecewise(name, Seq::empty());
    law_parts_are_piecewise(directory, name);
    assert((parts(directory) + seq![name]).last() == name);
}

} // verus!
