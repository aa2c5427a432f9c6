//! Text helpers: characters, decimal numbers, joining and splitting.
//!
//! Contracts speak of the characters of a string (its view). Functions that
//! work on single characters go through a `Vec<char>`.
use vstd::prelude::*;
use vstd::string::*;
use vstd::utf8::*;

verus! {

/// `String::push` of std: the character goes behind the last one.
pub assume_specification[ String::push ](text: &mut String, c: char)
    ensures
        final(text)@ == old(text)@.push(c),
;

/// The characters of `text`, one by one.
pub fn chars_of(text: &str) -> (chars: Vec<char>)
    ensures
        chars@ == text@,
{
    let mut chars: Vec<char> = Vec::new();
    for c in it: text.chars()
        invariant
            it.seq() == text@,
            chars@ == text@.take(it.index()),
    {
        chars.push(c);
        assert(text@.take(it.index() + 1) =~= text@.take(it.index()).push(c));
    }
    assert(text@.take(text@.len() as int) =~= text@);
    chars
}

/// The string made of the characters `chars[from..to]`.
pub fn text_of(chars: &Vec<char>, from: usize, to: usize) -> (text: String)
    requires
        from <= to <= chars.len(),
    ensures
        text@ == chars@.subrange(from as int, to as int),
{
    let mut text = String::new();
    let mut i: usize = from;
    while i < to
        invariant
            from <= i <= to <= chars.len(),
            text@ == chars@.subrange(from as int, i as int),
        decreases to - i,
    {
        text.push(chars[i]);
        i += 1;
        assert(chars@.subrange(from as int, i as int) =~= chars@.subrange(
            from as int,
            i - 1,
        ).push(chars@[i - 1]));
    }
    text
}

/// Whether two strings hold the same characters.
pub fn same_text(a: &str, b: &str) -> (same: bool)
    ensures
        same == (a@ == b@),
{
    let x = a.as_bytes();
    let y = b.as_bytes();
    proof {
        encode_utf8_decode_utf8(a@);
        encode_utf8_decode_utf8(b@);
    }
    same_bytes(x, y)
}

/// Whether two byte strings are equal.
pub fn same_bytes(a: &[u8], b: &[u8]) -> (same: bool)
    ensures
        same == (a@ == b@),
{
    if a.len() != b.len() {
        return false;
    }
    let mut i: usize = 0;
    while i < a.len()
        invariant
            i <= a.len() == b.len(),
            forall|j: int| 0 <= j < i ==> a@[j] == b@[j],
        decreases a.len() - i,
    {
        if a[i] != b[i] {
            return false;
        }
        i += 1;
    }
    assert(a@ =~= b@);
    true
}

/// A character in ASCII lower case; other characters stay as they are.
pub open spec fn lower_char(c: char) -> char {
    if 'A' <= c <= 'Z' {
        (c as u32 + 32) as char
    } else {
        c
    }
}

/// A text in ASCII lower case.
pub open spec fn lower(text: Seq<char>) -> Seq<char> {
    text.map_values(|c: char| lower_char(c))
}

/// Puts a text in ASCII lower case.
pub fn lower_text(text: &str) -> (lowered: String)
    ensures
        lowered@ == lower(text@),
{
    let chars = chars_of(text);
    let mut lowered = String::new();
    let mut i: usize = 0;
    while i < chars.len()
        invariant
            i <= chars.len(),
            chars@ == text@,
            lowered@ == lower(text@).take(i as int),
        decreases chars.len() - i,
    {
        let c = chars[i];
        if 'A' <= c && c <= 'Z' {
            lowered.push((c as u8 + 32) as char);
        } else {
            lowered.push(c);
        }
        assert(lower(text@).take(i + 1) =~= lower(text@).take(i as int).push(lower_char(c)));
        i += 1;
    }
    assert(lower(text@).take(text@.len() as int) =~= lower(text@));
    lowered
}

/// Whether a text begins with another.
pub fn starts_with(text: &str, prefix: &str) -> (begins: bool)
    ensures
        begins == prefix@.is_prefix_of(text@),
{
    let chars = chars_of(text);
    let start = chars_of(prefix);
    if start.len() > chars.len() {
        return false;
    }
    let mut i: usize = 0;
    while i < start.len()
        invariant
            i <= start.len() <= chars.len(),
            chars@ == text@,
            start@ == prefix@,
            forall|k: int| 0 <= k < i ==> start@[k] == chars@[k],
        decreases start.len() - i,
    {
        if start[i] != chars[i] {
            assert(text@.subrange(0, prefix@.len() as int)[i as int] == text@[i as int]);
            return false;
        }
        i += 1;
    }
    assert(text@.subrange(0, prefix@.len() as int) =~= prefix@);
    true
}

// ── trimming ────────────────────────────────────────────────────────────

/// `text` without the characters `c` at its end.
pub open spec fn trimmed_end(text: Seq<char>, c: char) -> Seq<char>
    decreases text.len(),
{
    if text.len() > 0 && text.last() == c {
        trimmed_end(text.drop_last(), c)
    } else {
        text
    }
}

/// `text` without the characters `c` at its start.
pub open spec fn trimmed_start(text: Seq<char>, c: char) -> Seq<char>
    decreases text.len(),
{
    if text.len() > 0 && text.first() == c {
        trimmed_start(text.drop_first(), c)
    } else {
        text
    }
}

/// Drops the characters `c` at the end of a text.
pub fn trim_end(text: &str, c: char) -> (trimmed: String)
    ensures
        trimmed@ == trimmed_end(text@, c),
{
    let chars = chars_of(text);
    let mut end: usize = chars.len();
    assert(chars@.take(end as int) =~= chars@);
    while end > 0 && chars[end - 1] == c
        invariant
            end <= chars.len(),
            trimmed_end(chars@.take(end as int), c) == trimmed_end(chars@, c),
        decreases end,
    {
        assert(chars@.take(end as int).drop_last() =~= chars@.take(end - 1));
        end -= 1;
    }
    assert(chars@.subrange(0, end as int) =~= chars@.take(end as int));
    text_of(&chars, 0, end)
}

/// Drops the characters `c` at the start of a text.
pub fn trim_start(text: &str, c: char) -> (trimmed: String)
    ensures
        trimmed@ == trimmed_start(text@, c),
{
    let chars = chars_of(text);
    let mut start: usize = 0;
    assert(chars@.skip(0) =~= chars@);
    while start < chars.len() && chars[start] == c
        invariant
            start <= chars.len(),
            trimmed_start(chars@.skip(start as int), c) == trimmed_start(chars@, c),
        decreases chars.len() - start,
    {
        assert(chars@.skip(start as int).drop_first() =~= chars@.skip(start + 1));
        start += 1;
    }
    assert(chars@.subrange(start as int, chars.len() as int) =~= chars@.skip(start as int));
    text_of(&chars, start, chars.len())
}

// ── joining ─────────────────────────────────────────────────────────────

/// The characters of each string of a list.
pub open spec fn views(parts: Seq<String>) -> Seq<Seq<char>> {
    parts.map_values(|part: String| part@)
}

/// `parts` in order, with `separator` between each two neighbours.
pub open spec fn joined(parts: Seq<Seq<char>>, separator: Seq<char>) -> Seq<char>
    decreases parts.len(),
{
    if parts.len() == 0 {
        Seq::empty()
    } else if parts.len() == 1 {
        parts[0]
    } else {
        joined(parts.drop_last(), separator) + separator + parts.last()
    }
}

/// Joins the first `count` strings of a list.
pub fn join_first(parts: &Vec<String>, count: usize, separator: &str) -> (text: String)
    requires
        count <= parts.len(),
    ensures
        text@ == joined(views(parts@).take(count as int), separator@),
{
    let mut text = String::new();
    let mut i: usize = 0;
    while i < count
        invariant
            i <= count <= parts.len(),
            text@ == joined(views(parts@).take(i as int), separator@),
        decreases count - i,
    {
        if i > 0 {
            text.append(separator);
        }
        text.append(parts[i].as_str());
        i += 1;
        proof {
            let now = views(parts@).take(i as int);
            assert(now.drop_last() =~= views(parts@).take(i - 1));
            assert(now.last() == parts@[i - 1]@);
            if i == 1 {
                assert(text@ =~= parts@[0]@);
            }
        }
    }
    text
}

/// Joins all strings of a list.
pub fn join(parts: &Vec<String>, separator: &str) -> (text: String)
    ensures
        text@ == joined(views(parts@), separator@),
{
    assert(views(parts@).take(parts@.len() as int) =~= views(parts@));
    join_first(parts, parts.len(), separator)
}

// ── splitting ───────────────────────────────────────────────────────────

/// The pieces of `text` between the separators: one more than there are
/// separators.
pub open spec fn split<T>(text: Seq<T>, separator: T) -> Seq<Seq<T>>
    decreases text.len(),
{
    if text.len() == 0 {
        seq![Seq::empty()]
    } else {
        let before = split(text.drop_last(), separator);
        if text.last() == separator {
            before.push(Seq::empty())
        } else {
            before.drop_last().push(before.last().push(text.last()))
        }
    }
}

/// A split has at least one piece.
pub proof fn lemma_split_nonempty<T>(text: Seq<T>, separator: T)
    ensures
        split(text, separator).len() >= 1,
    decreases text.len(),
{
    if text.len() > 0 {
        lemma_split_nonempty(text.drop_last(), separator);
    }
}

/// Splitting a text that is continued without a separator only makes its last
/// piece longer.
pub proof fn lemma_split_continued<T>(text: Seq<T>, more: Seq<T>, separator: T)
    requires
        !more.contains(separator),
    ensures
        split(text + more, separator) == split(text, separator).drop_last().push(
            split(text, separator).last() + more,
        ),
    decreases more.len(),
{
    let whole = split(text, separator);
    lemma_split_nonempty(text, separator);
    if more.len() == 0 {
        assert(text + more =~= text);
        assert(whole.last() + more =~= whole.last());
        assert(whole.drop_last().push(whole.last()) =~= whole);
    } else {
        let less = more.drop_last();
        let c = more.last();
        assert(more.contains(c));
        assert(!less.contains(separator)) by {
            if less.contains(separator) {
                let k = choose|k: int| 0 <= k < less.len() && less[k] == separator;
                assert(more[k] == separator);
            }
        }
        lemma_split_continued(text, less, separator);
        assert((text + more).drop_last() =~= text + less);
        assert((text + more).last() == c);
        let before = whole.drop_last().push(whole.last() + less);
        assert(before.drop_last() =~= whole.drop_last());
        assert((whole.last() + less).push(c) =~= whole.last() + more);
    }
}

/// A text without a separator is its own only piece.
pub proof fn lemma_split_whole<T>(text: Seq<T>, separator: T)
    requires
        !text.contains(separator),
    ensures
        split(text, separator) == seq![text],
{
    let none = Seq::<T>::empty();
    lemma_split_continued(none, text, separator);
    assert(none + text =~= text);
    assert(split(none, separator) =~= seq![none]);
    assert(seq![none].drop_last().push(none + text) =~= seq![text]);
}

/// A separator and a piece behind a text add that piece.
pub proof fn lemma_split_piece<T>(text: Seq<T>, separator: T, piece: Seq<T>)
    requires
        !piece.contains(separator),
    ensures
        split(text + seq![separator] + piece, separator) == split(text, separator).push(piece),
{
    let longer = text + seq![separator];
    assert(longer.drop_last() =~= text);
    assert(longer.last() == separator);
    lemma_split_continued(longer, piece, separator);
    let none = Seq::<T>::empty();
    assert(split(longer, separator) == split(text, separator).push(none));
    assert(split(text, separator).push(none).drop_last() =~= split(text, separator));
    assert(none + piece =~= piece);
}

/// No piece of a split holds a separator.
pub proof fn lemma_split_pieces<T>(text: Seq<T>, separator: T)
    ensures
        forall|i: int|
            0 <= i < split(text, separator).len() ==> !(#[trigger] split(text, separator)[i]).contains(
                separator,
            ),
    decreases text.len(),
{
    if text.len() > 0 {
        let before = split(text.drop_last(), separator);
        let now = split(text, separator);
        lemma_split_pieces(text.drop_last(), separator);
        lemma_split_nonempty(text.drop_last(), separator);
        assert forall|i: int| 0 <= i < now.len() implies !(#[trigger] now[i]).contains(
            separator,
        ) by {
            if text.last() == separator {
                if i < before.len() {
                    assert(now[i] == before[i]);
                }
            } else if i < before.len() - 1 {
                assert(now[i] == before[i]);
            } else {
                let last = before[before.len() - 1];
                assert(now[i] == last.push(text.last()));
                if now[i].contains(separator) {
                    let k = choose|k: int| 0 <= k < now[i].len() && now[i][k] == separator;
                    assert(last[k] == separator);
                    assert(last.contains(separator));
                }
            }
        }
    }
}

/// A list of pieces without separators can be told from the pieces joined with
/// separators between them.
pub proof fn lemma_split_joined(parts: Seq<Seq<char>>, separator: char)
    requires
        parts.len() > 0,
        forall|i: int| 0 <= i < parts.len() ==> !(#[trigger] parts[i]).contains(separator),
    ensures
        split(joined(parts, seq![separator]), separator) == parts,
    decreases parts.len(),
{
    if parts.len() == 1 {
        lemma_split_whole(parts[0], separator);
        assert(seq![parts[0]] =~= parts);
    } else {
        let front = parts.drop_last();
        assert forall|i: int| 0 <= i < front.len() implies !(#[trigger] front[i]).contains(
            separator,
        ) by {
            assert(front[i] == parts[i]);
        }
        lemma_split_joined(front, separator);
        lemma_split_piece(joined(front, seq![separator]), separator, parts.last());
        assert(front.push(parts.last()) =~= parts);
    }
}

/// The pieces of a text between the separators.
pub fn split_text(text: &str, separator: char) -> (pieces: Vec<String>)
    ensures
        views(pieces@) == split(text@, separator),
{
    let chars = chars_of(text);
    let mut pieces: Vec<String> = Vec::new();
    let mut piece = String::new();
    let mut i: usize = 0;
    assert(views(pieces@).push(piece@) =~= split(chars@.take(0), separator));
    while i < chars.len()
        invariant
            i <= chars.len(),
            views(pieces@).push(piece@) == split(chars@.take(i as int), separator),
        decreases chars.len() - i,
    {
        let c = chars[i];
        let ghost before = views(pieces@);
        let ghost open = piece@;
        proof {
            assert(chars@.take(i + 1).drop_last() =~= chars@.take(i as int));
            assert(before.push(open).drop_last() =~= before);
            assert(before.push(open).last() == open);
        }
        if c == separator {
            pieces.push(piece);
            piece = String::new();
            assert(views(pieces@) =~= before.push(open));
        } else {
            piece.push(c);
        }
        assert(views(pieces@).push(piece@) =~= split(chars@.take(i + 1), separator));
        i += 1;
    }
    assert(chars@.take(chars@.len() as int) =~= chars@);
    let ghost before = views(pieces@);
    let ghost open = piece@;
    pieces.push(piece);
    assert(views(pieces@) =~= before.push(open));
    pieces
}

// ── decimal numbers ─────────────────────────────────────────────────────

/// The character of a decimal digit.
pub open spec fn digit_char(d: nat) -> char {
    (48 + d) as char
}

/// `n` written in decimal, without leading zeros.
pub open spec fn decimal_text(n: nat) -> Seq<char>
    decreases n,
{
    if n < 10 {
        seq![digit_char(n)]
    } else {
        decimal_text(n / 10).push(digit_char(n % 10))
    }
}

/// Writes `n` in decimal.
pub fn decimal(n: u64) -> (text: String)
    ensures
        text@ == decimal_text(n as nat),
    decreases n,
{
    let low: u8 = (n % 10) as u8;
    let c: char = (48u8 + low) as char;
    let mut text = if n < 10 {
        String::new()
    } else {
        decimal(n / 10)
    };
    text.push(c);
    assert(text@ =~= decimal_text(n as nat));
    text
}

// ── what holds of texts ─────────────────────────────────────────────────

/// A text in lower case differs from the text in the letters `A` to `Z` alone,
/// each of which is replaced by the letter 32 places behind it.
pub proof fn law_lower_case_changes_capitals_only(text: Seq<char>)
    ensures
        lower(text).len() == text.len(),
        forall|i: int|
            0 <= i < text.len() ==> (#[trigger] lower(text)[i]) as int == if 0x41 <= text[i] as int
                && text[i] as int <= 0x5a {
                text[i] as int + 32
            } else {
                text[i] as int
            },
{
}

/// `c`, so many times.
pub open spec fn repeated(c: char, times: nat) -> Seq<char> {
    Seq::new(times, |i: int| c)
}

/// Trimming takes away all that was put at an end, however often it was put
/// there, and nothing else.
pub proof fn law_trimming_takes_what_was_added(text: Seq<char>, c: char, times: nat)
    ensures
        text.len() > 0 ==> text.last() != c ==> trimmed_end(text + repeated(c, times), c) == text,
        text.len() > 0 ==> text.first() != c ==> trimmed_start(repeated(c, times) + text, c)
            == text,
        trimmed_end(repeated(c, times), c) == Seq::<char>::empty(),
        trimmed_start(repeated(c, times), c) == Seq::<char>::empty(),
    decreases times,
{
    if times == 0 {
        assert(text + repeated(c, times) =~= text);
        assert(repeated(c, times) + text =~= text);
        assert(repeated(c, times) =~= Seq::<char>::empty());
    } else {
        let fewer = (times - 1) as nat;
        law_trimming_takes_what_was_added(text, c, fewer);
        assert((text + repeated(c, times)).drop_last() =~= text + repeated(c, fewer));
        assert((text + repeated(c, times)).last() == c);
        assert((repeated(c, times) + text).drop_first() =~= repeated(c, fewer) + text);
        assert((repeated(c, times) + text).first() == c);
        assert(repeated(c, times).drop_last() =~= repeated(c, fewer));
        assert(repeated(c, times).drop_first() =~= repeated(c, fewer));
    }
}

/// Two lists joined into one text are the two texts with one separator between
/// them; a single text stands alone, and no text gives none.
pub proof fn law_joining_is_piecewise(
    a: Seq<Seq<char>>,
    b: Seq<Seq<char>>,
    text: Seq<char>,
    separator: Seq<char>,
)
    ensures
        a.len() > 0 && b.len() > 0 ==> joined(a + b, separator) == joined(a, separator) + separator
            + joined(b, separator),
        joined(seq![text], separator) == text,
        joined(Seq::empty(), separator) == Seq::<char>::empty(),
    decreases b.len(),
{
    if a.len() > 0 && b.len() > 0 {
        let less = b.drop_last();
        assert((a + b).drop_last() =~= a + less);
        assert((a + b).last() == b.last());
        if less.len() == 0 {
            assert(a + less =~= a);
            assert(joined(a + b, separator) =~= joined(a, separator) + separator + b.last());
        } else {
            law_joining_is_piecewise(a, less, text, separator);
            assert(joined(a + b, separator) =~= joined(a, separator) + separator + joined(
                b,
                separator,
            ));
        }
    }
}

/// A text with a separator in it is split into the pieces before and those
/// behind it; a text without one is not split.
pub proof fn law_splitting_is_piecewise<T>(a: Seq<T>, b: Seq<T>, separator: T)
    ensures
        split(a + seq![separator] + b, separator) == split(a, separator) + split(b, separator),
        !a.contains(separator) ==> split(a, separator) == seq![a],
    decreases b.len(),
{
    let front = a + seq![separator];
    lemma_split_nonempty(b, separator);
    if !a.contains(separator) {
        lemma_split_whole(a, separator);
    }
    if b.len() == 0 {
        assert(front + b =~= front);
        assert(front.drop_last() =~= a);
        assert(split(a, separator).push(Seq::empty()) =~= split(a, separator) + split(b, separator));
    } else {
        let less = b.drop_last();
        law_splitting_is_piecewise(a, less, separator);
        lemma_split_nonempty(less, separator);
        assert((front + b).drop_last() =~= front + less);
        assert((front + b).last() == b.last());
        let x = split(a, separator);
        let y = split(less, separator);
        assert((x + y).drop_last() =~= x + y.drop_last());
        assert((x + y).last() == y.last());
        assert(split(front + b, separator) =~= x + split(b, separator));
    }
}

/// The pieces of a text, joined with the separator, are the text again.
pub proof fn law_split_texts_join_again(text: Seq<char>, separator: char)
    ensures
        joined(split(text, separator), seq![separator]) == text,
        forall|i: int|
            0 <= i < split(text, separator).len() ==> !(#[trigger] split(text, separator)[i]).contains(
                separator,
            ),
    decreases text.len(),
{
    lemma_split_pieces(text, separator);
    if text.len() > 0 {
        let less = text.drop_last();
        let before = split(less, separator);
        law_split_texts_join_again(less, separator);
        lemma_split_nonempty(less, separator);
        assert(less.push(text.last()) =~= text);
        if text.last() == separator {
            assert(before.push(Seq::empty()).drop_last() =~= before);
            assert(joined(before, seq![separator]) + seq![separator] + Seq::<char>::empty()
                =~= text);
        } else {
            let now = split(text, separator);
            assert(now.drop_last() =~= before.drop_last());
            if before.len() == 1 {
                assert(now[0] =~= text);
            } else {
                assert(joined(now, seq![separator]) =~= joined(
                    before.drop_last(),
                    seq![separator],
                ) + seq![separator] + before.last().push(text.last()));
            }
        }
    }
}

/// The number that decimal digits stand for.
pub open spec fn number_of(digits: Seq<char>) -> int
    decreases digits.len(),
{
    if digits.len() == 0 {
        0
    } else {
        10 * number_of(digits.drop_last()) + (digits.last() as u32 - '0' as u32)
    }
}

/// A number in decimal consists of digits, does not begin with a zero unless it
/// is zero, and stands for the number.
pub proof fn law_decimals_stand_for_their_number(n: nat)
    ensures
        number_of(decimal_text(n)) == n,
        decimal_text(n).len() > 0,
        forall|i: int| 0 <= i < decimal_text(n).len() ==> '0' <= #[trigger] decimal_text(n)[i] <= '9',
        decimal_text(n)[0] == '0' ==> n == 0,
        n < 10 ==> decimal_text(n).len() == 1,
    decreases n,
{
    reveal_with_fuel(number_of, 2);
    if n < 10 {
        assert(seq![digit_char(n)].drop_last() =~= Seq::<char>::empty());
    } else {
        law_decimals_stand_for_their_number(n / 10);
        let front = decimal_text(n / 10);
        assert(decimal_text(n).drop_last() =~= front);
        assert forall|i: int| 0 <= i < decimal_text(n).len() implies '0' <= #[trigger] decimal_text(
            n,
        )[i] <= '9' by {
            if i < front.len() {
                assert(decimal_text(n)[i] == front[i]);
            }
        }
        assert(decimal_text(n)[0] == front[0]);
    }
}

/// The texts of a list of strings are the strings, one by one and in order.
pub proof fn law_views_keep_every_text(parts: Seq<String>)
    ensures
        views(parts).len() == parts.len(),
        forall|i: int| 0 <= i < parts.len() ==> #[trigger] views(parts)[i] == parts[i]@,
{
}

} // verus!
