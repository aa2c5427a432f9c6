//! Paths of the operating system, as bytes.
//!
//! A path need not be UTF-8. The functions here only look at its bytes, never
//! at a file system.
use vstd::prelude::*;
use vstd::slice::slice_to_vec;

use crate::text::same_bytes;

verus! {

/// A part of a path.
#[derive(Debug)]
pub enum PathPart {
    /// The root of the file system.
    Root,
    /// A leading `.`.
    Current,
    /// `..`.
    Parent,
    Name(Vec<u8>),
}

/// A part of a path, in the terms of the contracts.
pub enum PartView {
    Root,
    Current,
    Parent,
    Name(Seq<u8>),
}

impl View for PathPart {
    type V = PartView;

    open spec fn view(&self) -> PartView {
        match self {
            PathPart::Root => PartView::Root,
            PathPart::Current => PartView::Current,
            PathPart::Parent => PartView::Parent,
            PathPart::Name(name) => PartView::Name(name@),
        }
    }
}

/// What each part of a list stands for.
pub open spec fn part_views(parts: Seq<PathPart>) -> Seq<PartView> {
    parts.map_values(|part: PathPart| part@)
}

/// The parts that pieces between slashes stand for. An empty piece and `.`
/// stand for none.
pub open spec fn named_parts(pieces: Seq<Seq<u8>>) -> Seq<PartView>
    decreases pieces.len(),
{
    if pieces.len() == 0 {
        Seq::empty()
    } else {
        let before = named_parts(pieces.drop_last());
        let piece = pieces.last();
        if piece.len() == 0 || piece == seq![0x2eu8] {
            before
        } else if piece == seq![0x2eu8, 0x2eu8] {
            before.push(PartView::Parent)
        } else {
            before.push(PartView::Name(piece))
        }
    }
}

/// The parts of a path. A `.` counts only at the start of a relative path.
pub open spec fn components(path: Seq<u8>) -> Seq<PartView> {
    let pieces = crate::text::split(path, 0x2fu8);
    let start = if path.len() > 0 && path[0] == 0x2f {
        seq![PartView::Root]
    } else if pieces[0] == seq![0x2eu8] {
        seq![PartView::Current]
    } else {
        Seq::empty()
    };
    start + named_parts(pieces)
}

/// A byte string that can be a name: it is not empty and holds no slash.
pub open spec fn is_name(name: Seq<u8>) -> bool {
    name.len() > 0 && !name.contains(0x2f)
}

/// The names among the parts of a path are not empty and hold no slash.
pub proof fn law_components_are_names(path: Seq<u8>)
    ensures
        forall|i: int|
            0 <= i < components(path).len() ==> ((#[trigger] components(path)[i]) matches
                PartView::Name(name) ==> is_name(name)),
{
    let pieces = crate::text::split(path, 0x2fu8);
    crate::text::lemma_split_pieces(path, 0x2fu8);
    lemma_named_parts_are_names(pieces);
    let whole = components(path);
    let named = named_parts(pieces);
    let start = whole.len() - named.len();
    assert forall|i: int| 0 <= i < whole.len() implies ((#[trigger] whole[i]) matches
        PartView::Name(name) ==> is_name(name)) by {
        if i >= start {
            assert(whole[i] == named[i - start]);
        }
    }
}

proof fn lemma_named_parts_are_names(pieces: Seq<Seq<u8>>)
    requires
        forall|i: int| 0 <= i < pieces.len() ==> !(#[trigger] pieces[i]).contains(0x2f),
    ensures
        forall|i: int|
            0 <= i < named_parts(pieces).len() ==> ((#[trigger] named_parts(pieces)[i]) matches
                PartView::Name(name) ==> is_name(name)),
    decreases pieces.len(),
{
    if pieces.len() > 0 {
        let fewer = pieces.drop_last();
        assert forall|i: int| 0 <= i < fewer.len() implies !(#[trigger] fewer[i]).contains(0x2f) by {
            assert(fewer[i] == pieces[i]);
        }
        lemma_named_parts_are_names(fewer);
        assert(!pieces[pieces.len() - 1].contains(0x2f));
    }
}

/// The byte strings in a list.
pub open spec fn byte_views(list: Seq<Vec<u8>>) -> Seq<Seq<u8>> {
    list.map_values(|bytes: Vec<u8>| bytes@)
}

/// The pieces of a byte string between the separators.
fn split_bytes(bytes: &[u8], separator: u8) -> (pieces: Vec<Vec<u8>>)
    ensures
        byte_views(pieces@) == crate::text::split(bytes@, separator),
        pieces@.len() >= 1,
{
    let mut pieces: Vec<Vec<u8>> = Vec::new();
    let mut piece: Vec<u8> = Vec::new();
    let mut i: usize = 0;
    assert(byte_views(pieces@).push(piece@) =~= crate::text::split(bytes@.take(0), separator));
    while i < bytes.len()
        invariant
            i <= bytes.len(),
            byte_views(pieces@).push(piece@) == crate::text::split(
                bytes@.take(i as int),
                separator,
            ),
        decreases bytes.len() - i,
    {
        let byte: u8 = bytes[i];
        let ghost before = byte_views(pieces@);
        let ghost open = piece@;
        proof {
            assert(bytes@.take(i + 1).drop_last() =~= bytes@.take(i as int));
            assert(before.push(open).drop_last() =~= before);
            assert(before.push(open).last() == open);
        }
        if byte == separator {
            pieces.push(piece);
            piece = Vec::new();
            assert(byte_views(pieces@) =~= before.push(open));
        } else {
            piece.push(byte);
        }
        assert(byte_views(pieces@).push(piece@) =~= crate::text::split(
            bytes@.take(i + 1),
            separator,
        ));
        i += 1;
    }
    assert(bytes@.take(bytes@.len() as int) =~= bytes@);
    let ghost before = byte_views(pieces@);
    let ghost open = piece@;
    pieces.push(piece);
    assert(byte_views(pieces@) =~= before.push(open));
    pieces
}

fn is_dot(piece: &Vec<u8>) -> (dot: bool)
    ensures
        dot == (piece@ == seq![0x2eu8]),
{
    let dot = piece.len() == 1 && piece[0] == 0x2e;
    assert(dot ==> piece@ =~= seq![0x2eu8]);
    dot
}

fn is_double_dot(piece: &Vec<u8>) -> (dots: bool)
    ensures
        dots == (piece@ == seq![0x2eu8, 0x2eu8]),
{
    let dots = piece.len() == 2 && piece[0] == 0x2e && piece[1] == 0x2e;
    assert(dots ==> piece@ =~= seq![0x2eu8, 0x2eu8]);
    dots
}

/// The parts of a path.
pub fn path_components(path: &Vec<u8>) -> (parts: Vec<PathPart>)
    ensures
        part_views(parts@) == components(path@),
{
    let pieces = split_bytes(path.as_slice(), 0x2f);
    let ghost all = byte_views(pieces@);
    let mut parts: Vec<PathPart> = Vec::new();
    if path.len() > 0 && path[0] == 0x2f {
        parts.push(PathPart::Root);
    } else if is_dot(&pieces[0]) {
        parts.push(PathPart::Current);
    }
    let ghost start = part_views(parts@);
    proof {
        assert(all[0] == pieces@[0]@);
        if path@.len() > 0 && path@[0] == 0x2f {
            assert(start =~= seq![PartView::Root]);
        } else if all[0] == seq![0x2eu8] {
            assert(start =~= seq![PartView::Current]);
        } else {
            assert(start =~= Seq::<PartView>::empty());
        }
        assert(start + named_parts(all.take(0)) =~= start);
    }
    let mut i: usize = 0;
    while i < pieces.len()
        invariant
            i <= pieces.len(),
            all == byte_views(pieces@),
            part_views(parts@) == start + named_parts(all.take(i as int)),
        decreases pieces.len() - i,
    {
        let ghost before = part_views(parts@);
        let piece = &pieces[i];
        proof {
            assert(all.take(i + 1).drop_last() =~= all.take(i as int));
            assert(all.take(i + 1).last() == piece@);
        }
        if piece.len() == 0 || is_dot(piece) {
        } else if is_double_dot(piece) {
            parts.push(PathPart::Parent);
            assert(part_views(parts@) =~= before.push(PartView::Parent));
        } else {
            parts.push(PathPart::Name(slice_to_vec(piece.as_slice())));
            assert(part_views(parts@) =~= before.push(PartView::Name(piece@)));
        }
        assert(part_views(parts@) =~= start + named_parts(all.take(i + 1)));
        i += 1;
    }
    assert(all.take(all.len() as int) =~= all);
    parts
}

fn same_part(a: &PathPart, b: &PathPart) -> (same: bool)
    ensures
        same == (a@ == b@),
{
    match (a, b) {
        (PathPart::Root, PathPart::Root) => true,
        (PathPart::Current, PathPart::Current) => true,
        (PathPart::Parent, PathPart::Parent) => true,
        (PathPart::Name(x), PathPart::Name(y)) => same_bytes(x.as_slice(), y.as_slice()),
        _ => false,
    }
}

/// Whether a list of parts begins with another.
pub fn begins_with(whole: &Vec<PathPart>, outer: &Vec<PathPart>) -> (begins: bool)
    ensures
        begins == part_views(outer@).is_prefix_of(part_views(whole@)),
{
    let ghost x = part_views(outer@);
    let ghost y = part_views(whole@);
    if outer.len() > whole.len() {
        return false;
    }
    let mut i: usize = 0;
    while i < outer.len()
        invariant
            i <= outer.len() <= whole.len(),
            x == part_views(outer@),
            y == part_views(whole@),
            forall|k: int| 0 <= k < i ==> x[k] == y[k],
        decreases outer.len() - i,
    {
        assert(x[i as int] == outer@[i as int]@ && y[i as int] == whole@[i as int]@);
        if !same_part(&outer[i], &whole[i]) {
            assert(y.subrange(0, x.len() as int)[i as int] == y[i as int]);
            return false;
        }
        i += 1;
    }
    assert(y.subrange(0, x.len() as int) =~= x);
    true
}

/// Whether a path lies at or below another, part by part.
pub fn lies_below(path: &Vec<u8>, root: &Vec<u8>) -> (below: bool)
    ensures
        below == components(root@).is_prefix_of(components(path@)),
{
    let whole = path_components(path);
    let outer = path_components(root);
    begins_with(&whole, &outer)
}

// ── what holds of parts ─────────────────────────────────────────────────

/// A byte string that is a plain name: not empty, without a slash, and neither
/// `.` nor `..`.
pub open spec fn is_plain_name(name: Seq<u8>) -> bool {
    &&& name.len() > 0
    &&& !name.contains(0x2f)
    &&& name != seq![0x2eu8]
    &&& name != seq![0x2eu8, 0x2eu8]
}

/// What one piece without a slash adds to the parts of a path: a plain name
/// adds itself, `..` a step up, `.` and nothing add nothing, however many
/// parts there were before.
pub proof fn law_pieces_add_their_part(path: Seq<u8>, piece: Seq<u8>)
    requires
        path.len() > 0,
        !piece.contains(0x2f),
    ensures
        components(path + seq![0x2fu8] + piece) == components(path) + if piece.len() == 0 || piece
            == seq![0x2eu8] {
            Seq::<PartView>::empty()
        } else if piece == seq![0x2eu8, 0x2eu8] {
            seq![PartView::Parent]
        } else {
            seq![PartView::Name(piece)]
        },
{
    let longer = path + seq![0x2fu8] + piece;
    let pieces = crate::text::split(path, 0x2fu8);
    crate::text::lemma_split_piece(path, 0x2fu8, piece);
    crate::text::lemma_split_nonempty(path, 0x2fu8);
    assert(pieces.push(piece)[0] == pieces[0]);
    assert(pieces.push(piece).drop_last() =~= pieces);
    assert(longer[0] == path[0]);
    let added = if piece.len() == 0 || piece == seq![0x2eu8] {
        Seq::<PartView>::empty()
    } else if piece == seq![0x2eu8, 0x2eu8] {
        seq![PartView::Parent]
    } else {
        seq![PartView::Name(piece)]
    };
    assert(named_parts(pieces.push(piece)) =~= named_parts(pieces) + added);
    assert(components(longer) =~= components(path) + added);
}

/// The parts of a path without a slash, and of one that begins with a slash:
/// the latter starts at the root, and only its pieces count.
pub proof fn law_paths_start_where_they_say(piece: Seq<u8>)
    requires
        !piece.contains(0x2f),
    ensures
        components(piece) == if piece.len() == 0 {
            Seq::<PartView>::empty()
        } else if piece == seq![0x2eu8] {
            seq![PartView::Current]
        } else if piece == seq![0x2eu8, 0x2eu8] {
            seq![PartView::Parent]
        } else {
            seq![PartView::Name(piece)]
        },
        components(seq![0x2fu8]) == seq![PartView::Root],
        is_plain_name(piece) ==> components(seq![0x2fu8] + piece) == seq![
            PartView::Root,
            PartView::Name(piece),
        ],
{
    crate::text::lemma_split_whole(piece, 0x2fu8);
    if piece.len() > 0 && piece[0] == 0x2f {
        assert(piece.contains(piece[0]));
    }
    reveal_with_fuel(named_parts, 3);
    let none = Seq::<u8>::empty();
    let empty = Seq::<Seq<u8>>::empty();
    assert(seq![piece].drop_last() =~= empty);
    assert(components(piece) =~= if piece.len() == 0 {
        Seq::<PartView>::empty()
    } else if piece == seq![0x2eu8] {
        seq![PartView::Current]
    } else if piece == seq![0x2eu8, 0x2eu8] {
        seq![PartView::Parent]
    } else {
        seq![PartView::Name(piece)]
    });
    crate::text::law_splitting_is_piecewise(none, none, 0x2fu8);
    assert(none + seq![0x2fu8] + none =~= seq![0x2fu8]);
    assert(seq![none] + seq![none] =~= seq![none, none]);
    assert(seq![none, none].drop_last() =~= seq![none]);
    assert(seq![none].drop_last() =~= empty);
    assert(components(seq![0x2fu8]) =~= seq![PartView::Root]);
    if is_plain_name(piece) {
        crate::text::law_splitting_is_piecewise(none, piece, 0x2fu8);
        assert(none + seq![0x2fu8] + piece =~= seq![0x2fu8] + piece);
        assert(seq![none] + seq![piece] =~= seq![none, piece]);
        assert(seq![none, piece].drop_last() =~= seq![none]);
        assert(components(seq![0x2fu8] + piece) =~= seq![PartView::Root, PartView::Name(piece)]);
    }
}

/// Names as parts of a path.
pub open spec fn name_parts(names: Seq<Seq<u8>>) -> Seq<PartView> {
    names.map_values(|name: Seq<u8>| PartView::Name(name))
}

/// A path and names behind it, each after a slash.
pub open spec fn continued(path: Seq<u8>, names: Seq<Seq<u8>>) -> Seq<u8>
    decreases names.len(),
{
    if names.len() == 0 {
        path
    } else {
        continued(path, names.drop_last()) + seq![0x2fu8] + names.last()
    }
}

/// A path that goes on with plain names, however many, has the parts of the
/// shorter path and then these names; so it lies below it.
pub proof fn law_names_lie_below(path: Seq<u8>, names: Seq<Seq<u8>>)
    requires
        path.len() > 0,
        forall|i: int| 0 <= i < names.len() ==> is_plain_name(#[trigger] names[i]),
    ensures
        components(continued(path, names)) == components(path) + name_parts(names),
        components(path).is_prefix_of(components(continued(path, names))),
        continued(path, names).len() > 0,
    decreases names.len(),
{
    if names.len() == 0 {
        assert(components(path) + name_parts(names) =~= components(path));
    } else {
        let fewer = names.drop_last();
        assert forall|i: int| 0 <= i < fewer.len() implies is_plain_name(#[trigger] fewer[i]) by {
            assert(fewer[i] == names[i]);
        }
        law_names_lie_below(path, fewer);
        let last = names[names.len() - 1];
        assert(is_plain_name(last));
        law_pieces_add_their_part(continued(path, fewer), last);
        assert(components(path) + name_parts(fewer) + seq![PartView::Name(last)] =~= components(path)
            + name_parts(names));
    }
    assert((components(path) + name_parts(names)).subrange(0, components(path).len() as int)
        =~= components(path));
}

} // verus!
