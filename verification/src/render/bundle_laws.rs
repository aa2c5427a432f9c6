//! Which names and which zips are accepted, and what a refused one is
//! answered.
use vstd::prelude::*;

use crate::render::bundle::{BundleErrorView, ExtractLimits, ExtractedView};

verus! {

/// A name of an entry is accepted exactly if it has no backslash, does not
/// start with a slash or with a letter and a colon, and has, between its
/// slashes, no `..` but something that is neither nothing nor `.`. How many
/// pieces there are, and how long they are, does not matter.
pub proof fn law_safe_names(name: Seq<char>)
    ensures
        crate::render::bundle::is_safe(name) <==> {
            &&& forall|i: int| 0 <= i < name.len() ==> #[trigger] name[i] != '\\'
            &&& !(name.len() >= 1 && name[0] == '/')
            &&& !(name.len() >= 2 && name[1] == ':' && (0x41 <= name[0] as int && name[0] as int
                <= 0x5a || 0x61 <= name[0] as int && name[0] as int <= 0x7a))
            &&& forall|i: int|
                0 <= i < crate::text::split(name, '/').len() ==> #[trigger] crate::text::split(
                    name,
                    '/',
                )[i] != seq!['.', '.']
            &&& exists|i: int|
                0 <= i < crate::text::split(name, '/').len() && (#[trigger] crate::text::split(
                    name,
                    '/',
                )[i]).len() > 0 && crate::text::split(name, '/')[i] != seq!['.']
        },
{
    let pieces = crate::text::split(name, '/');
    reveal_strlit(".");
    reveal_strlit("..");
    assert("."@ =~= seq!['.']);
    assert(".."@ =~= seq!['.', '.']);
    lemma_telling_members(pieces);
    let parts = crate::paths::telling(pieces);
    if crate::render::bundle::is_safe(name) {
        assert forall|i: int| 0 <= i < name.len() implies #[trigger] name[i] != '\\' by {
            assert(name.contains(name[i]));
        }
        assert forall|i: int| 0 <= i < pieces.len() implies #[trigger] pieces[i] != seq!['.', '.'] by {
            if pieces[i] == seq!['.', '.'] {
                assert(crate::paths::is_telling(pieces[i]));
                assert(parts.contains(pieces[i]));
                let k = choose|k: int| 0 <= k < parts.len() && parts[k] == pieces[i];
                assert(crate::paths::parts(name)[k] != ".."@);
            }
        }
        assert(parts.contains(parts[0]));
        assert(pieces.contains(parts[0]) && crate::paths::is_telling(parts[0]));
        let i = choose|i: int| 0 <= i < pieces.len() && pieces[i] == parts[0];
        assert(pieces[i].len() > 0 && pieces[i] != seq!['.']);
    }
    if (forall|i: int| 0 <= i < pieces.len() ==> #[trigger] pieces[i] != seq!['.', '.']) {
        assert forall|k: int| 0 <= k < parts.len() implies #[trigger] parts[k] != ".."@ by {
            assert(parts.contains(parts[k]));
            assert(pieces.contains(parts[k]));
        }
    }
    if exists|i: int|
        0 <= i < pieces.len() && (#[trigger] pieces[i]).len() > 0 && pieces[i] != seq!['.'] {
        let i = choose|i: int|
            0 <= i < pieces.len() && (#[trigger] pieces[i]).len() > 0 && pieces[i] != seq!['.'];
        assert(crate::paths::is_telling(pieces[i]));
        assert(parts.contains(pieces[i]));
    }
}

/// The telling pieces are those pieces that are telling.
proof fn lemma_telling_members(pieces: Seq<Seq<char>>)
    ensures
        forall|piece: Seq<char>| #[trigger]
            crate::paths::telling(pieces).contains(piece) <==> pieces.contains(piece)
                && crate::paths::is_telling(piece),
    decreases pieces.len(),
{
    if pieces.len() > 0 {
        let less = pieces.drop_last();
        lemma_telling_members(less);
        let before = crate::paths::telling(less);
        let now = crate::paths::telling(pieces);
        assert forall|piece: Seq<char>| #[trigger]
            now.contains(piece) <==> pieces.contains(piece) && crate::paths::is_telling(piece) by {
            assert(before.contains(piece) <==> less.contains(piece) && crate::paths::is_telling(
                piece,
            ));
            assert(less.push(pieces.last()) =~= pieces);
            if pieces.contains(piece) {
                let k = choose|k: int| 0 <= k < pieces.len() && pieces[k] == piece;
                if k < less.len() {
                    assert(less[k] == piece);
                }
            }
            if less.contains(piece) {
                let k = choose|k: int| 0 <= k < less.len() && less[k] == piece;
                assert(pieces[k] == piece);
            }
            if now.contains(piece) {
                let k = choose|k: int| 0 <= k < now.len() && now[k] == piece;
                if k < before.len() {
                    assert(before[k] == piece);
                } else {
                    assert(pieces[pieces.len() - 1] == piece);
                }
            }
            if before.contains(piece) {
                let k = choose|k: int| 0 <= k < before.len() && before[k] == piece;
                assert(now[k] == piece);
            }
            if crate::paths::is_telling(piece) && pieces.last() == piece {
                assert(now[now.len() - 1] == piece);
            }
        }
    }
}

/// Plain names with slashes between them are accepted whatever their depth, as
/// long as they have no backslash and do not start like a drive. The entry
/// goes where the names lead from the target directory.
pub proof fn law_plain_names_are_accepted(root: Seq<char>, names: Seq<Seq<char>>)
    requires
        names.len() > 0,
        forall|i: int|
            0 <= i < names.len() ==> crate::paths::is_plain_name(#[trigger] names[i])
                && !names[i].contains('\\'),
        !(names[0].len() >= 2 && names[0][1] == ':' && ('a' <= names[0][0] <= 'z' || 'A'
            <= names[0][0] <= 'Z')),
    ensures
        crate::render::bundle::is_safe(crate::text::joined(names, seq!['/'])),
        crate::render::bundle::target(Seq::empty(), crate::text::joined(names, seq!['/']))
            == crate::text::joined(names, seq!['/']),
        root.len() > 0 && root.last() != '/' ==> crate::render::bundle::target(
            root,
            crate::text::joined(names, seq!['/']),
        ) == root + seq!['/'] + crate::text::joined(names, seq!['/']),
{
    let name = crate::text::joined(names, seq!['/']);
    assert forall|i: int| 0 <= i < names.len() implies crate::paths::is_piece(#[trigger] names[i]) by {
        reveal_strlit(".");
        assert("."@ =~= seq!['.']);
        assert(crate::paths::is_plain_name(names[i]));
    }
    assert forall|i: int| 0 <= i < names.len() implies crate::paths::is_plain_name(
        #[trigger] names[i],
    ) by {}
    crate::paths::law_plain_names_stay_below(names);
    crate::paths::law_names_are_written_behind(root, names);
    lemma_no_backslash(names);
    lemma_second(names);
}

proof fn lemma_no_backslash(names: Seq<Seq<char>>)
    requires
        forall|i: int| 0 <= i < names.len() ==> !(#[trigger] names[i]).contains('\\'),
    ensures
        !crate::text::joined(names, seq!['/']).contains('\\'),
    decreases names.len(),
{
    let name = crate::text::joined(names, seq!['/']);
    if names.len() > 1 {
        let front = names.drop_last();
        assert forall|i: int| 0 <= i < front.len() implies !(#[trigger] front[i]).contains('\\') by {
            assert(front[i] == names[i]);
        }
        lemma_no_backslash(front);
        let before = crate::text::joined(front, seq!['/']);
        let last = names[names.len() - 1];
        if name.contains('\\') {
            let k = choose|k: int| 0 <= k < name.len() && name[k] == '\\';
            if k < before.len() {
                assert(before[k] == '\\');
            } else if k > before.len() {
                assert(last[k - before.len() - 1] == '\\');
            }
        }
    } else if names.len() == 1 {
        assert(!names[0].contains('\\'));
    }
}

/// What stands behind the first name is a slash.
proof fn lemma_second(names: Seq<Seq<char>>)
    requires
        names.len() > 0,
    ensures
        ({
            let name = crate::text::joined(names, seq!['/']);
            &&& names[0].is_prefix_of(name)
            &&& name.len() > names[0].len() ==> name[names[0].len() as int] == '/'
        }),
    decreases names.len(),
{
    let name = crate::text::joined(names, seq!['/']);
    if names.len() > 1 {
        let front = names.drop_last();
        lemma_second(front);
        let before = crate::text::joined(front, seq!['/']);
        assert(front[0] == names[0]);
        assert(before.subrange(0, names[0].len() as int) =~= names[0]);
        assert(name.subrange(0, names[0].len() as int) =~= names[0]);
        if before.len() == names[0].len() {
            assert(name[names[0].len() as int] == '/');
        } else {
            assert(name[names[0].len() as int] == before[names[0].len() as int]);
        }
    } else {
        assert(name.subrange(0, names[0].len() as int) =~= names[0]);
    }
}

/// One plain name more makes an accepted name no worse, and neither does a
/// slash at its end: what is added is one part, or none.
pub proof fn law_safe_names_can_be_continued(name: Seq<char>, more: Seq<char>)
    requires
        crate::render::bundle::is_safe(name),
        crate::paths::is_plain_name(more),
        !more.contains('\\'),
    ensures
        crate::render::bundle::is_safe(name + seq!['/'] + more),
        crate::paths::parts(name + seq!['/'] + more) == crate::paths::parts(name).push(more),
        crate::render::bundle::is_safe(name + seq!['/']),
        crate::paths::parts(name + seq!['/']) == crate::paths::parts(name),
{
    let longer = name + seq!['/'] + more;
    let closed = name + seq!['/'];
    let none = Seq::<char>::empty();
    crate::paths::law_parts_are_piecewise(name, more);
    crate::paths::law_parts_are_piecewise(more, none);
    crate::paths::law_parts_are_piecewise(name, none);
    crate::paths::law_parts_are_piecewise(none, none);
    assert(closed + none =~= closed);
    assert(crate::paths::parts(name) + seq![more] =~= crate::paths::parts(name).push(more));
    assert(crate::paths::parts(name) + Seq::<Seq<char>>::empty() =~= crate::paths::parts(name));
    reveal_strlit("..");
    assert(".."@ =~= seq!['.', '.']);
    if name.len() == 0 {
        assert(crate::paths::parts(none) == Seq::<Seq<char>>::empty());
        assert(name =~= none);
    }
    assert(longer[0] == name[0] && closed[0] == name[0]);
    if longer.contains('\\') {
        let k = choose|k: int| 0 <= k < longer.len() && longer[k] == '\\';
        if k < name.len() {
            assert(name[k] == '\\');
        } else if k > name.len() {
            assert(more[k - name.len() - 1] == '\\');
        }
    }
    if closed.contains('\\') {
        let k = choose|k: int| 0 <= k < closed.len() && closed[k] == '\\';
        if k < name.len() {
            assert(name[k] == '\\');
        }
    }
    let parts = crate::paths::parts(name);
    assert forall|i: int| 0 <= i < crate::paths::parts(longer).len() implies #[trigger] crate::paths::parts(
        longer,
    )[i] != ".."@ by {
        if i < parts.len() {
            assert(crate::paths::parts(longer)[i] == parts[i]);
        }
    }
}

/// The bytes of all files among the first `count` entries of a zip.
pub open spec fn size_before(bytes: Seq<u8>, count: int) -> int
    decreases count,
{
    if count <= 0 {
        0
    } else {
        size_before(bytes, count - 1) + match crate::render::archive::zip_head(bytes, count - 1) {
            Ok(head) => if head.is_dir {
                0int
            } else {
                crate::render::archive::entry_stream(bytes, count - 1).0.len() as int
            },
            Err(_) => 0int,
        }
    }
}

/// The entry at `index` of a zip can be unpacked: its head can be read, it is
/// no link, its name is accepted, and if it is a file, it can be read and fits,
/// in what it claims and in what it holds, behind the files before it.
pub open spec fn fits(bytes: Seq<u8>, limits: ExtractLimits, index: int) -> bool {
    &&& crate::render::archive::zip_head(bytes, index) matches Ok(head)
    &&& head.unix_mode matches Some(mode) ==> mode & 0o170000 != 0o120000
    &&& crate::render::bundle::is_safe(head.name)
    &&& !head.is_dir ==> {
        &&& crate::render::archive::entry_stream(bytes, index).1 is None
        &&& size_before(bytes, index) + head.size <= limits.max_uncompressed_bytes
        &&& size_before(bytes, index + 1) <= limits.max_uncompressed_bytes
    }
}

/// What unpacking the entry at `index` gives, if nothing is wrong with it.
pub open spec fn whole_entry(bytes: Seq<u8>, index: int) -> ExtractedView {
    let head = crate::render::archive::zip_head(bytes, index)->Ok_0;
    ExtractedView {
        path: crate::text::joined(crate::paths::parts(head.name), seq!['/']),
        contents: if head.is_dir {
            None
        } else {
            Some(crate::render::archive::entry_stream(bytes, index).0)
        },
    }
}

proof fn lemma_size_grows(bytes: Seq<u8>, limits: ExtractLimits, index: int)
    requires
        0 <= index,
        forall|i: int| 0 <= i < index ==> #[trigger] fits(bytes, limits, i),
    ensures
        0 <= size_before(bytes, index) <= limits.max_uncompressed_bytes,
    decreases index,
{
    if index > 0 {
        assert(fits(bytes, limits, index - 1));
        lemma_size_grows(bytes, limits, index - 1);
    }
}

proof fn lemma_path(name: Seq<char>)
    requires
        crate::render::bundle::is_safe(name),
    ensures
        crate::render::bundle::target(Seq::empty(), name) == crate::text::joined(
            crate::paths::parts(name),
            seq!['/'],
        ),
{
    crate::paths::law_parts_are_names(name);
    crate::paths::law_names_are_written_behind(Seq::empty(), crate::paths::parts(name));
}

/// As long as entries fit, unpacking goes on behind them with what they hold.
proof fn lemma_fitting_entries(
    bytes: Seq<u8>,
    entries: Seq<Result<crate::render::archive::HeadView, Seq<char>>>,
    limits: ExtractLimits,
    from: int,
    to: int,
)
    requires
        0 <= from <= to <= entries.len(),
        limits.max_uncompressed_bytes < u64::MAX,
        forall|i: int|
            0 <= i < entries.len() ==> #[trigger] entries[i] == crate::render::archive::zip_head(
                bytes,
                i,
            ),
        forall|i: int| 0 <= i < to ==> #[trigger] fits(bytes, limits, i),
    ensures
        crate::render::bundle::unpacked(
            bytes,
            entries,
            limits,
            from,
            size_before(bytes, from) as u64,
        ) == match crate::render::bundle::unpacked(
            bytes,
            entries,
            limits,
            to,
            size_before(bytes, to) as u64,
        ) {
            Err(error) => Err(error),
            Ok(rest) => Ok(Seq::new((to - from) as nat, |i: int| whole_entry(bytes, from + i)) + rest),
        },
    decreases to - from,
{
    let after = crate::render::bundle::unpacked(
        bytes,
        entries,
        limits,
        to,
        size_before(bytes, to) as u64,
    );
    let listed = Seq::new((to - from) as nat, |i: int| whole_entry(bytes, from + i));
    if from < to {
        assert(fits(bytes, limits, from));
        assert(entries[from] == crate::render::archive::zip_head(bytes, from));
        lemma_size_grows(bytes, limits, from);
        lemma_size_grows(bytes, limits, from + 1);
        let head = entries[from]->Ok_0;
        lemma_path(head.name);
        let written = size_before(bytes, from) as u64;
        let room = (limits.max_uncompressed_bytes - written) as u64;
        crate::render::bundle::law_room_is_observed(
            crate::render::archive::entry_stream(bytes, from),
            room,
        );
        assert(crate::render::bundle::entry_outcome(bytes, entries[from], from, limits, written)
            == Ok::<ExtractedView, BundleErrorView>(whole_entry(bytes, from)));
        lemma_fitting_entries(bytes, entries, limits, from + 1, to);
        let rest = Seq::new((to - from - 1) as nat, |i: int| whole_entry(bytes, from + 1 + i));
        if let Ok(items) = after {
            assert(seq![whole_entry(bytes, from)] + (rest + items) =~= listed + items);
        }
    } else {
        if let Ok(items) = after {
            assert(listed + items =~= items);
        }
    }
}

/// A zip within the limits whose entries can all be unpacked is unpacked: it
/// gives one file or directory for each entry, in their order, with all that
/// the entry holds.
pub proof fn law_good_bundles_are_unpacked(bytes: Seq<u8>, limits: ExtractLimits, count: nat)
    requires
        limits.max_uncompressed_bytes < u64::MAX,
        bytes.len() <= limits.max_bundle_bytes,
        crate::render::archive::zip_count(bytes) == Ok::<nat, Seq<char>>(count),
        count <= limits.max_entries,
        forall|i: int| 0 <= i < count ==> #[trigger] fits(bytes, limits, i),
    ensures
        crate::render::bundle::bundle_outcome(bytes, limits) == Ok::<_, BundleErrorView>(
            Seq::new(count, |i: int| whole_entry(bytes, i)),
        ),
{
    let entries = crate::render::archive::zip_entries(bytes)->Ok_0;
    lemma_fitting_entries(bytes, entries, limits, 0, count as int);
    let listed = Seq::new(count, |i: int| whole_entry(bytes, i));
    assert(Seq::new((count - 0) as nat, |i: int| whole_entry(bytes, 0 + i)) + Seq::<
        ExtractedView,
    >::empty() =~= listed);
}

/// What a zip is refused for before its first entry: its size, that it is no
/// zip, and the number of its entries, in this order.
pub proof fn law_bundles_are_refused_as_a_whole(bytes: Seq<u8>, limits: ExtractLimits)
    requires
        bytes.len() <= usize::MAX,
    ensures
        bytes.len() > limits.max_bundle_bytes ==> crate::render::bundle::bundle_outcome(bytes, limits)
            == Err::<Seq<ExtractedView>, BundleErrorView>(
            BundleErrorView::TooLarge(bytes.len() as usize),
        ),
        bytes.len() <= limits.max_bundle_bytes ==> match crate::render::archive::zip_count(bytes) {
            Err(message) => crate::render::bundle::bundle_outcome(bytes, limits) == Err::<
                Seq<ExtractedView>,
                BundleErrorView,
            >(BundleErrorView::InvalidZip(message)),
            Ok(count) => count > limits.max_entries ==> crate::render::bundle::bundle_outcome(
                bytes,
                limits,
            ) == Err::<Seq<ExtractedView>, BundleErrorView>(BundleErrorView::TooManyEntries),
        },
{
}

/// A zip is refused for the first entry that cannot be unpacked, and the error
/// says what is wrong with that entry: its head, that it is a link, its name,
/// its size or its data.
pub proof fn law_the_first_fault_is_reported(
    bytes: Seq<u8>,
    limits: ExtractLimits,
    count: nat,
    index: int,
)
    requires
        limits.max_uncompressed_bytes < u64::MAX,
        bytes.len() <= limits.max_bundle_bytes,
        crate::render::archive::zip_count(bytes) == Ok::<nat, Seq<char>>(count),
        count <= limits.max_entries,
        0 <= index < count,
        forall|i: int| 0 <= i < index ==> #[trigger] fits(bytes, limits, i),
        !fits(bytes, limits, index),
    ensures
        crate::render::bundle::bundle_outcome(bytes, limits) == Err::<Seq<ExtractedView>, BundleErrorView>(
            match crate::render::archive::zip_head(bytes, index) {
                Err(message) => BundleErrorView::InvalidZip(message),
                Ok(head) => if head.unix_mode is Some && head.unix_mode->0 & 0o170000 == 0o120000 {
                    BundleErrorView::Symlink(head.name)
                } else if !crate::render::bundle::is_safe(head.name) {
                    BundleErrorView::UnsafePath(head.name)
                } else if size_before(bytes, index) + head.size > limits.max_uncompressed_bytes
                    || size_before(bytes, index + 1) > limits.max_uncompressed_bytes {
                    BundleErrorView::TooMuchData
                } else {
                    BundleErrorView::Io(crate::render::archive::entry_stream(bytes, index).1->0)
                },
            },
        ),
{
    let entries = crate::render::archive::zip_entries(bytes)->Ok_0;
    lemma_fitting_entries(bytes, entries, limits, 0, index);
    lemma_size_grows(bytes, limits, index);
    let written = size_before(bytes, index) as u64;
    let room = (limits.max_uncompressed_bytes - written) as u64;
    crate::render::bundle::law_room_is_observed(
        crate::render::archive::entry_stream(bytes, index),
        room,
    );
    assert(entries[index] == crate::render::archive::zip_head(bytes, index));
    assert(crate::render::bundle::entry_outcome(bytes, entries[index], index, limits, written)
        is Err);
}

/// An uploaded bundle may have 200 MiB, 20,000 entries and 500 MiB of unpacked
/// files.
pub proof fn law_standard_limits()
    ensures
        crate::render::bundle::standard_limits().max_bundle_bytes == 200 * 1024 * 1024,
        crate::render::bundle::standard_limits().max_entries == 20_000,
        crate::render::bundle::standard_limits().max_uncompressed_bytes == 500 * 1024 * 1024,
{
}

/// An upload is taken for a bundle exactly if it has at most 200 MiB and begins
/// as the first entry of a zip does, whatever follows; one that is too large is
/// refused as such.
pub proof fn law_uploads_begin_like_a_zip(bytes: Seq<u8>)
    ensures
        crate::render::zip_refusal(bytes) is None <==> bytes.len() <= 209_715_200 && bytes.len()
            >= 4 && bytes[0] == 0x50 && bytes[1] == 0x4b && bytes[2] == 0x03 && bytes[3] == 0x04,
        bytes.len() > 209_715_200 <==> crate::render::zip_refusal(bytes) == Some(
            crate::error::AppErrorView::ContentTooLarge,
        ),
{
    let magic = crate::render::ZIP_MAGIC@;
    assert(magic =~= seq![0x50u8, 0x4b, 0x03, 0x04]);
    if bytes.len() >= 4 {
        assert(bytes.subrange(0, 4)[0] == bytes[0]);
        assert(bytes.subrange(0, 4)[1] == bytes[1]);
        assert(bytes.subrange(0, 4)[2] == bytes[2]);
        assert(bytes.subrange(0, 4)[3] == bytes[3]);
        if bytes[0] == 0x50 && bytes[1] == 0x4b && bytes[2] == 0x03 && bytes[3] == 0x04 {
            assert(bytes.subrange(0, 4) =~= magic);
        }
    }
}

/// Every bundle error is told in full: the name of the entry, or what was said
/// about the archive.
pub proof fn law_errors_are_told_in_full(detail: Seq<char>, size: usize)
    ensures
        BundleErrorView::UnsafePath(detail).text() == "unsafe zip entry path: "@ + detail,
        BundleErrorView::Symlink(detail).text()
            == "symlinks are not allowed in a storybook bundle: "@ + detail,
        BundleErrorView::InvalidZip(detail).text() == "invalid zip archive: "@ + detail,
        BundleErrorView::InvalidIndex(detail).text() == "invalid storybook index: "@ + detail,
        BundleErrorView::Io(detail).text() == "io error: "@ + detail,
        ("bundle is too large: "@ + crate::text::decimal_text(size as nat)).is_prefix_of(
            BundleErrorView::TooLarge(size).text(),
        ),
{
    let front = "bundle is too large: "@ + crate::text::decimal_text(size as nat);
    let text = BundleErrorView::TooLarge(size).text();
    assert(text.subrange(0, front.len() as int) =~= front);
}

/// The files and directories of a list are these, one by one and in order.
pub proof fn law_views_keep_every_file(items: Seq<crate::render::bundle::Extracted>)
    ensures
        crate::render::bundle::extracted_views(items).len() == items.len(),
        forall|i: int|
            0 <= i < items.len() ==> {
                let shown = #[trigger] crate::render::bundle::extracted_views(items)[i];
                &&& shown.path == items[i].path@
                &&& shown.contents is Some <==> items[i].contents is Some
                &&& items[i].contents is Some ==> shown.contents->0 == items[i].contents->0@
            },
{
}

} // verus!
