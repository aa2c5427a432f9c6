//! Which files have keys and which they are, how what a move did is counted,
//! and in which order its files are taken.
use vstd::prelude::*;
use vstd::utf8::*;

use crate::ids::Uuid;
use crate::storage::migrate::{FileOutcome, Names, PathText};

verus! {

/// The bytes of names.
pub open spec fn encoded(names: Seq<Seq<char>>) -> Seq<Seq<u8>> {
    names.map_values(|name: Seq<char>| encode_utf8(name))
}

proof fn lemma_names_of_encoded(names: Seq<Seq<char>>)
    ensures
        crate::storage::migrate::names_of(crate::os_path::name_parts(encoded(names)))
            == Names::All(names),
    decreases names.len(),
{
    let parts = crate::os_path::name_parts(encoded(names));
    if names.len() == 0 {
        assert(names =~= Seq::<Seq<char>>::empty());
    } else {
        lemma_names_of_encoded(names.drop_last());
        assert(parts.drop_last() =~= crate::os_path::name_parts(encoded(names.drop_last())));
        encode_utf8_valid_utf8(names.last());
        encode_utf8_decode_utf8(names.last());
        assert(names.drop_last().push(names.last()) =~= names);
    }
}

/// A path that is the directory followed by one or more names in UTF-8,
/// however many, has a key: the names with slashes between them.
pub proof fn law_files_below_have_keys(root: PathText, path: PathText, names: Seq<Seq<char>>)
    requires
        names.len() > 0,
        forall|i: int| 0 <= i < names.len() ==> !(#[trigger] names[i]).contains('/'),
        crate::os_path::components(path.bytes@) == crate::os_path::components(root.bytes@)
            + crate::os_path::name_parts(encoded(names)),
    ensures
        crate::storage::migrate::key_of(root, path) == Ok::<
            Seq<char>,
            crate::storage::StorageErrorView,
        >(crate::text::joined(names, seq!['/'])),
        crate::text::split(crate::text::joined(names, seq!['/']), '/') == names,
{
    let outer = crate::os_path::components(root.bytes@);
    let whole = crate::os_path::components(path.bytes@);
    let parts = crate::os_path::name_parts(encoded(names));
    assert(whole.subrange(0, outer.len() as int) =~= outer);
    assert(whole.skip(outer.len() as int) =~= parts);
    lemma_names_of_encoded(names);
    reveal_strlit("/");
    assert("/"@ =~= seq!['/']);
    crate::text::lemma_split_joined(names, '/');
}

proof fn lemma_encode_piecewise(a: Seq<char>, b: Seq<char>)
    ensures
        encode_utf8(a + b) == encode_utf8(a) + encode_utf8(b),
    decreases a.len(),
{
    if a.len() == 0 {
        assert(a + b =~= b);
        assert(encode_utf8(a) + encode_utf8(b) =~= encode_utf8(b));
    } else {
        lemma_encode_piecewise(a.drop_first(), b);
        assert((a + b).drop_first() =~= a.drop_first() + b);
        assert((a + b)[0] == a[0]);
        assert(encode_utf8(a + b) =~= encode_utf8(a) + encode_utf8(b));
    }
}

/// A character other than a slash has no slash among its bytes.
proof fn lemma_scalar_without_slash(c: char)
    requires
        c != '/',
    ensures
        !encode_scalar(c as u32).contains(0x2f),
{
    let v: u32 = c as u32;
    assert(v <= 0x7f && v != 0x2f ==> (v & 0x7f) as u8 != 0x2f) by (bit_vector);
    assert((0xC0u8 | ((v >> 6) & 0x1F) as u8) >= 0x80) by (bit_vector);
    assert((0xE0u8 | ((v >> 12) & 0x0F) as u8) >= 0x80) by (bit_vector);
    assert((0xF0u8 | ((v >> 18) & 0x7) as u8) >= 0x80) by (bit_vector);
    assert((0x80u8 | (v & 0x3F) as u8) >= 0x80) by (bit_vector);
    assert((0x80u8 | ((v >> 6) & 0x3F) as u8) >= 0x80) by (bit_vector);
    assert((0x80u8 | ((v >> 12) & 0x3F) as u8) >= 0x80) by (bit_vector);
}

proof fn lemma_text_without_slash(text: Seq<char>)
    requires
        !text.contains('/'),
    ensures
        !encode_utf8(text).contains(0x2f),
    decreases text.len(),
{
    if text.len() > 0 {
        let rest = text.drop_first();
        assert(text.contains(text[0]));
        if rest.contains('/') {
            let k = choose|k: int| 0 <= k < rest.len() && rest[k] == '/';
            assert(text[k + 1] == '/');
        }
        lemma_scalar_without_slash(text[0]);
        lemma_text_without_slash(rest);
        let first = encode_scalar(text[0] as u32);
        let whole = encode_utf8(text);
        if whole.contains(0x2f) {
            let k = choose|k: int| 0 <= k < whole.len() && whole[k] == 0x2f;
            if k < first.len() {
                assert(first[k] == 0x2f);
            } else {
                assert(encode_utf8(rest)[k - first.len()] == 0x2f);
            }
        }
    }
}

proof fn lemma_ascii(c: char)
    requires
        c as u32 <= 0x7f,
    ensures
        encode_utf8(seq![c]) == seq![c as u8],
{
    let v: u32 = c as u32;
    assert(v <= 0x7f ==> (v & 0x7f) as u8 == v as u8) by (bit_vector);
    reveal_with_fuel(encode_utf8, 2);
    assert(seq![c].drop_first() =~= Seq::<char>::empty());
    assert(encode_utf8(seq![c]) =~= seq![c as u8]);
}

proof fn lemma_plain_bytes(name: Seq<char>)
    requires
        crate::paths::is_plain_name(name),
    ensures
        crate::os_path::is_plain_name(encode_utf8(name)),
{
    lemma_text_without_slash(name);
    encode_utf8_decode_utf8(name);
    lemma_ascii('.');
    lemma_encode_piecewise(seq!['.'], seq!['.']);
    assert(seq!['.'] + seq!['.'] =~= seq!['.', '.']);
    assert(seq![0x2eu8] + seq![0x2eu8] =~= seq![0x2eu8, 0x2eu8]);
    encode_utf8_decode_utf8(seq!['.']);
    encode_utf8_decode_utf8(seq!['.', '.']);
    encode_utf8_decode_utf8(Seq::empty());
    if encode_utf8(name).len() == 0 {
        assert(encode_utf8(name) =~= encode_utf8(Seq::empty()));
    }
}

/// The bytes of names with slashes between them, behind a path.
proof fn lemma_joined_bytes(path: Seq<u8>, names: Seq<Seq<char>>)
    requires
        names.len() > 0,
    ensures
        crate::os_path::continued(path, encoded(names)) == path + seq![0x2fu8] + encode_utf8(
            crate::text::joined(names, seq!['/']),
        ),
    decreases names.len(),
{
    let last = names.last();
    assert(encoded(names).last() == encode_utf8(last));
    assert(encoded(names).drop_last() =~= encoded(names.drop_last()));
    if names.len() == 1 {
        reveal_with_fuel(crate::os_path::continued, 2);
        assert(encoded(names).drop_last() =~= Seq::<Seq<u8>>::empty());
    } else {
        let front = names.drop_last();
        let before = crate::text::joined(front, seq!['/']);
        lemma_joined_bytes(path, front);
        lemma_encode_piecewise(before, seq!['/']);
        lemma_encode_piecewise(before + seq!['/'], last);
        lemma_ascii('/');
        assert(path + seq![0x2fu8] + encode_utf8(before) + seq![0x2fu8] + encode_utf8(last) =~= path
            + seq![0x2fu8] + encode_utf8(crate::text::joined(names, seq!['/'])));
    }
}

/// A key of plain names leads to its file and back: the file that is written
/// as the directory, a slash and the key has just this key, whatever the
/// number of its names.
pub proof fn law_keys_come_back(root: PathText, path: PathText, names: Seq<Seq<char>>)
    requires
        root.bytes@.len() > 0,
        names.len() > 0,
        forall|i: int| 0 <= i < names.len() ==> crate::paths::is_plain_name(#[trigger] names[i]),
        path.bytes@ == root.bytes@ + seq![0x2fu8] + encode_utf8(
            crate::text::joined(names, seq!['/']),
        ),
    ensures
        crate::storage::migrate::key_of(root, path) == Ok::<
            Seq<char>,
            crate::storage::StorageErrorView,
        >(crate::text::joined(names, seq!['/'])),
{
    assert forall|i: int| 0 <= i < encoded(names).len() implies crate::os_path::is_plain_name(
        #[trigger] encoded(names)[i],
    ) by {
        lemma_plain_bytes(names[i]);
    }
    assert forall|i: int| 0 <= i < names.len() implies !(#[trigger] names[i]).contains('/') by {
        assert(crate::paths::is_plain_name(names[i]));
    }
    lemma_joined_bytes(root.bytes@, names);
    crate::os_path::law_names_lie_below(root.bytes@, encoded(names));
    law_files_below_have_keys(root, path, names);
}

proof fn lemma_id_names(id: Uuid)
    ensures
        crate::paths::is_plain_name(id.text()),
        crate::paths::is_plain_name(id.text() + ".png"@),
{
    crate::ids::law_ids_are_plain(id);
    reveal_strlit(".png");
    let name = id.text() + ".png"@;
    assert(id.text().len() == 36 && name.len() == 40);
    if id.text().contains('/') {
        let k = choose|k: int| 0 <= k < id.text().len() && id.text()[k] == '/';
        assert(crate::ids::is_id_char(id.text()[k]));
    }
    if name.contains('/') {
        let k = choose|k: int| 0 <= k < name.len() && name[k] == '/';
        if k < 36 {
            assert(crate::ids::is_id_char(id.text()[k]));
        } else {
            assert(name[k] == ".png"@[k - 36]);
        }
    }
}

proof fn lemma_fixed_names()
    ensures
        crate::paths::is_plain_name("tenants"@),
        crate::paths::is_plain_name("projects"@),
        crate::paths::is_plain_name("builds"@),
        crate::paths::is_plain_name("diffs"@),
        crate::paths::is_plain_name("storybook.zip"@),
{
    reveal_strlit("tenants");
    reveal_strlit("projects");
    reveal_strlit("builds");
    reveal_strlit("diffs");
    reveal_strlit("storybook.zip");
    assert("tenants"@.len() == 7 && "projects"@.len() == 8 && "builds"@.len() == 6);
    assert("diffs"@.len() == 5 && "storybook.zip"@.len() == 13);
}

/// The keys that the service forms come back from the files that a local
/// store keeps under them: of screenshots, of differences and of bundles.
pub proof fn law_service_keys_come_back(
    root: PathText,
    path: PathText,
    key: Seq<char>,
    tenant: Uuid,
    project: Uuid,
    build: Uuid,
    id: Uuid,
)
    requires
        root.bytes@.len() > 0,
        path.bytes@ == root.bytes@ + seq![0x2fu8] + encode_utf8(key),
        key == crate::ids::screenshot_key_text(tenant, project, build, id) || key
            == crate::ids::diff_key_text(tenant, project, build, id) || key
            == crate::ids::storybook_key_text(tenant, project, build),
    ensures
        crate::storage::migrate::key_of(root, path) == Ok::<
            Seq<char>,
            crate::storage::StorageErrorView,
        >(key),
{
    let names = crate::text::split(key, '/');
    crate::ids::law_keys_name_their_ids(tenant, project, build, id);
    crate::text::law_split_texts_join_again(key, '/');
    lemma_id_names(tenant);
    lemma_id_names(project);
    lemma_id_names(build);
    lemma_id_names(id);
    lemma_fixed_names();
    assert forall|i: int| 0 <= i < names.len() implies crate::paths::is_plain_name(
        #[trigger] names[i],
    ) by {
        assert(i == 0 || i == 1 || i == 2 || i == 3 || i == 4 || i == 5 || i == 6 || i == 7);
    }
    law_keys_come_back(root, path, names);
}

/// A path has a key exactly if it begins with the parts of the directory and
/// goes on with at least one name, and with names in UTF-8 alone.
pub proof fn law_keys_exist_exactly(root: PathText, path: PathText)
    ensures
        crate::storage::migrate::key_of(root, path) is Ok <==> {
            let outer = crate::os_path::components(root.bytes@);
            let whole = crate::os_path::components(path.bytes@);
            &&& outer.is_prefix_of(whole)
            &&& outer.len() < whole.len()
            &&& forall|i: int|
                outer.len() <= i < whole.len() ==> ((#[trigger] whole[i]) matches
                    crate::os_path::PartView::Name(name) && valid_utf8(name))
        },
{
    let outer = crate::os_path::components(root.bytes@);
    let whole = crate::os_path::components(path.bytes@);
    let n = outer.len() as int;
    if outer.is_prefix_of(whole) {
        let rest = whole.skip(n);
        lemma_all_names(rest);
        if (forall|i: int|
            0 <= i < rest.len() ==> ((#[trigger] rest[i]) matches crate::os_path::PartView::Name(
                name,
            ) && valid_utf8(name))) {
            assert forall|i: int| outer.len() <= i < whole.len() implies ((#[trigger] whole[i])
                matches crate::os_path::PartView::Name(name) && valid_utf8(name)) by {
                assert(rest[i - n] == whole[i]);
            }
        }
        if (forall|i: int|
            outer.len() <= i < whole.len() ==> ((#[trigger] whole[i]) matches
                crate::os_path::PartView::Name(name) && valid_utf8(name))) {
            assert forall|i: int| 0 <= i < rest.len() implies ((#[trigger] rest[i]) matches
                crate::os_path::PartView::Name(name) && valid_utf8(name)) by {
                assert(rest[i] == whole[n + i]);
            }
        }
    }
}

proof fn lemma_all_names(parts: Seq<crate::os_path::PartView>)
    ensures
        crate::storage::migrate::names_of(parts) is All <==> forall|i: int|
            0 <= i < parts.len() ==> ((#[trigger] parts[i]) matches crate::os_path::PartView::Name(
                name,
            ) && valid_utf8(name)),
        crate::storage::migrate::names_of(parts) matches Names::All(names) ==> names.len()
            == parts.len(),
    decreases parts.len(),
{
    if parts.len() > 0 {
        let fewer = parts.drop_last();
        lemma_all_names(fewer);
        if crate::storage::migrate::names_of(parts) is All {
            assert forall|i: int| 0 <= i < parts.len() implies ((#[trigger] parts[i]) matches
                crate::os_path::PartView::Name(name) && valid_utf8(name)) by {
                if i < fewer.len() {
                    assert(fewer[i] == parts[i]);
                }
            }
        }
        if (forall|i: int|
            0 <= i < parts.len() ==> ((#[trigger] parts[i]) matches crate::os_path::PartView::Name(
                name,
            ) && valid_utf8(name))) {
            assert forall|i: int| 0 <= i < fewer.len() implies ((#[trigger] fewer[i]) matches
                crate::os_path::PartView::Name(name) && valid_utf8(name)) by {
                assert(fewer[i] == parts[i]);
            }
            assert(parts[parts.len() - 1] is Name);
        }
    }
}

/// What a move did is counted file by file: the counts of two lists add up,
/// and one file counts as sent with its bytes, or as left alone.
pub proof fn law_outcomes_add_up(a: Seq<FileOutcome>, b: Seq<FileOutcome>, size: u64)
    ensures
        crate::storage::migrate::count_uploaded(a + b) == crate::storage::migrate::count_uploaded(a)
            + crate::storage::migrate::count_uploaded(b),
        crate::storage::migrate::count_skipped(a + b) == crate::storage::migrate::count_skipped(a)
            + crate::storage::migrate::count_skipped(b),
        crate::storage::migrate::bytes_sent(a + b) == crate::storage::migrate::bytes_sent(a)
            + crate::storage::migrate::bytes_sent(b),
        crate::storage::migrate::count_uploaded(seq![FileOutcome::Uploaded(size)]) == 1,
        crate::storage::migrate::count_skipped(seq![FileOutcome::Uploaded(size)]) == 0,
        crate::storage::migrate::bytes_sent(seq![FileOutcome::Uploaded(size)]) == size,
        crate::storage::migrate::count_uploaded(seq![FileOutcome::Skipped]) == 0,
        crate::storage::migrate::count_skipped(seq![FileOutcome::Skipped]) == 1,
        crate::storage::migrate::bytes_sent(seq![FileOutcome::Skipped]) == 0,
    decreases b.len(),
{
    if b.len() == 0 {
        assert(a + b =~= a);
    } else {
        law_outcomes_add_up(a, b.drop_last(), size);
        assert((a + b).drop_last() =~= a + b.drop_last());
        assert((a + b).last() == b.last());
    }
    reveal_with_fuel(crate::storage::migrate::count_uploaded, 2);
    reveal_with_fuel(crate::storage::migrate::count_skipped, 2);
    reveal_with_fuel(crate::storage::migrate::bytes_sent, 2);
    assert(seq![FileOutcome::Uploaded(size)].drop_last() =~= Seq::<FileOutcome>::empty());
    assert(seq![FileOutcome::Skipped].drop_last() =~= Seq::<FileOutcome>::empty());
}

/// Files are taken in the order of their paths, part by part: of two paths
/// that differ somewhere the one goes first whose part ends there, or whose
/// byte there is smaller; and a path goes before every path that continues it.
pub proof fn law_files_are_ordered_by_parts(
    common: Seq<u8>,
    x: u8,
    a: Seq<u8>,
    y: u8,
    b: Seq<u8>,
)
    requires
        x != 0,
        y != 0,
    ensures
        x != y ==> crate::order::less(
            crate::storage::migrate::sort_key(common + seq![x] + a),
            crate::storage::migrate::sort_key(common + seq![y] + b),
        ) == (x == 0x2f || (y != 0x2f && x < y)),
        crate::order::less(
            crate::storage::migrate::sort_key(common),
            crate::storage::migrate::sort_key(common + seq![x] + a),
        ),
{
    let key = |byte: u8|
        if byte == 0x2f {
            0u8
        } else {
            byte
        };
    let c = crate::storage::migrate::sort_key(common);
    let p = crate::storage::migrate::sort_key(a);
    let q = crate::storage::migrate::sort_key(b);
    assert(crate::storage::migrate::sort_key(common + seq![x] + a) =~= c + seq![key(x)] + p);
    assert(crate::storage::migrate::sort_key(common + seq![y] + b) =~= c + seq![key(y)] + q);
    crate::order::law_the_first_difference_decides(c, key(x), p, key(y), q);
}

/// Every file is ordered by the bytes of its own path.
pub proof fn law_every_file_is_ordered_by_its_path(files: Seq<PathText>)
    ensures
        crate::storage::migrate::sort_keys(files).len() == files.len(),
        forall|i: int|
            0 <= i < files.len() ==> #[trigger] crate::storage::migrate::sort_keys(files)[i]
                == crate::storage::migrate::sort_key(files[i].bytes@),
{
}

/// What a path without a key is refused for: that it lies outside the
/// directory, which is named with it; that a part of it is no name, or not in
/// UTF-8; or that it is the directory itself.
pub proof fn law_keyless_paths_are_told(root: PathText, path: PathText)
    ensures
        ({
            let outer = crate::os_path::components(root.bytes@);
            let whole = crate::os_path::components(path.bytes@);
            let refused = crate::storage::migrate::key_of(root, path)->Err_0;
            &&& !outer.is_prefix_of(whole) ==> crate::storage::migrate::key_of(root, path) is Err
                && refused == crate::storage::StorageErrorView::Other(
                "migration path `"@ + path.shown@ + "` is outside source root `"@ + root.shown@
                    + "`"@,
            )
            &&& outer == whole ==> crate::storage::migrate::key_of(root, path) is Err && refused
                == crate::storage::StorageErrorView::InvalidKey
            &&& outer.is_prefix_of(whole) && outer != whole && crate::storage::migrate::key_of(
                root,
                path,
            ) is Err ==> {
                ||| refused == crate::storage::StorageErrorView::Other(
                    "migration path is not valid UTF-8: "@ + path.shown@,
                )
                ||| refused == crate::storage::StorageErrorView::Other(
                    "invalid migration path: "@ + path.shown@,
                )
            }
        }),
{
    let outer = crate::os_path::components(root.bytes@);
    let whole = crate::os_path::components(path.bytes@);
    let rest = whole.skip(outer.len() as int);
    if outer.is_prefix_of(whole) {
        lemma_all_names(rest);
        assert(whole.subrange(0, outer.len() as int) =~= outer);
        if rest.len() == 0 {
            assert(whole =~= outer);
        }
    }
    if outer == whole {
        assert(whole.subrange(0, outer.len() as int) =~= outer);
        assert(rest.len() == 0);
    }
}

} // verus!
