//! The index of a bundle: where it is, and which stories it lists.
use vstd::prelude::*;
use vstd::slice::slice_to_vec;
use vstd::string::*;

use crate::order::{bytes_less, order_by_name};
use crate::render::bundle::BundleError;
use crate::text::same_text;

verus! {

/// The name of the index of current bundles.
pub open spec fn index_name() -> Seq<char> {
    "index.json"@
}

/// The name of the index of old bundles.
pub open spec fn old_index_name() -> Seq<char> {
    "stories.json"@
}

/// The file that serves as the index of a directory, which has `index.json`
/// or not and `stories.json` or not.
pub fn index_file(has_index: bool, has_stories: bool) -> (name: Option<&'static str>)
    ensures
        match name {
            Some(name) => if has_index {
                name@ == index_name()
            } else {
                has_stories && name@ == old_index_name()
            },
            None => !has_index && !has_stories,
        },
{
    if has_index {
        Some("index.json")
    } else if has_stories {
        Some("stories.json")
    } else {
        None
    }
}

/// A directory at the top of an unpacked bundle.
#[derive(Debug)]
pub struct Subdirectory {
    /// The bytes of its name.
    pub name: Vec<u8>,
    /// Whether it holds `index.json`.
    pub has_index: bool,
    /// Whether it holds `stories.json`.
    pub has_stories: bool,
}

/// Whether a directory holds an index.
pub open spec fn is_indexed(directory: Subdirectory) -> bool {
    directory.has_index || directory.has_stories
}

/// The first directory that holds an index, in the order of the names; among
/// equal names, in the order of the list.
pub open spec fn is_first_indexed(directories: Seq<Subdirectory>, found: int) -> bool {
    &&& 0 <= found < directories.len()
    &&& is_indexed(directories[found])
    &&& forall|i: int|
        0 <= i < directories.len() && is_indexed(#[trigger] directories[i]) ==> crate::order::less(
            directories[found].name@,
            directories[i].name@,
        ) || (directories[found].name@ == directories[i].name@ && found <= i)
}

/// Finds the index of a bundle: in the root itself, or else in the first of
/// its directories that has one. The result is the position of the directory
/// (`None` for the root) and the name of the file.
pub fn locate_index(
    has_index: bool,
    has_stories: bool,
    directories: &Vec<Subdirectory>,
) -> (outcome: Result<(Option<usize>, &'static str), BundleError>)
    ensures
        match outcome {
            Ok((None, name)) => if has_index {
                name@ == index_name()
            } else {
                has_stories && name@ == old_index_name()
            },
            Ok((Some(found), name)) => {
                &&& !has_index && !has_stories
                &&& is_first_indexed(directories@, found as int)
                &&& name@ == if directories@[found as int].has_index {
                    index_name()
                } else {
                    old_index_name()
                }
            },
            Err(error) => {
                &&& !has_index && !has_stories
                &&& forall|i: int|
                    0 <= i < directories@.len() ==> !is_indexed(#[trigger] directories@[i])
                &&& error@ == crate::render::bundle::BundleErrorView::IndexNotFound
            },
        },
{
    if let Some(name) = index_file(has_index, has_stories) {
        return Ok((None, name));
    }
    let mut best: Option<usize> = None;
    let mut i: usize = 0;
    while i < directories.len()
        invariant
            i <= directories.len(),
            match best {
                Some(found) => found < i && is_first_indexed(
                    directories@.take(i as int),
                    found as int,
                ),
                None => forall|k: int|
                    0 <= k < i ==> !is_indexed(#[trigger] directories@[k]),
            },
        decreases directories.len() - i,
    {
        let ghost seen = directories@.take(i as int);
        let ghost now = directories@.take(i + 1);
        assert(forall|k: int| 0 <= k < i ==> #[trigger] now[k] == seen[k]);
        assert(forall|k: int| 0 <= k < i ==> #[trigger] now[k] == directories@[k]);
        assert(now[i as int] == directories@[i as int]);
        if directories[i].has_index || directories[i].has_stories {
            match best {
                None => {
                    best = Some(i);
                },
                Some(found) => {
                    proof {
                        crate::order::lemma_less_total(
                            directories@[i as int].name@,
                            directories@[found as int].name@,
                        );
                    }
                    if bytes_less(
                        directories[i].name.as_slice(),
                        directories[found].name.as_slice(),
                    ) {
                        proof {
                            assert forall|k: int| 0 <= k < now.len() && is_indexed(
                                #[trigger] now[k],
                            ) implies crate::order::less(now[i as int].name@, now[k].name@) || (
                            now[i as int].name@ == now[k].name@ && i <= k) by {
                                if k < i {
                                    assert(is_indexed(seen[k]));
                                    if crate::order::less(seen[found as int].name@, seen[k].name@) {
                                        crate::order::lemma_less_transitive(
                                            now[i as int].name@,
                                            seen[found as int].name@,
                                            seen[k].name@,
                                        );
                                    }
                                }
                            }
                        }
                        best = Some(i);
                    } else {
                        proof {
                            assert forall|k: int| 0 <= k < now.len() && is_indexed(
                                #[trigger] now[k],
                            ) implies crate::order::less(now[found as int].name@, now[k].name@) || (
                            now[found as int].name@ == now[k].name@ && found <= k) by {
                                if k < i {
                                    assert(is_indexed(seen[k]));
                                }
                            }
                        }
                    }
                },
            }
        } else {
            proof {
                if let Some(found) = best {
                    assert forall|k: int| 0 <= k < now.len() && is_indexed(
                        #[trigger] now[k],
                    ) implies crate::order::less(now[found as int].name@, now[k].name@) || (
                    now[found as int].name@ == now[k].name@ && found <= k) by {
                        if k < i {
                            assert(is_indexed(seen[k]));
                        }
                    }
                }
            }
        }
        i += 1;
    }
    assert(directories@.take(directories@.len() as int) =~= directories@);
    match best {
        Some(found) => {
            let name = if directories[found].has_index {
                "index.json"
            } else {
                "stories.json"
            };
            Ok((Some(found), name))
        },
        None => Err(BundleError::IndexNotFound),
    }
}

/// A story of a bundle.
#[derive(Debug, Clone, PartialEq, Eq)]
pub struct Story {
    /// The identifier by which the bundle shows the story.
    pub id: String,
    /// The title of the component, such as `Components/Button`.
    pub title: String,
    /// The name of the story, such as `Primary`.
    pub name: String,
}

/// A story, in the terms of the contracts.
pub struct StoryView {
    pub id: Seq<char>,
    pub title: Seq<char>,
    pub name: Seq<char>,
}

impl View for Story {
    type V = StoryView;

    open spec fn view(&self) -> StoryView {
        StoryView { id: self.id@, title: self.title@, name: self.name@ }
    }
}

impl StoryView {
    /// The name of the story's screenshot.
    pub open spec fn screenshot_name(self) -> Seq<char> {
        self.title + "/"@ + self.name
    }
}

impl Story {
    /// The name of the story's screenshot: title and name, with a slash
    /// between them.
    pub fn screenshot_name(&self) -> (name: String)
        ensures
            name@ == self@.screenshot_name(),
    {
        let mut name = self.title.clone();
        name.append("/");
        name.append(self.name.as_str());
        name
    }
}

/// An unpacked bundle.
#[derive(Debug, Clone)]
pub struct ExtractedBundle {
    /// The directory that is served, by its path below the one into which the
    /// bundle was unpacked; empty for that directory itself.
    pub root: String,
    /// The stories, in the order of their screenshot names.
    pub stories: Vec<Story>,
}

/// An entry of an index.
#[derive(Debug)]
pub struct IndexEntry {
    pub id: Option<String>,
    pub title: Option<String>,
    pub name: Option<String>,
    /// `story` or another kind. Old indexes do not have it.
    pub entry_type: Option<String>,
}

/// A decoded index: the entries, with their keys and in the order of these.
/// Current bundles have `entries`, old ones `stories`.
#[derive(Debug)]
pub struct StorybookIndex {
    pub entries: Option<Vec<(String, IndexEntry)>>,
    pub stories: Option<Vec<(String, IndexEntry)>>,
}

/// The story that an entry of an index stands for, if it stands for one.
pub open spec fn listed(key: Seq<char>, entry: IndexEntry) -> Option<StoryView> {
    let is_story = match entry.entry_type {
        Some(kind) => kind@ == "story"@,
        None => true,
    };
    match (entry.title, entry.name) {
        (Some(title), Some(name)) => if is_story {
            Some(
                StoryView {
                    id: match entry.id {
                        Some(id) => id@,
                        None => key,
                    },
                    title: title@,
                    name: name@,
                },
            )
        } else {
            None
        },
        _ => None,
    }
}

/// The stories that the entries of an index stand for, in order.
pub open spec fn all_listed(entries: Seq<(String, IndexEntry)>) -> Seq<StoryView>
    decreases entries.len(),
{
    if entries.len() == 0 {
        Seq::empty()
    } else {
        let before = all_listed(entries.drop_last());
        match listed(entries.last().0@, entries.last().1) {
            Some(story) => before.push(story),
            None => before,
        }
    }
}

/// What each story of a list stands for.
pub open spec fn story_views(stories: Seq<Story>) -> Seq<StoryView> {
    stories.map_values(|story: Story| story@)
}

/// The bytes of the screenshot names of stories.
pub open spec fn screenshot_keys(stories: Seq<StoryView>) -> Seq<Seq<u8>> {
    stories.map_values(|story: StoryView| vstd::utf8::encode_utf8(story.screenshot_name()))
}

/// `sorted` holds the stories of `stories` in the order of their screenshot
/// names; stories with the same name are in the order of `stories`.
pub open spec fn is_sorted_list(stories: Seq<StoryView>, sorted: Seq<StoryView>) -> bool {
    exists|order: Seq<usize>| #[trigger]
        crate::order::ordering(screenshot_keys(stories), order) && sorted == order.map_values(
            |i: usize| stories[i as int],
        )
}

/// The stories that entries of an index stand for.
fn list_entries(entries: &Vec<(String, IndexEntry)>) -> (stories: Vec<Story>)
    ensures
        story_views(stories@) == all_listed(entries@),
{
    let mut stories: Vec<Story> = Vec::new();
    let mut i: usize = 0;
    assert(story_views(stories@) =~= all_listed(entries@.take(0)));
    while i < entries.len()
        invariant
            i <= entries.len(),
            story_views(stories@) == all_listed(entries@.take(i as int)),
        decreases entries.len() - i,
    {
        let ghost before = story_views(stories@);
        assert(entries@.take(i + 1).drop_last() =~= entries@.take(i as int));
        let (key, entry) = &entries[i];
        let is_story = match &entry.entry_type {
            Some(kind) => same_text(kind.as_str(), "story"),
            None => true,
        };
        if is_story {
            if let Some(title) = &entry.title {
                if let Some(name) = &entry.name {
                    let id = match &entry.id {
                        Some(id) => id.clone(),
                        None => key.clone(),
                    };
                    let story = Story { id, title: title.clone(), name: name.clone() };
                    let ghost shown = story@;
                    stories.push(story);
                    assert(story_views(stories@) =~= before.push(shown));
                }
            }
        }
        i += 1;
    }
    assert(entries@.take(entries@.len() as int) =~= entries@);
    stories
}

/// Puts stories in the order of their screenshot names.
fn sort_stories(stories: &Vec<Story>) -> (sorted: Vec<Story>)
    ensures
        is_sorted_list(story_views(stories@), story_views(sorted@)),
{
    let mut names: Vec<Vec<u8>> = Vec::new();
    let mut i: usize = 0;
    while i < stories.len()
        invariant
            i <= stories.len(),
            names@.len() == i,
            forall|k: int|
                0 <= k < i ==> (#[trigger] names@[k])@ == vstd::utf8::encode_utf8(
                    stories@[k]@.screenshot_name(),
                ),
        decreases stories.len() - i,
    {
        let name = stories[i].screenshot_name();
        names.push(slice_to_vec(name.as_str().as_bytes()));
        i += 1;
    }
    let ghost views = story_views(stories@);
    assert(crate::order::name_bytes(names@) =~= screenshot_keys(views));
    let order = order_by_name(&names);
    let mut sorted: Vec<Story> = Vec::new();
    let mut k: usize = 0;
    while k < order.len()
        invariant
            k <= order.len(),
            views == story_views(stories@),
            forall|j: int| 0 <= j < order@.len() ==> #[trigger] order@[j] < stories@.len(),
            sorted@.len() == k,
            forall|j: int| 0 <= j < k ==> (#[trigger] sorted@[j])@ == views[order@[j] as int],
        decreases order.len() - k,
    {
        let story = &stories[order[k]];
        sorted.push(
            Story { id: story.id.clone(), title: story.title.clone(), name: story.name.clone() },
        );
        k += 1;
    }
    proof {
        assert(story_views(sorted@) =~= order@.map_values(|i: usize| views[i as int]));
        assert(crate::order::ordering(screenshot_keys(views), order@));
    }
    sorted
}

/// The stories that a decoded index lists, in its own order; or the error for
/// an index that cannot be decoded or has no list.
pub open spec fn index_outcome(decoded: Result<StorybookIndex, String>) -> Result<
    Seq<StoryView>,
    crate::render::bundle::BundleErrorView,
> {
    match decoded {
        Err(message) => Err(crate::render::bundle::BundleErrorView::InvalidIndex(message@)),
        Ok(StorybookIndex { entries: Some(entries), stories }) => Ok(all_listed(entries@)),
        Ok(StorybookIndex { entries: None, stories: Some(stories) }) => Ok(all_listed(stories@)),
        Ok(StorybookIndex { entries: None, stories: None }) => Err(
            crate::render::bundle::BundleErrorView::InvalidIndex("no `entries` or `stories` key"@),
        ),
    }
}

/// The stories of a decoded index, in the order of their screenshot names.
/// Entries of another kind, and entries without a title or a name, are left
/// out. `decoded` is the index, or the message of the error for a text that
/// holds none.
pub fn parse_index(decoded: Result<StorybookIndex, String>) -> (outcome: Result<
    Vec<Story>,
    BundleError,
>)
    ensures
        match index_outcome(decoded) {
            Ok(listed) => outcome matches Ok(stories) && is_sorted_list(
                listed,
                story_views(stories@),
            ),
            Err(stated) => outcome matches Err(error) && error@ == stated,
        },
{
    let index = match decoded {
        Ok(index) => index,
        Err(message) => {
            return Err(BundleError::InvalidIndex(message));
        },
    };
    let entries = match index.entries {
        Some(entries) => entries,
        None => match index.stories {
            Some(stories) => stories,
            None => {
                return Err(
                    BundleError::InvalidIndex("no `entries` or `stories` key".to_string()),
                );
            },
        },
    };
    let stories = list_entries(&entries);
    Ok(sort_stories(&stories))
}

/// Describes an unpacked bundle whose index was found in `directory` and
/// decoded.
pub fn index_bundle(directory: &str, decoded: Result<StorybookIndex, String>) -> (outcome: Result<
    ExtractedBundle,
    BundleError,
>)
    ensures
        match index_outcome(decoded) {
            Ok(listed) => {
                &&& outcome matches Ok(bundle)
                &&& bundle.root@ == directory@
                &&& is_sorted_list(listed, story_views(bundle.stories@))
            },
            Err(stated) => outcome matches Err(error) && error@ == stated,
        },
{
    match parse_index(decoded) {
        Ok(stories) => Ok(ExtractedBundle { root: directory.to_string(), stories }),
        Err(error) => Err(error),
    }
}

/// A sorted list holds every story once, and no name stands before a smaller
/// one.
pub proof fn law_stories_are_sorted(stories: Seq<StoryView>, sorted: Seq<StoryView>)
    requires
        is_sorted_list(stories, sorted),
        stories.len() <= usize::MAX,
    ensures
        sorted.len() == stories.len(),
        sorted.to_multiset() == stories.to_multiset(),
        forall|a: int, b: int|
            0 <= a < b < sorted.len() ==> !crate::order::less(
                vstd::utf8::encode_utf8((#[trigger] sorted[b]).screenshot_name()),
                vstd::utf8::encode_utf8((#[trigger] sorted[a]).screenshot_name()),
            ),
{
    let keys = screenshot_keys(stories);
    let pick = |i: usize| stories[i as int];
    let order = choose|order: Seq<usize>| #[trigger]
        crate::order::ordering(keys, order) && sorted == order.map_values(
            |i: usize| stories[i as int],
        );
    let all = crate::order::places(stories.len());
    crate::order::lemma_ordering_places(keys, order);
    assert(sorted =~= order.map_values(pick));
    assert(stories =~= all.map_values(pick));
    crate::order::lemma_map_multiset(order, all, pick);
    assert forall|a: int, b: int| 0 <= a < b < sorted.len() implies !crate::order::less(
        vstd::utf8::encode_utf8((#[trigger] sorted[b]).screenshot_name()),
        vstd::utf8::encode_utf8((#[trigger] sorted[a]).screenshot_name()),
    ) by {
        let x = keys[order[a] as int];
        let y = keys[order[b] as int];
        assert(crate::order::goes_before(keys, order[a], order[b]));
        crate::order::lemma_less_irreflexive(x);
        if crate::order::less(y, x) {
            if crate::order::less(x, y) {
                crate::order::lemma_less_transitive(x, y, x);
            }
        }
    }
}

/// A sorted list is determined by the stories in it: the order in which they
/// are captured does not vary.
pub proof fn law_story_order_is_fixed(
    stories: Seq<StoryView>,
    x: Seq<StoryView>,
    y: Seq<StoryView>,
)
    requires
        is_sorted_list(stories, x),
        is_sorted_list(stories, y),
    ensures
        x == y,
{
    let keys = screenshot_keys(stories);
    let a = choose|order: Seq<usize>| #[trigger]
        crate::order::ordering(keys, order) && x == order.map_values(|i: usize| stories[i as int]);
    let b = choose|order: Seq<usize>| #[trigger]
        crate::order::ordering(keys, order) && y == order.map_values(|i: usize| stories[i as int]);
    crate::order::law_ordering_is_unique(keys, a, b);
}

/// Whether an entry of an index is a story: its kind is `story` or not given,
/// and it has a title and a name.
pub open spec fn is_story_entry(entry: IndexEntry) -> bool {
    &&& entry.entry_type is None || entry.entry_type->0@ == "story"@
    &&& entry.title is Some
    &&& entry.name is Some
}

/// The story of an entry that is one: its identifier, or else the key under
/// which it stands, with its title and its name.
pub open spec fn story_of(key: Seq<char>, entry: IndexEntry) -> StoryView {
    StoryView {
        id: if entry.id is Some {
            entry.id->0@
        } else {
            key
        },
        title: entry.title->0@,
        name: entry.name->0@,
    }
}

/// The stories of a list of entries are those of its first part and those of
/// the rest, wherever it is parted: how long the list is does not matter. An
/// entry by itself gives its story, or nothing if it is none.
pub proof fn law_listing_is_piecewise(
    a: Seq<(String, IndexEntry)>,
    b: Seq<(String, IndexEntry)>,
    entry: (String, IndexEntry),
)
    ensures
        all_listed(a + b) == all_listed(a) + all_listed(b),
        all_listed(seq![entry]) == if is_story_entry(entry.1) {
            seq![story_of(entry.0@, entry.1)]
        } else {
            Seq::<StoryView>::empty()
        },
    decreases b.len(),
{
    if b.len() == 0 {
        assert(a + b =~= a);
        assert(all_listed(a) + all_listed(b) =~= all_listed(a));
    } else {
        law_listing_is_piecewise(a, b.drop_last(), entry);
        assert((a + b).drop_last() =~= a + b.drop_last());
        assert((a + b).last() == b.last());
        assert(all_listed(a + b) =~= all_listed(a) + all_listed(b));
    }
    reveal_with_fuel(all_listed, 2);
    assert(seq![entry].drop_last() =~= Seq::<(String, IndexEntry)>::empty());
    assert(seq![entry].last() == entry);
    assert(all_listed(seq![entry]) =~= if is_story_entry(entry.1) {
        seq![story_of(entry.0@, entry.1)]
    } else {
        Seq::<StoryView>::empty()
    });
}

/// Every entry that is a story is listed, nothing else is, and there are as
/// many stories as entries that are stories.
pub proof fn law_every_story_is_listed(entries: Seq<(String, IndexEntry)>)
    ensures
        forall|i: int|
            0 <= i < entries.len() && is_story_entry((#[trigger] entries[i]).1) ==> all_listed(
                entries,
            ).contains(story_of(entries[i].0@, entries[i].1)),
        forall|story: StoryView| #[trigger]
            all_listed(entries).contains(story) ==> exists|i: int|
                0 <= i < entries.len() && is_story_entry((#[trigger] entries[i]).1) && story
                    == story_of(entries[i].0@, entries[i].1),
        all_listed(entries).len() == entries.filter(
            |entry: (String, IndexEntry)| is_story_entry(entry.1),
        ).len(),
    decreases entries.len(),
{
    let wanted = |entry: (String, IndexEntry)| is_story_entry(entry.1);
    reveal(Seq::filter);
    if entries.len() > 0 {
        let less = entries.drop_last();
        law_every_story_is_listed(less);
        let before = all_listed(less);
        let now = all_listed(entries);
        let last = entries[entries.len() - 1];
        law_listing_is_piecewise(less, seq![last], last);
        assert(less + seq![last] =~= entries);
        assert forall|i: int|
            0 <= i < entries.len() && is_story_entry((#[trigger] entries[i]).1) implies now.contains(
            story_of(entries[i].0@, entries[i].1),
        ) by {
            if i < less.len() {
                assert(less[i] == entries[i]);
                let k = choose|k: int|
                    0 <= k < before.len() && before[k] == story_of(entries[i].0@, entries[i].1);
                assert(now[k] == before[k]);
            } else {
                assert(now[now.len() - 1] == story_of(last.0@, last.1));
            }
        }
        assert forall|story: StoryView| #[trigger] now.contains(story) implies exists|i: int|
            0 <= i < entries.len() && is_story_entry((#[trigger] entries[i]).1) && story
                == story_of(entries[i].0@, entries[i].1) by {
            let k = choose|k: int| 0 <= k < now.len() && now[k] == story;
            if k < before.len() {
                assert(before[k] == story);
                assert(before.contains(story));
                let i = choose|i: int|
                    0 <= i < less.len() && is_story_entry((#[trigger] less[i]).1) && story
                        == story_of(less[i].0@, less[i].1);
                assert(entries[i] == less[i]);
            } else {
                assert(is_story_entry(entries[entries.len() - 1].1));
            }
        }
    }
}

/// What a decoded index comes to, from its list to the sorted result: where it
/// has `entries`, these count and its `stories` do not; where it only has
/// `stories`, they do; every entry that is a story is in the result, and the
/// result is as long as there are such entries. An index with neither list is
/// refused.
pub proof fn law_indexes_list_every_story(index: StorybookIndex, sorted: Seq<StoryView>)
    ensures
        index.entries is None && index.stories is None <==> index_outcome(Ok(index)) is Err,
        index.entries is None && index.stories is None ==> index_outcome(Ok(index)) == Err::<
            Seq<StoryView>,
            crate::render::bundle::BundleErrorView,
        >(crate::render::bundle::BundleErrorView::InvalidIndex("no `entries` or `stories` key"@)),
        ({
            let entries = if index.entries is Some {
                index.entries->0@
            } else {
                index.stories->0@
            };
            index_outcome(Ok(index)) matches Ok(listed) ==> is_sorted_list(listed, sorted)
                && entries.len() <= usize::MAX ==> {
                &&& sorted.len() == entries.filter(
                    |entry: (String, IndexEntry)| is_story_entry(entry.1),
                ).len()
                &&& forall|i: int|
                    0 <= i < entries.len() && is_story_entry((#[trigger] entries[i]).1)
                        ==> sorted.contains(story_of(entries[i].0@, entries[i].1))
            }
        }),
{
    if index_outcome(Ok(index)) is Ok {
        let entries = if index.entries is Some {
            index.entries->0@
        } else {
            index.stories->0@
        };
        let listed = all_listed(entries);
        law_every_story_is_listed(entries);
        lemma_listed_are_few(entries);
        if is_sorted_list(listed, sorted) && entries.len() <= usize::MAX {
            law_stories_are_sorted(listed, sorted);
            listed.to_multiset_ensures();
            sorted.to_multiset_ensures();
            assert forall|i: int|
                0 <= i < entries.len() && is_story_entry((#[trigger] entries[i]).1) implies sorted.contains(
                story_of(entries[i].0@, entries[i].1),
            ) by {
                let story = story_of(entries[i].0@, entries[i].1);
                assert(listed.contains(story));
                assert(listed.to_multiset().count(story) > 0);
                assert(sorted.to_multiset().count(story) > 0);
            }
        }
    }
}

proof fn lemma_listed_are_few(entries: Seq<(String, IndexEntry)>)
    ensures
        all_listed(entries).len() <= entries.len(),
    decreases entries.len(),
{
    if entries.len() > 0 {
        lemma_listed_are_few(entries.drop_last());
    }
}

/// The index is taken from a directory that has one, and no other directory
/// with one has a smaller name; there is only one such directory, and there is
/// one whenever any directory has an index.
pub proof fn law_the_first_index_is_taken(directories: Seq<Subdirectory>, found: int, other: int)
    requires
        0 <= other < directories.len(),
        directories[other].has_index || directories[other].has_stories,
        is_first_indexed(directories, found),
    ensures
        directories[found].has_index || directories[found].has_stories,
        !crate::order::less(directories[other].name@, directories[found].name@),
        is_first_indexed(directories, other) ==> found == other,
        directories[other].name@ == directories[found].name@ ==> found <= other,
{
    let a = directories[found].name@;
    let b = directories[other].name@;
    assert(is_indexed(directories[other]));
    crate::order::lemma_less_irreflexive(a);
    crate::order::lemma_less_irreflexive(b);
    if crate::order::less(b, a) && crate::order::less(a, b) {
        crate::order::lemma_less_transitive(a, b, a);
    }
}

/// The name of a story's screenshot is its title and its name with one slash
/// between them.
pub proof fn law_screenshot_names_hold_both(story: StoryView)
    ensures
        story.screenshot_name().len() == story.title.len() + 1 + story.name.len(),
        story.title.is_prefix_of(story.screenshot_name()),
        story.screenshot_name()[story.title.len() as int] == '/',
        story.name.is_suffix_of(story.screenshot_name()),
{
    reveal_strlit("/");
    let whole = story.screenshot_name();
    assert(whole.subrange(0, story.title.len() as int) =~= story.title);
    assert(whole.subrange(whole.len() - story.name.len(), whole.len() as int) =~= story.name);
}

/// The stories of a list are the stories, one by one and in order.
pub proof fn law_views_keep_every_story(stories: Seq<Story>)
    ensures
        story_views(stories).len() == stories.len(),
        forall|i: int|
            0 <= i < stories.len() ==> {
                &&& (#[trigger] story_views(stories)[i]).id == stories[i].id@
                &&& story_views(stories)[i].title == stories[i].title@
                &&& story_views(stories)[i].name == stories[i].name@
            },
        index_name() == "index.json"@,
        old_index_name() == "stories.json"@,
{
}

} // verus!
