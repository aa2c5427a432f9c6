//! JSON documents as plain values.
//!
//! `serde_json` does the parsing. A parsed document is taken apart layer by
//! layer into [`Json`], and everything that reads a document reads that type.
use vstd::prelude::*;
use vstd::string::*;

use crate::text::same_text;

verus! {

/// What a JSON document holds. A number is known by its value as a `u64`,
/// where it has one, and by how it is written; an object is the list of its
/// members.
pub enum JsonView {
    Null,
    Bool(bool),
    Number { value: Option<u64>, written: Seq<char> },
    Text(Seq<char>),
    Array(Seq<JsonView>),
    Object(Seq<(Seq<char>, JsonView)>),
}

/// A JSON document.
#[derive(Debug)]
pub enum Json {
    Null,
    Bool(bool),
    /// The value as a `u64`, which is `None` for a negative or fractional
    /// number, and how the number is written.
    Number { value: Option<u64>, written: String },
    Text(String),
    Array(Vec<Json>),
    /// The members in the order in which the parser keeps them.
    Object(Vec<(String, Json)>),
}

impl Json {
    /// The document that this value stands for.
    pub open spec fn document(self) -> JsonView
        decreases self,
    {
        match self {
            Json::Null => JsonView::Null,
            Json::Bool(b) => JsonView::Bool(b),
            Json::Number { value, written } => JsonView::Number { value, written: written@ },
            Json::Text(s) => JsonView::Text(s@),
            Json::Array(items) => JsonView::Array(
                Seq::new(
                    items@.len(),
                    |i: int|
                        if 0 <= i < items@.len() {
                            items@[i].document()
                        } else {
                            JsonView::Null
                        },
                ),
            ),
            Json::Object(members) => JsonView::Object(
                Seq::new(
                    members@.len(),
                    |i: int|
                        if 0 <= i < members@.len() {
                            (members@[i].0@, members@[i].1.document())
                        } else {
                            (Seq::empty(), JsonView::Null)
                        },
                ),
            ),
        }
    }
}

impl View for Json {
    type V = JsonView;

    open spec fn view(&self) -> JsonView {
        self.document()
    }
}

/// `serde_json::Value`, carried without looking inside.
#[verifier::external_type_specification]
#[verifier::external_body]
pub struct ExValue(serde_json::Value);

/// What a `serde_json::Value` holds.
pub uninterp spec fn json_content(value: serde_json::Value) -> JsonView;

/// What `serde_json::from_str` makes of a text: the document, or the message
/// of its error.
pub uninterp spec fn json_document(text: Seq<char>) -> Result<JsonView, Seq<char>>;

/// What a `serde_json::Value` with the given content shows with `{:?}`.
pub uninterp spec fn json_shown(content: JsonView) -> Seq<char>;

/// The outermost layer of a `serde_json::Value`.
enum Layer {
    Null,
    Bool(bool),
    Number { value: Option<u64>, written: String },
    Text(String),
    Array(Vec<serde_json::Value>),
    Object(Vec<(String, serde_json::Value)>),
}

/// What each item of an array holds.
spec fn contents(items: Seq<serde_json::Value>) -> Seq<JsonView> {
    items.map_values(|v: serde_json::Value| json_content(v))
}

/// What each member of an object holds, with its key.
spec fn member_contents(members: Seq<(String, serde_json::Value)>) -> Seq<(Seq<char>, JsonView)> {
    members.map_values(|m: (String, serde_json::Value)| (m.0@, json_content(m.1)))
}

/// `layer` is the outermost layer of `content`.
spec fn outermost(content: JsonView, layer: Layer) -> bool {
    match layer {
        Layer::Null => content == JsonView::Null,
        Layer::Bool(b) => content == JsonView::Bool(b),
        Layer::Number { value, written } => content == (JsonView::Number {
            value,
            written: written@,
        }),
        Layer::Text(s) => content == JsonView::Text(s@),
        Layer::Array(items) => content == JsonView::Array(contents(items@)),
        Layer::Object(members) => content == JsonView::Object(member_contents(members@)),
    }
}

/// Parses `text` with `serde_json::from_str`. The contract says that the
/// outcome is a function of the text alone: the content of the value, or the
/// text that the error displays.
#[verifier::external_body]
fn read_document(text: &str) -> (outcome: Result<serde_json::Value, String>)
    ensures
        match outcome {
            Ok(value) => json_document(text@) == Ok::<JsonView, Seq<char>>(json_content(value)),
            Err(message) => json_document(text@) == Err::<JsonView, Seq<char>>(message@),
        },
{
    serde_json::from_str::<serde_json::Value>(text).map_err(|e| e.to_string())
}

/// Takes the variants of `serde_json::Value` apart. The contract says that
/// nothing is lost or reordered: each variant carries on what it holds, a
/// number through `Number::as_u64` and its `Display` impl.
#[verifier::external_body]
fn peel(value: serde_json::Value) -> (layer: Layer)
    ensures
        outermost(json_content(value), layer),
{
    match value {
        serde_json::Value::Null => Layer::Null,
        serde_json::Value::Bool(b) => Layer::Bool(b),
        serde_json::Value::Number(n) => Layer::Number {
            value: n.as_u64(),
            written: n.to_string(),
        },
        serde_json::Value::String(s) => Layer::Text(s),
        serde_json::Value::Array(items) => Layer::Array(items),
        serde_json::Value::Object(members) => Layer::Object(members.into_iter().collect()),
    }
}

/// Formats a `serde_json::Value` with `{:?}`, that is, by the `Debug` impl of
/// `serde_json`, which writes the variants and what they hold. The contract
/// says that the text is a function of the content.
#[verifier::external_body]
pub(crate) fn show_value(value: &serde_json::Value) -> (text: String)
    ensures
        text@ == json_shown(json_content(*value)),
{
    format!("{:?}", value)
}

/// `serde_json::Value::as_str`: the text of a value that is one. The contract
/// says that the text is the one that the value holds, and that every other
/// value gives none.
#[verifier::external_body]
pub(crate) fn value_text(value: &serde_json::Value) -> (text: Option<String>)
    ensures
        match text {
            Some(held) => json_content(*value) == JsonView::Text(held@),
            None => !(json_content(*value) is Text),
        },
{
    value.as_str().map(|held| held.to_string())
}

/// Turns a `serde_json::Value` into the document that it holds.
pub fn from_value(value: serde_json::Value) -> (json: Json)
    ensures
        json@ == json_content(value),
    decreases json_content(value),
{
    let ghost content = json_content(value);
    let layer = peel(value);
    match layer {
        Layer::Null => Json::Null,
        Layer::Bool(b) => Json::Bool(b),
        Layer::Number { value, written } => Json::Number { value, written },
        Layer::Text(s) => Json::Text(s),
        Layer::Array(items) => {
            assert(decreases_to!(content => content->Array_0));
            let all = from_items(items);
            let ghost built = Json::Array(all).document()->Array_0;
            assert forall|i: int| 0 <= i < all@.len() implies built[i] == contents(items@)[i] by {
                assert(all@[i]@ == json_content(items@[i]));
                assert(built[i] == all@[i].document());
            }
            assert(built =~= contents(items@));
            Json::Array(all)
        },
        Layer::Object(members) => {
            assert(decreases_to!(content => content->Object_0));
            let all = from_members(members);
            assert forall|i: int| 0 <= i < all@.len() implies (
                #[trigger] all@[i].0@,
                all@[i].1.document(),
            ) == member_contents(members@)[i] by {
                assert(all@[i].1@ == json_content(members@[i].1));
            }
            assert(Json::Object(all).document()->Object_0 =~= member_contents(members@));
            Json::Object(all)
        },
    }
}

/// Turns each item of an array into a document.
fn from_items(items: Vec<serde_json::Value>) -> (all: Vec<Json>)
    ensures
        all@.len() == items@.len(),
        forall|i: int| 0 <= i < all@.len() ==> #[trigger] all@[i]@ == json_content(items@[i]),
    decreases contents(items@),
{
    let ghost held = contents(items@);
    let mut all: Vec<Json> = Vec::new();
    for item in it: items
        invariant
            it.seq() == items@,
            held == contents(items@),
            all@.len() == it.index(),
            forall|i: int| 0 <= i < all@.len() ==> #[trigger] all@[i]@ == json_content(items@[i]),
    {
        assert(held[it.index()] == json_content(item));
        all.push(from_value(item));
    }
    all
}

/// Turns each member of an object into a named document.
fn from_members(members: Vec<(String, serde_json::Value)>) -> (all: Vec<(String, Json)>)
    ensures
        all@.len() == members@.len(),
        forall|i: int|
            0 <= i < all@.len() ==> (#[trigger] all@[i]).0@ == members@[i].0@ && all@[i].1@
                == json_content(members@[i].1),
    decreases member_contents(members@),
{
    let ghost held = member_contents(members@);
    let mut all: Vec<(String, Json)> = Vec::new();
    for member in it: members
        invariant
            it.seq() == members@,
            held == member_contents(members@),
            all@.len() == it.index(),
            forall|i: int|
                0 <= i < all@.len() ==> (#[trigger] all@[i]).0@ == members@[i].0@ && all@[i].1@
                    == json_content(members@[i].1),
    {
        let (key, value) = member;
        assert(held[it.index()] == (key@, json_content(value)));
        assert(decreases_to!(held => held[it.index()]));
        assert(decreases_to!(held[it.index()] => held[it.index()].1));
        all.push((key, from_value(value)));
    }
    all
}

/// Parses a JSON text.
pub fn parse_json(text: &str) -> (outcome: Result<Json, String>)
    ensures
        match outcome {
            Ok(json) => json_document(text@) == Ok::<JsonView, Seq<char>>(json@),
            Err(message) => json_document(text@) == Err::<JsonView, Seq<char>>(message@),
        },
{
    match read_document(text) {
        Ok(value) => Ok(from_value(value)),
        Err(message) => Err(message),
    }
}

// ── reading a document ──────────────────────────────────────────────────

/// The member named `key`, if there is one.
pub open spec fn lookup(members: Seq<(Seq<char>, JsonView)>, key: Seq<char>) -> Option<JsonView>
    decreases members.len(),
{
    if members.len() == 0 {
        None
    } else if members[0].0 == key {
        Some(members[0].1)
    } else {
        lookup(members.drop_first(), key)
    }
}

/// The texts among `items`, in order.
pub open spec fn texts(items: Seq<JsonView>) -> Seq<Seq<char>>
    decreases items.len(),
{
    if items.len() == 0 {
        Seq::empty()
    } else {
        let before = texts(items.drop_last());
        match items.last() {
            JsonView::Text(text) => before.push(text),
            _ => before,
        }
    }
}

impl JsonView {
    /// The member named `key` of an object.
    pub open spec fn member(self, key: Seq<char>) -> Option<JsonView> {
        match self {
            JsonView::Object(members) => lookup(members, key),
            _ => None,
        }
    }

    /// The member named `key`, if it is a boolean.
    pub open spec fn bool_at(self, key: Seq<char>) -> Option<bool> {
        match self.member(key) {
            Some(JsonView::Bool(b)) => Some(b),
            _ => None,
        }
    }

    /// The member named `key`, if it is a text.
    pub open spec fn text_at(self, key: Seq<char>) -> Option<Seq<char>> {
        match self.member(key) {
            Some(JsonView::Text(text)) => Some(text),
            _ => None,
        }
    }

    /// The member named `key`, if it is a number with a value as a `u64`.
    pub open spec fn number_at(self, key: Seq<char>) -> Option<u64> {
        match self.member(key) {
            Some(JsonView::Number { value, written }) => value,
            _ => None,
        }
    }

    /// The member named `key`, if it is an array.
    pub open spec fn items_at(self, key: Seq<char>) -> Option<Seq<JsonView>> {
        match self.member(key) {
            Some(JsonView::Array(items)) => Some(items),
            _ => None,
        }
    }
}

impl Json {
    /// The member named `key` of an object.
    pub fn member(&self, key: &str) -> (found: Option<&Json>)
        ensures
            match found {
                Some(json) => self@.member(key@) == Some(json@),
                None => self@.member(key@) is None,
            },
    {
        reveal_with_fuel(Json::document, 2);
        match self {
            Json::Object(members) => {
                let ghost all = self@->Object_0;
                let mut i: usize = 0;
                assert(all.skip(0) =~= all);
                while i < members.len()
                    invariant
                        i <= members.len(),
                        self@ == JsonView::Object(all),
                        all.len() == members@.len(),
                        forall|k: int|
                            0 <= k < all.len() ==> #[trigger] all[k] == (
                                members@[k].0@,
                                members@[k].1@,
                            ),
                        lookup(all, key@) == lookup(all.skip(i as int), key@),
                    decreases members.len() - i,
                {
                    let rest = &members[i];
                    assert(all.skip(i as int)[0] == all[i as int]);
                    assert(all.skip(i as int).drop_first() =~= all.skip(i + 1));
                    if same_text(rest.0.as_str(), key) {
                        return Some(&rest.1);
                    }
                    i += 1;
                }
                None
            },
            _ => None,
        }
    }

    /// The member named `key`, if it is a boolean.
    pub fn bool_at(&self, key: &str) -> (found: Option<bool>)
        ensures
            found == self@.bool_at(key@),
    {
        match self.member(key) {
            Some(Json::Bool(b)) => Some(*b),
            _ => None,
        }
    }

    /// The member named `key`, if it is a text.
    pub fn text_at(&self, key: &str) -> (found: Option<&String>)
        ensures
            match found {
                Some(text) => self@.text_at(key@) == Some(text@),
                None => self@.text_at(key@) is None,
            },
    {
        match self.member(key) {
            Some(Json::Text(text)) => Some(text),
            _ => None,
        }
    }

    /// The member named `key`, if it is a number with a value as a `u64`.
    pub fn number_at(&self, key: &str) -> (found: Option<u64>)
        ensures
            found == self@.number_at(key@),
    {
        match self.member(key) {
            Some(Json::Number { value, written: _ }) => *value,
            _ => None,
        }
    }

    /// The texts in the array named `key` and the length of that array.
    pub fn texts_at(&self, key: &str) -> (found: Option<(Vec<String>, usize)>)
        ensures
            match found {
                Some((list, count)) => {
                    &&& self@.items_at(key@) matches Some(items)
                    &&& crate::text::views(list@) == texts(items)
                    &&& count == items.len()
                },
                None => self@.items_at(key@) is None,
            },
    {
        match self.member(key) {
            Some(json) => match json {
                Json::Array(items) => {
                    reveal_with_fuel(Json::document, 2);
                    let ghost all = json@->Array_0;
                    let mut list: Vec<String> = Vec::new();
                    let mut i: usize = 0;
                    assert(crate::text::views(list@) =~= texts(all.take(0)));
                    while i < items.len()
                        invariant
                            i <= items.len(),
                            all.len() == items@.len(),
                            forall|k: int| 0 <= k < all.len() ==> #[trigger] all[k] == items@[k]@,
                            crate::text::views(list@) == texts(all.take(i as int)),
                        decreases items.len() - i,
                    {
                        let ghost before = list@;
                        if let Json::Text(text) = &items[i] {
                            list.push(text.clone());
                            assert(crate::text::views(list@) =~= crate::text::views(before).push(text@));
                        }
                        i += 1;
                        assert(all.take(i as int).drop_last() =~= all.take(i - 1));
                        assert(all.take(i as int).last() == items@[i - 1]@);
                    }
                    assert(all.take(items@.len() as int) =~= all);
                    Some((list, items.len()))
                },
                _ => None,
            },
            None => None,
        }
    }
}

// ── what holds of documents ─────────────────────────────────────────────

/// A member is found under its key, however many members stand before it, if
/// none of these has the same key; and nothing is found under a key that no
/// member has.
pub proof fn law_members_are_found(members: Seq<(Seq<char>, JsonView)>, key: Seq<char>, at: int)
    requires
        0 <= at <= members.len(),
        forall|i: int| 0 <= i < at ==> (#[trigger] members[i]).0 != key,
    ensures
        at < members.len() && members[at].0 == key ==> lookup(members, key) == Some(members[at].1),
        at == members.len() ==> lookup(members, key) is None,
        at < members.len() && members[at].0 == key ==> JsonView::Object(members).member(key) == Some(
            members[at].1,
        ),
        at == members.len() ==> JsonView::Object(members).member(key) is None,
    decreases at,
{
    if at > 0 {
        let rest = members.drop_first();
        assert(members[0].0 != key);
        assert forall|i: int| 0 <= i < at - 1 implies (#[trigger] rest[i]).0 != key by {
            assert(rest[i] == members[i + 1]);
        }
        law_members_are_found(rest, key, at - 1);
        if at < members.len() {
            assert(rest[at - 1] == members[at]);
        }
    }
}

/// A member is read only as what it is.
pub proof fn law_members_are_read_as_they_are(document: JsonView, key: Seq<char>)
    ensures
        forall|b: bool|
            document.bool_at(key) == Some(b) <==> document.member(key) == Some(JsonView::Bool(b)),
        forall|text: Seq<char>|
            document.text_at(key) == Some(text) <==> document.member(key) == Some(
                JsonView::Text(text),
            ),
        forall|items: Seq<JsonView>|
            document.items_at(key) == Some(items) <==> document.member(key) == Some(
                JsonView::Array(items),
            ),
        forall|n: u64|
            document.number_at(key) == Some(n) <==> (document.member(key) matches Some(
                JsonView::Number { value, written },
            ) && value == Some(n)),
        !(document is Object) ==> document.member(key) is None,
{
}

/// The texts of an array are those of its first part and those of the rest,
/// wherever it is parted; an item gives its text, or nothing if it is none.
pub proof fn law_texts_are_piecewise(a: Seq<JsonView>, b: Seq<JsonView>, item: JsonView)
    ensures
        texts(a + b) == texts(a) + texts(b),
        texts(seq![item]) == match item {
            JsonView::Text(text) => seq![text],
            _ => Seq::<Seq<char>>::empty(),
        },
    decreases b.len(),
{
    if b.len() == 0 {
        assert(a + b =~= a);
        assert(texts(a) + texts(b) =~= texts(a));
    } else {
        law_texts_are_piecewise(a, b.drop_last(), item);
        assert((a + b).drop_last() =~= a + b.drop_last());
        assert((a + b).last() == b.last());
        assert(texts(a + b) =~= texts(a) + texts(b));
    }
    reveal_with_fuel(texts, 2);
    assert(seq![item].drop_last() =~= Seq::<JsonView>::empty());
    assert(seq![item].last() == item);
    if let JsonView::Text(text) = item {
        assert(texts(seq![item]) =~= seq![text]);
    }
}

} // verus!
