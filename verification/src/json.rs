//! JSON values as the library reads and writes them.
use crate::codec::Fraction;
use crate::entries::{entries_map, lemma_entries_map_contains, lemma_entries_map_get};
use crate::text::same_text;
use vstd::prelude::*;

verus! {

/// A JSON value.
///
/// An object lists its entries; where a key is listed more than once the last entry counts.
#[derive(Debug)]
pub enum Json {
    Null,
    Bool(bool),
    Unsigned(u64),
    Signed(i64),
    /// A number that is not held as an integer.
    Fraction(Fraction),
    Text(String),
    Array(Vec<Json>),
    Object(Vec<(String, Json)>),
}

/// The mathematical model of a JSON value: an object is a finite map from keys to values.
#[verifier::ext_equal]
pub enum JsonView {
    Null,
    Bool(bool),
    Integer(int),
    Fraction(Fraction),
    Text(Seq<char>),
    Array(Seq<JsonView>),
    Object(Map<Seq<char>, JsonView>),
}

/// The model of `json`.
pub open spec fn json_view(json: Json) -> JsonView
    decreases json,
{
    match json {
        Json::Null => JsonView::Null,
        Json::Bool(b) => JsonView::Bool(b),
        Json::Unsigned(n) => JsonView::Integer(n as int),
        Json::Signed(n) => JsonView::Integer(n as int),
        Json::Fraction(n) => JsonView::Fraction(n),
        Json::Text(s) => JsonView::Text(s@),
        Json::Array(items) => JsonView::Array(item_views(items@)),
        Json::Object(entries) => JsonView::Object(entries_map(entry_views(entries@))),
    }
}

/// The models of the items of an array.
pub open spec fn item_views(items: Seq<Json>) -> Seq<JsonView>
    decreases items,
{
    Seq::new(
        items.len(),
        |i: int|
            if 0 <= i < items.len() {
                json_view(items[i])
            } else {
                JsonView::Null
            },
    )
}

/// The keys of an object's entries, each with the model of its value.
pub open spec fn entry_views(entries: Seq<(String, Json)>) -> Seq<(Seq<char>, JsonView)>
    decreases entries,
{
    Seq::new(
        entries.len(),
        |i: int|
            if 0 <= i < entries.len() {
                (entries[i].0@, json_view(entries[i].1))
            } else {
                (Seq::empty(), JsonView::Null)
            },
    )
}

impl View for Json {
    type V = JsonView;

    open spec fn view(&self) -> JsonView {
        json_view(*self)
    }
}

impl JsonView {
    /// What an object holds under `key`; nothing for a value that is not an object.
    pub open spec fn get(self, key: Seq<char>) -> Option<JsonView> {
        match self {
            JsonView::Object(map) => if map.contains_key(key) {
                Some(map[key])
            } else {
                None
            },
            _ => None,
        }
    }

    /// The characters of a text; nothing for a value that is not a text.
    pub open spec fn as_str(self) -> Option<Seq<char>> {
        match self {
            JsonView::Text(text) => Some(text),
            _ => None,
        }
    }

    /// The text that an object holds under `key`, if it holds one.
    pub open spec fn text_at(self, key: Seq<char>) -> Option<Seq<char>> {
        match self.get(key) {
            Some(value) => value.as_str(),
            None => None,
        }
    }
}

/// The models of two optional values agree.
pub open spec fn same_option<T: View>(value: Option<T>, model: Option<T::V>) -> bool {
    match value {
        Some(value) => model == Some(value@),
        None => model is None,
    }
}

/// Where the entry that counts for `key` stands, if there is one.
fn position_of(entries: &Vec<(String, Json)>, key: &str) -> (found: Option<usize>)
    ensures
        match found {
            Some(at) => {
                &&& at < entries@.len()
                &&& entries_map(entry_views(entries@)).contains_key(key@)
                &&& entries_map(entry_views(entries@))[key@] == entries@[at as int].1@
            },
            None => !entries_map(entry_views(entries@)).contains_key(key@),
        },
{
    let ghost views = entry_views(entries@);
    let mut end: usize = entries.len();
    while end > 0
        invariant
            end <= entries@.len(),
            views == entry_views(entries@),
            forall|j: int| end <= j < views.len() ==> (#[trigger] views[j]).0 != key@,
        decreases end,
    {
        end = end - 1;
        if same_text(entries[end].0.as_str(), key) {
            proof {
                assert(views[end as int].0 == key@);
                lemma_entries_map_get(views, end as int);
            }
            return Some(end);
        }
        assert(views[end as int].0 != key@);
    }
    proof {
        lemma_entries_map_contains(views, key@);
    }
    None
}

impl Json {
    /// What an object holds under `key`; nothing for a value that is not an object.
    pub fn get(&self, key: &str) -> (found: Option<&Json>)
        ensures
            same_option(found, self@.get(key@)),
    {
        match self {
            Json::Object(entries) => match position_of(entries, key) {
                Some(at) => Some(&entries[at].1),
                None => None,
            },
            _ => None,
        }
    }

    /// Takes out of an object what it holds under `key`.
    pub fn take(self, key: &str) -> (found: Option<Json>)
        ensures
            same_option(found, self@.get(key@)),
    {
        match self {
            Json::Object(entries) => match position_of(&entries, key) {
                Some(at) => {
                    let mut entries = entries;
                    Some(entries.swap_remove(at).1)
                },
                None => None,
            },
            _ => None,
        }
    }

    /// The characters of a text; nothing for a value that is not a text.
    pub fn as_str(&self) -> (text: Option<&str>)
        ensures
            same_option(text, self@.as_str()),
    {
        match self {
            Json::Text(text) => Some(text.as_str()),
            _ => None,
        }
    }

    /// The text that an object holds under `key`, if it holds one.
    pub fn text_at(&self, key: &str) -> (text: Option<&str>)
        ensures
            same_option(text, self@.text_at(key@)),
    {
        match self.get(key) {
            Some(value) => value.as_str(),
            None => None,
        }
    }

    /// Whether an object holds exactly the text `expected` under `key`.
    pub fn has_text(&self, key: &str, expected: &str) -> (holds: bool)
        ensures
            holds == (self@.text_at(key@) == Some(expected@)),
    {
        match self.text_at(key) {
            Some(text) => same_text(text, expected),
            None => false,
        }
    }
}

} // verus!
