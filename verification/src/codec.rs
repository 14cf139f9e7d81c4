//! JSON text: reading it and writing it.
use crate::entries::{
    entries_map, lemma_entries_map_contains, lemma_entries_map_finite, lemma_entries_map_get,
};
use crate::json::{entry_views, item_views, json_view, Json, JsonView};
use serde_json::{Number, Value};
use vstd::prelude::*;
use vstd::string::StringExecFns;

verus! {

/// The type `serde_json::Number`. The library only carries such numbers from place to place; it
/// holds integers as what they are.
#[verifier::external_type_specification]
#[verifier::external_body]
pub struct ExNumber(serde_json::Number);

/// The type `serde_json::Value`. What such a value holds is named by [`value_tree`].
#[verifier::external_type_specification]
#[verifier::external_body]
pub struct ExValue(serde_json::Value);

/// A number that is not held as an integer. Only [`open_value`] makes one, of a number that is
/// neither a `u64` nor an `i64`, and [`copy_fraction`] copies it: no other code can reach the
/// number.
#[derive(Debug)]
pub struct Fraction {
    number: Number,
}

/// One layer of a `serde_json::Value`: its variant, with the values inside it still unopened.
pub enum Node {
    Null,
    Bool(bool),
    Unsigned(u64),
    Signed(i64),
    Fraction(Fraction),
    Text(String),
    Array(Vec<Value>),
    Object(Vec<(String, Value)>),
}

/// The JSON value that a `serde_json::Value` holds.
pub uninterp spec fn value_tree(value: Value) -> JsonView;

/// The JSON value that a layer stands for.
pub open spec fn node_view(node: Node) -> JsonView {
    match node {
        Node::Null => JsonView::Null,
        Node::Bool(b) => JsonView::Bool(b),
        Node::Unsigned(n) => JsonView::Integer(n as int),
        Node::Signed(n) => JsonView::Integer(n as int),
        Node::Fraction(n) => JsonView::Fraction(n),
        Node::Text(s) => JsonView::Text(s@),
        Node::Array(items) => JsonView::Array(
            Seq::new(items@.len(), |i: int| value_tree(items@[i])),
        ),
        Node::Object(entries) => JsonView::Object(
            entries_map(
                Seq::new(entries@.len(), |i: int| (entries@[i].0@, value_tree(entries@[i].1))),
            ),
        ),
    }
}

/// No two entries have the same key.
pub open spec fn distinct_keys(entries: Seq<(String, Value)>) -> bool {
    forall|i: int, j: int|
        0 <= i < j < entries.len() ==> (#[trigger] entries[i]).0@ != (#[trigger] entries[j]).0@
}

/// Takes a `serde_json::Value` apart, one arm for each variant. `serde_json::Number::as_u64` and
/// `serde_json::Number::as_i64` tell the three kinds of number apart. The entries of an object
/// come from `serde_json::Map::into_iter`.
///
/// The contract claims that the layer holds what the value holds, and that no key of an object
/// comes twice.
#[verifier::external_body]
fn open_value(value: Value) -> (node: Node)
    ensures
        node_view(node) == value_tree(value),
        node matches Node::Object(entries) ==> distinct_keys(entries@),
{
    match value {
        Value::Null => Node::Null,
        Value::Bool(b) => Node::Bool(b),
        Value::Number(n) => match (n.as_u64(), n.as_i64()) {
            (Some(unsigned), _) => Node::Unsigned(unsigned),
            (None, Some(signed)) => Node::Signed(signed),
            (None, None) => Node::Fraction(Fraction { number: n }),
        },
        Value::String(s) => Node::Text(s),
        Value::Array(items) => Node::Array(items),
        Value::Object(map) => Node::Object(map.into_iter().collect()),
    }
}

/// The value read from `value`.
fn json_from_value(value: Value) -> (json: Json)
    ensures
        json@ == value_tree(value),
    decreases value_tree(value),
{
    match open_value(value) {
        Node::Null => Json::Null,
        Node::Bool(b) => Json::Bool(b),
        Node::Unsigned(n) => Json::Unsigned(n),
        Node::Signed(n) => Json::Signed(n),
        Node::Fraction(n) => Json::Fraction(n),
        Node::Text(s) => Json::Text(s),
        Node::Array(items) => {
            let ghost tree = value_tree(value);
            let ghost inner = items@;
            let mut read: Vec<Json> = Vec::new();
            for item in iter: items
                invariant
                    iter.seq() == inner,
                    tree == value_tree(value),
                    tree == JsonView::Array(Seq::new(inner.len(), |i: int| value_tree(inner[i]))),
                    read@.len() == iter.index(),
                    forall|i: int|
                        0 <= i < read@.len() ==> json_view(#[trigger] read@[i]) == value_tree(
                            inner[i],
                        ),
            {
                assert(tree->Array_0[iter.index() as int] == value_tree(item));
                assert(decreases_to!(tree => tree->Array_0));
                read.push(json_from_value(item));
            }
            assert(item_views(read@) =~= tree->Array_0);
            Json::Array(read)
        },
        Node::Object(entries) => {
            let ghost tree = value_tree(value);
            let ghost inner = entries@;
            let ghost listed = Seq::new(
                inner.len(),
                |i: int| (inner[i].0@, value_tree(inner[i].1)),
            );
            let mut read: Vec<(String, Json)> = Vec::new();
            for entry in iter: entries
                invariant
                    iter.seq() == inner,
                    distinct_keys(inner),
                    listed == Seq::new(inner.len(), |i: int| (inner[i].0@, value_tree(inner[i].1))),
                    tree == value_tree(value),
                    tree == JsonView::Object(entries_map(listed)),
                    read@.len() == iter.index(),
                    forall|i: int|
                        0 <= i < read@.len() ==> (#[trigger] read@[i]).0@ == inner[i].0@
                            && json_view(read@[i].1) == value_tree(inner[i].1),
            {
                let (key, item) = entry;
                proof {
                    let at = iter.index() as int;
                    assert(inner[at] == (key, item));
                    assert forall|j: int| at < j < listed.len() implies (#[trigger] listed[j]).0
                        != listed[at].0 by {
                        assert(inner[at].0@ != inner[j].0@);
                    }
                    lemma_entries_map_get(listed, at);
                    lemma_entries_map_finite(listed);
                    let map = tree->Object_0;
                    assert(map[listed[at].0] == value_tree(item));
                    assert(decreases_to!(tree => map));
                    assert(decreases_to!(map => map[listed[at].0]));
                }
                read.push((key, json_from_value(item)));
            }
            assert(entry_views(read@) =~= listed);
            Json::Object(read)
        },
    }
}

/// Puts a `serde_json::Value` together, one arm for each variant. An integer becomes a number by
/// `serde_json::Number::from`, which holds equal integers alike. An object's map is made by
/// `serde_json::Map::from_iter`, which is left to keep any one of several entries with one key:
/// so no key may come twice. A fraction's number holds no integer, because only such numbers become
/// fractions.
///
/// The contract claims that the value holds what the layer holds.
#[verifier::external_body]
fn close_value(node: Node) -> (value: Value)
    requires
        node matches Node::Object(entries) ==> distinct_keys(entries@),
    ensures
        value_tree(value) == node_view(node),
{
    match node {
        Node::Null => Value::Null,
        Node::Bool(b) => Value::Bool(b),
        Node::Unsigned(n) => Value::Number(Number::from(n)),
        Node::Signed(n) => Value::Number(Number::from(n)),
        Node::Fraction(n) => Value::Number(n.number),
        Node::Text(s) => Value::String(s),
        Node::Array(items) => Value::Array(items),
        Node::Object(entries) => Value::Object(entries.into_iter().collect()),
    }
}

/// The keys of a layer's entries, each with the JSON value of its entry.
spec fn listed(entries: Seq<(String, Value)>) -> Seq<(Seq<char>, JsonView)> {
    Seq::new(entries.len(), |i: int| (entries[i].0@, value_tree(entries[i].1)))
}

/// Whether `entries` has an entry for `key`.
fn lists_key(entries: &Vec<(String, Value)>, key: &String) -> (found: bool)
    ensures
        found == exists|i: int| 0 <= i < entries@.len() && (#[trigger] entries@[i]).0@ == key@,
{
    for at in 0..entries.len()
        invariant
            forall|i: int| 0 <= i < at ==> (#[trigger] entries@[i]).0@ != key@,
    {
        if entries[at].0 == *key {
            assert(entries@[at as int].0@ == key@);
            return true;
        }
    }
    false
}

/// The `serde_json::Value` that holds `json`.
fn json_into_value(json: Json) -> (value: Value)
    ensures
        value_tree(value) == json@,
    decreases json,
{
    match json {
        Json::Null => close_value(Node::Null),
        Json::Bool(b) => close_value(Node::Bool(b)),
        Json::Unsigned(n) => close_value(Node::Unsigned(n)),
        Json::Signed(n) => close_value(Node::Signed(n)),
        Json::Fraction(n) => close_value(Node::Fraction(n)),
        Json::Text(s) => close_value(Node::Text(s)),
        Json::Array(items) => {
            let ghost inner = items@;
            let mut made: Vec<Value> = Vec::new();
            for item in iter: items
                invariant
                    iter.seq() == inner,
                    json matches Json::Array(all) && all@ == inner,
                    made@.len() == iter.index(),
                    forall|i: int|
                        0 <= i < made@.len() ==> value_tree(#[trigger] made@[i]) == json_view(
                            inner[i],
                        ),
            {
                assert(item == inner[iter.index() as int]);
                assert(decreases_to!(json => json->Array_0));
                made.push(json_into_value(item));
            }
            let node = Node::Array(made);
            assert(node_view(node)->Array_0 =~= item_views(inner));
            close_value(node)
        },
        Json::Object(entries) => {
            let ghost inner = entries@;
            let mut rest = entries;
            let mut made: Vec<(String, Value)> = Vec::new();
            while rest.len() > 0
                invariant
                    json matches Json::Object(all) && all@ == inner,
                    rest@.len() <= inner.len(),
                    rest@ == inner.take(rest@.len() as int),
                    distinct_keys(made@),
                    entries_map(entry_views(inner)) == entries_map(
                        entry_views(rest@),
                    ).union_prefer_right(entries_map(listed(made@))),
                decreases rest@.len(),
            {
                let ghost before = rest@;
                let ghost kept = made@;
                match rest.pop() {
                    Some((key, item)) => {
                        proof {
                            assert(before.last() == (key, item));
                            assert(inner[before.len() - 1] == (key, item));
                            assert(entry_views(before).drop_last() =~= entry_views(rest@));
                            lemma_entries_map_contains(listed(kept), key@);
                            assert(decreases_to!(json => json->Object_0));
                            assert(decreases_to!(inner => inner[before.len() - 1]));
                        }
                        if !lists_key(&made, &key) {
                            let ghost name = key@;
                            made.push((key, json_into_value(item)));
                            assert(listed(made@).drop_last() =~= listed(kept));
                            assert(!exists|i: int|
                                0 <= i < listed(kept).len() && (#[trigger] listed(kept)[i]).0
                                    == name) by {
                                assert forall|i: int| 0 <= i < listed(kept).len() implies (
                                #[trigger] listed(kept)[i]).0 != name by {
                                    assert(kept[i].0@ != name);
                                }
                            }
                            assert(entries_map(listed(made@)) == entries_map(listed(kept)).insert(
                                name,
                                json_view(item),
                            ));
                        } else {
                            proof {
                                let i = choose|i: int|
                                    0 <= i < kept.len() && (#[trigger] kept[i]).0@ == key@;
                                assert(listed(kept)[i].0 == key@);
                            }
                        }
                        assert(entries_map(entry_views(before)).union_prefer_right(
                            entries_map(listed(kept)),
                        ) =~= entries_map(entry_views(rest@)).union_prefer_right(
                            entries_map(listed(made@)),
                        ));
                    },
                    None => {},
                }
            }
            let node = Node::Object(made);
            assert(entries_map(entry_views(rest@)).union_prefer_right(entries_map(listed(made@)))
                =~= entries_map(listed(made@)));
            assert(node_view(node)->Object_0 == entries_map(listed(made@)));
            close_value(node)
        },
    }
}

/// The JSON value that a text holds, or the reader's sentence on why the text is not JSON.
pub uninterp spec fn parsed_json(text: Seq<char>) -> Result<JsonView, Seq<char>>;

/// `text` is read as `json`.
pub open spec fn reads_as(text: Seq<char>, json: JsonView) -> bool {
    parsed_json(text) == Ok::<JsonView, Seq<char>>(json)
}

/// `text` is not JSON, for the reason that `sentence` gives.
pub open spec fn is_refused(text: Seq<char>, sentence: Seq<char>) -> bool {
    parsed_json(text) == Err::<JsonView, Seq<char>>(sentence)
}

/// Calls `serde_json::from_str` for a `serde_json::Value`. The error is handed on as its text, by
/// `to_string` of `serde_json::Error`.
///
/// The contract names what the call reads: the text alone decides whether it is JSON, which value
/// it holds, and what is said where it holds none.
#[verifier::external_body]
fn parse_value(text: &str) -> (result: Result<Value, String>)
    ensures
        match result {
            Ok(value) => parsed_json(text@) == Ok::<JsonView, Seq<char>>(value_tree(value)),
            Err(sentence) => parsed_json(text@) == Err::<JsonView, Seq<char>>(sentence@),
        },
{
    match serde_json::from_str(text) {
        Ok(value) => Ok(value),
        Err(error) => Err(error.to_string()),
    }
}

/// Reads a JSON text, or says why it is none.
pub fn parse_json(text: &str) -> (result: Result<Json, String>)
    ensures
        match result {
            Ok(json) => reads_as(text@, json@),
            Err(sentence) => is_refused(text@, sentence@),
        },
{
    match parse_value(text) {
        Ok(value) => Ok(json_from_value(value)),
        Err(sentence) => Err(sentence),
    }
}

/// The compact text of a JSON value.
pub uninterp spec fn json_text(json: JsonView) -> Seq<char>;

/// How deeply the arrays and objects of a text may be nested for it to be read.
pub const READABLE_DEPTH: usize = 127;

/// `json` holds no number but integers, and its arrays and objects are nested at most `depth`
/// deep.
pub open spec fn plain_within(json: JsonView, depth: nat) -> bool
    decreases depth,
{
    match json {
        JsonView::Null | JsonView::Bool(_) | JsonView::Integer(_) | JsonView::Text(_) => true,
        JsonView::Fraction(_) => false,
        JsonView::Array(items) => {
            &&& depth > 0
            &&& forall|i: int|
                0 <= i < items.len() ==> plain_within(#[trigger] items[i], (depth - 1) as nat)
        },
        JsonView::Object(map) => {
            &&& depth > 0
            &&& forall|key: Seq<char>| #[trigger]
                map.contains_key(key) ==> plain_within(map[key], (depth - 1) as nat)
        },
    }
}

/// Calls `to_string` of `serde_json::Value`, whose `Display` is `serde_json::to_writer`.
///
/// The contract names the text, which what the value holds decides: the map of an object is a
/// `BTreeMap`, so its entries are written in the order of their keys. It claims that the text is a
/// single line, because control characters are escaped and no white space is written, and that
/// the text is read back as the same value if that value holds no number but integers and is not
/// nested too deeply for the reader.
#[verifier::external_body]
fn value_text(value: Value) -> (text: String)
    ensures
        text@ == json_text(value_tree(value)),
        !text@.contains('\n'),
        plain_within(value_tree(value), READABLE_DEPTH as nat) ==> reads_as(
            text@,
            value_tree(value),
        ),
{
    value.to_string()
}

/// Writes a JSON value as compact text, on a single line.
///
/// The text is read back as the same value if that value holds no number but integers and is not
/// nested too deeply.
pub fn write_json(json: Json) -> (text: String)
    ensures
        text@ == json_text(json@),
        !text@.contains('\n'),
        plain_within(json@, READABLE_DEPTH as nat) ==> reads_as(text@, json@),
{
    value_text(json_into_value(json))
}

/// Calls `clone` of `serde_json::Number` on the number of a fraction.
///
/// The contract claims that the copy is the same number.
#[verifier::external_body]
fn copy_fraction(fraction: &Fraction) -> (copy: Fraction)
    ensures
        copy == *fraction,
{
    Fraction { number: fraction.number.clone() }
}

/// What a text looks like between quotation marks, with its special characters escaped.
pub uninterp spec fn quoted_text(text: Seq<char>) -> Seq<char>;

/// Formats a `str` by its `Debug` of the standard library.
///
/// The contract names the result, which the text alone decides.
#[verifier::external_body]
fn quote(text: &str) -> (quoted: String)
    ensures
        quoted@ == quoted_text(text@),
{
    format!("{:?}", text)
}

/// How a value is spoken of where another was expected.
pub open spec fn description(json: JsonView) -> Seq<char> {
    match json {
        JsonView::Null => "null"@,
        JsonView::Bool(_) => "boolean `"@ + json_text(json) + "`"@,
        JsonView::Integer(_) => "integer `"@ + json_text(json) + "`"@,
        JsonView::Fraction(_) => "floating point `"@ + json_text(json) + "`"@,
        JsonView::Text(text) => "string "@ + quoted_text(text),
        JsonView::Array(_) => "sequence"@,
        JsonView::Object(_) => "map"@,
    }
}

/// Describes a value.
pub fn describe(json: &Json) -> (text: String)
    ensures
        text@ == description(json@),
{
    match json {
        Json::Null => "null".to_owned(),
        Json::Bool(b) => "boolean `".to_owned().concat(
            write_json(Json::Bool(*b)).as_str(),
        ).concat("`"),
        Json::Unsigned(n) => "integer `".to_owned().concat(
            write_json(Json::Unsigned(*n)).as_str(),
        ).concat("`"),
        Json::Signed(n) => "integer `".to_owned().concat(
            write_json(Json::Signed(*n)).as_str(),
        ).concat("`"),
        Json::Fraction(n) => "floating point `".to_owned().concat(
            write_json(Json::Fraction(copy_fraction(n))).as_str(),
        ).concat("`"),
        Json::Text(text) => "string ".to_owned().concat(quote(text.as_str()).as_str()),
        Json::Array(_) => "sequence".to_owned(),
        Json::Object(_) => "map".to_owned(),
    }
}

} // verus!
