//! Decoding messages.
//!
//! A record is written as an object, of which unknown fields are ignored, or as an array that
//! lists exactly its fields, in order. A status is written as its name, or as an object whose
//! only key is that name and whose value is empty. The fields of an object are looked at in the
//! order of their names, and those of an array in the order of the array; what is wrong first is
//! reported.
use crate::codec::{describe, description, json_text, write_json};
use crate::entries::{entries_map, lemma_entries_map_contains, lemma_entries_map_get};
use crate::json::{entry_views, item_views, Json, JsonView};
use crate::model::{
    pane_views, AgentStatus, AgentStatusChanged, EventView, HerdrEvent, HerdrEventData, PaneState,
    PaneView, SessionSnapshot, SnapshotResponseResult, SubscriptionEvent,
};
use crate::text::same_text;
use vstd::prelude::*;
use vstd::string::StringExecFns;

verus! {

/// Why a JSON value is not the message that was expected.
#[derive(Debug)]
pub enum DecodeError {
    /// A value of another kind stands where `expected` should.
    InvalidType { found: String, expected: &'static str },
    /// An array of `length` items, or its first `length` items, stands where `expected` should.
    InvalidLength { length: usize, expected: &'static str },
    /// An object that has not exactly one key stands where a status should.
    NotOneKey,
    /// An object lacks a field of its record.
    MissingField { field: &'static str },
    /// No status has this name.
    UnknownStatus { name: String },
}

/// The model of [`DecodeError`].
pub enum DecodeErrorView {
    InvalidType { found: Seq<char>, expected: Seq<char> },
    InvalidLength { length: int, expected: Seq<char> },
    NotOneKey,
    MissingField { field: Seq<char> },
    UnknownStatus { name: Seq<char> },
}

impl View for DecodeError {
    type V = DecodeErrorView;

    open spec fn view(&self) -> DecodeErrorView {
        match self {
            DecodeError::InvalidType { found, expected } => DecodeErrorView::InvalidType {
                found: found@,
                expected: expected@,
            },
            DecodeError::InvalidLength { length, expected } => DecodeErrorView::InvalidLength {
                length: *length as int,
                expected: expected@,
            },
            DecodeError::NotOneKey => DecodeErrorView::NotOneKey,
            DecodeError::MissingField { field } => DecodeErrorView::MissingField { field: field@ },
            DecodeError::UnknownStatus { name } => DecodeErrorView::UnknownStatus { name: name@ },
        }
    }
}

/// The sentence for each error.
pub open spec fn decode_error_message(error: DecodeErrorView) -> Seq<char> {
    match error {
        DecodeErrorView::InvalidType { found, expected } => "invalid type: "@ + found
            + ", expected "@ + expected,
        DecodeErrorView::InvalidLength { length, expected } => "invalid length "@ + json_text(
            JsonView::Integer(length),
        ) + ", expected "@ + expected,
        DecodeErrorView::NotOneKey => "invalid value: map, expected map with a single key"@,
        DecodeErrorView::MissingField { field } => "missing field `"@ + field + "`"@,
        DecodeErrorView::UnknownStatus { name } => "unknown variant `"@ + name
            + "`, expected one of `idle`, `working`, `blocked`, `done`, `unknown`"@,
    }
}

impl DecodeError {
    /// A sentence for the log.
    pub fn message(&self) -> (message: String)
        ensures
            message@ == decode_error_message(self@),
    {
        match self {
            DecodeError::InvalidType { found, expected } => "invalid type: ".to_owned().concat(
                found.as_str(),
            ).concat(", expected ").concat(expected),
            DecodeError::InvalidLength { length, expected } => {
                let digits = write_json(Json::Unsigned(*length as u64));
                "invalid length ".to_owned().concat(digits.as_str()).concat(", expected ").concat(
                    expected,
                )
            },
            DecodeError::NotOneKey => {
                "invalid value: map, expected map with a single key".to_owned()
            },
            DecodeError::MissingField { field } => "missing field `".to_owned().concat(
                field,
            ).concat("`"),
            DecodeError::UnknownStatus { name } => "unknown variant `".to_owned().concat(
                name.as_str(),
            ).concat("`, expected one of `idle`, `working`, `blocked`, `done`, `unknown`"),
        }
    }
}

/// `result` is the result whose model is `model`.
pub open spec fn same_result<T: View>(
    result: Result<T, DecodeError>,
    model: Result<T::V, DecodeErrorView>,
) -> bool {
    match result {
        Ok(value) => model == Ok::<T::V, DecodeErrorView>(value@),
        Err(error) => model == Err::<T::V, DecodeErrorView>(error@),
    }
}

/// `json` is not what was expected.
pub open spec fn invalid_type(json: JsonView, expected: Seq<char>) -> DecodeErrorView {
    DecodeErrorView::InvalidType { found: description(json), expected }
}

/// Reports that `json` is not what was expected.
fn wrong_type(json: &Json, expected: &'static str) -> (error: DecodeError)
    ensures
        error@ == invalid_type(json@, expected@),
{
    DecodeError::InvalidType { found: describe(json), expected }
}

/// The only field, `name`, of a record that is expected as `expected`, or as `listed` where it is
/// written as an array. What follows the field in an array is not looked at yet.
pub open spec fn record_field(
    record: JsonView,
    name: Seq<char>,
    expected: Seq<char>,
    listed: Seq<char>,
) -> Result<JsonView, DecodeErrorView> {
    match record {
        JsonView::Object(map) => if map.contains_key(name) {
            Ok(map[name])
        } else {
            Err(DecodeErrorView::MissingField { field: name })
        },
        JsonView::Array(items) => if items.len() > 0 {
            Ok(items[0])
        } else {
            Err(DecodeErrorView::InvalidLength { length: 0, expected: listed })
        },
        _ => Err(invalid_type(record, expected)),
    }
}

/// Finds the only field, `name`, of a record.
fn find_field<'a>(
    record: &'a Json,
    name: &'static str,
    expected: &'static str,
    listed: &'static str,
) -> (field: Result<&'a Json, DecodeError>)
    ensures
        same_result(field, record_field(record@, name@, expected@, listed@)),
{
    match record {
        Json::Object(_) => match record.get(name) {
            Some(value) => Ok(value),
            None => Err(DecodeError::MissingField { field: name }),
        },
        Json::Array(items) => if items.len() > 0 {
            Ok(&items[0])
        } else {
            Err(DecodeError::InvalidLength { length: 0, expected: listed })
        },
        _ => Err(wrong_type(record, expected)),
    }
}

/// Fails where a record of one field is an array of more items.
pub open spec fn surplus_checked<T>(decoded: T, record: JsonView) -> Result<T, DecodeErrorView> {
    match record {
        JsonView::Array(items) => if items.len() > 1 {
            Err(
                DecodeErrorView::InvalidLength {
                    length: items.len() as int,
                    expected: "fewer elements in array"@,
                },
            )
        } else {
            Ok(decoded)
        },
        _ => Ok(decoded),
    }
}

/// Hands on what was decoded, unless a record of one field is an array of more items.
fn check_surplus<T>(decoded: T, record: &Json) -> (checked: Result<T, DecodeError>)
    ensures
        match checked {
            Ok(value) => surplus_checked(decoded, record@) == Ok::<T, DecodeErrorView>(value),
            Err(error) => surplus_checked(decoded, record@) == Err::<T, DecodeErrorView>(error@),
        },
{
    match record {
        Json::Array(items) => if items.len() > 1 {
            Err(
                DecodeError::InvalidLength {
                    length: items.len(),
                    expected: "fewer elements in array",
                },
            )
        } else {
            Ok(decoded)
        },
        _ => Ok(decoded),
    }
}

/// The text that `json` is.
pub open spec fn decoded_text(json: JsonView) -> Result<Seq<char>, DecodeErrorView> {
    match json {
        JsonView::Text(text) => Ok(text),
        _ => Err(invalid_type(json, "a string"@)),
    }
}

/// Decodes a text.
fn decode_text(json: &Json) -> (text: Result<String, DecodeError>)
    ensures
        same_result(text, decoded_text(json@)),
{
    match json {
        Json::Text(text) => Ok(text.clone()),
        _ => Err(wrong_type(json, "a string")),
    }
}

/// The name of a status.
pub open spec fn status_name(status: AgentStatus) -> Seq<char> {
    match status {
        AgentStatus::Idle => "idle"@,
        AgentStatus::Working => "working"@,
        AgentStatus::Blocked => "blocked"@,
        AgentStatus::Done => "done"@,
        AgentStatus::Unknown => "unknown"@,
    }
}

/// The status that has the name `name`.
pub open spec fn status_named(name: Seq<char>) -> Result<AgentStatus, DecodeErrorView> {
    if name == "idle"@ {
        Ok(AgentStatus::Idle)
    } else if name == "working"@ {
        Ok(AgentStatus::Working)
    } else if name == "blocked"@ {
        Ok(AgentStatus::Blocked)
    } else if name == "done"@ {
        Ok(AgentStatus::Done)
    } else if name == "unknown"@ {
        Ok(AgentStatus::Unknown)
    } else {
        Err(DecodeErrorView::UnknownStatus { name })
    }
}

/// `status` is the result whose model is `model`.
pub open spec fn same_status(
    status: Result<AgentStatus, DecodeError>,
    model: Result<AgentStatus, DecodeErrorView>,
) -> bool {
    match status {
        Ok(status) => model == Ok::<AgentStatus, DecodeErrorView>(status),
        Err(error) => model == Err::<AgentStatus, DecodeErrorView>(error@),
    }
}

/// Finds the status that has the name `name`.
fn find_status(name: &str) -> (status: Result<AgentStatus, DecodeError>)
    ensures
        same_status(status, status_named(name@)),
{
    if same_text(name, "idle") {
        Ok(AgentStatus::Idle)
    } else if same_text(name, "working") {
        Ok(AgentStatus::Working)
    } else if same_text(name, "blocked") {
        Ok(AgentStatus::Blocked)
    } else if same_text(name, "done") {
        Ok(AgentStatus::Done)
    } else if same_text(name, "unknown") {
        Ok(AgentStatus::Unknown)
    } else {
        Err(DecodeError::UnknownStatus { name: name.to_owned() })
    }
}

/// `key` is the only key of `map`.
pub open spec fn only_key(map: Map<Seq<char>, JsonView>, key: Seq<char>) -> bool {
    map.dom() == set![key]
}

/// `json` says nothing. Within the data of a lifecycle event an object without entries does so
/// too.
pub open spec fn is_empty_value(json: JsonView, in_event: bool) -> bool {
    match json {
        JsonView::Null => true,
        JsonView::Object(map) => in_event && map == Map::<Seq<char>, JsonView>::empty(),
        _ => false,
    }
}

/// The status that `json` is. Where it is an object, the name counts before the value.
pub open spec fn decoded_status(json: JsonView, in_event: bool) -> Result<
    AgentStatus,
    DecodeErrorView,
> {
    match json {
        JsonView::Text(name) => status_named(name),
        JsonView::Object(map) => if exists|key: Seq<char>| #[trigger] only_key(map, key) {
            let name = choose|key: Seq<char>| #[trigger] only_key(map, key);
            match status_named(name) {
                Err(error) => Err(error),
                Ok(status) => if is_empty_value(map[name], in_event) {
                    Ok(status)
                } else {
                    Err(invalid_type(map[name], "unit"@))
                },
            }
        } else {
            Err(DecodeErrorView::NotOneKey)
        },
        _ => Err(invalid_type(json, "string or map"@)),
    }
}

/// The only entry of an object, if it has exactly one.
fn only_entry(entries: &Vec<(String, Json)>) -> (found: Option<(&str, &Json)>)
    ensures
        ({
            let map = entries_map(entry_views(entries@));
            match found {
                Some((key, value)) => only_key(map, key@) && map[key@] == value@,
                None => forall|key: Seq<char>| !#[trigger] only_key(map, key),
            }
        }),
{
    let ghost views = entry_views(entries@);
    let ghost map = entries_map(views);
    if entries.len() == 0 {
        assert forall|key: Seq<char>| !#[trigger] only_key(map, key) by {
            assert(!map.dom().contains(key));
            assert(set![key].contains(key));
        }
        return None;
    }
    let last: usize = entries.len() - 1;
    let name = entries[last].0.as_str();
    proof {
        assert(views[last as int].0 == name@);
        lemma_entries_map_get(views, last as int);
    }
    for at in 0..entries.len()
        invariant
            last == entries@.len() - 1,
            name@ == entries@[last as int].0@,
            views == entry_views(entries@),
            map == entries_map(views),
            map.contains_key(name@),
            forall|i: int| 0 <= i < at ==> (#[trigger] views[i]).0 == name@,
    {
        if !same_text(entries[at].0.as_str(), name) {
            proof {
                let other = views[at as int].0;
                lemma_entries_map_contains(views, other);
                assert forall|key: Seq<char>| !#[trigger] only_key(map, key) by {
                    if only_key(map, key) {
                        assert(map.dom().contains(other) && map.dom().contains(name@));
                    }
                }
            }
            return None;
        }
        assert(views[at as int].0 == name@);
    }
    proof {
        assert forall|key: Seq<char>| #[trigger] map.dom().contains(key) <==> set![name@].contains(
            key,
        ) by {
            lemma_entries_map_contains(views, key);
        }
        assert(map.dom() =~= set![name@]);
    }
    Some((name, &entries[last].1))
}

/// A map has at most one only key.
proof fn lemma_only_key(map: Map<Seq<char>, JsonView>, a: Seq<char>, b: Seq<char>)
    requires
        only_key(map, a),
        only_key(map, b),
    ensures
        a == b,
{
    assert(set![a].contains(a));
    assert(set![b].contains(a));
}

/// Whether `json` says nothing.
fn says_nothing(json: &Json, in_event: bool) -> (empty: bool)
    ensures
        empty == is_empty_value(json@, in_event),
{
    match json {
        Json::Null => true,
        Json::Object(entries) => {
            proof {
                let views = entry_views(entries@);
                if views.len() > 0 {
                    lemma_entries_map_get(views, views.len() - 1);
                }
            }
            in_event && entries.len() == 0
        },
        _ => false,
    }
}

/// Decodes a status.
fn decode_status(json: &Json, in_event: bool) -> (status: Result<AgentStatus, DecodeError>)
    ensures
        same_status(status, decoded_status(json@, in_event)),
{
    match json {
        Json::Text(name) => find_status(name.as_str()),
        Json::Object(entries) => match only_entry(entries) {
            Some((name, value)) => {
                proof {
                    let map = json@->Object_0;
                    let chosen = choose|key: Seq<char>| #[trigger] only_key(map, key);
                    lemma_only_key(map, name@, chosen);
                }
                match find_status(name) {
                    Ok(status) => if says_nothing(value, in_event) {
                        Ok(status)
                    } else {
                        Err(wrong_type(value, "unit"))
                    },
                    Err(error) => Err(error),
                }
            },
            None => {
                assert(json@ == JsonView::Object(entries_map(entry_views(entries@))));
                Err(DecodeError::NotOneKey)
            },
        },
        _ => Err(wrong_type(json, "string or map")),
    }
}

/// Where a record of a pane id and a status stands.
#[derive(Debug, Clone, Copy, PartialEq, Eq, Structural)]
pub enum PaneForm {
    /// In a snapshot: a [`PaneState`].
    Listed,
    /// Within the data of a lifecycle event: a [`PaneState`].
    Created,
    /// In an event of a status subscription: an [`AgentStatusChanged`].
    Reported,
}

impl PaneForm {
    /// What is expected.
    pub open spec fn kind(self) -> Seq<char> {
        match self {
            PaneForm::Reported => "struct AgentStatusChanged"@,
            _ => "struct PaneState"@,
        }
    }

    /// What is expected of an array.
    pub open spec fn listed(self) -> Seq<char> {
        match self {
            PaneForm::Reported => "struct AgentStatusChanged with 2 elements"@,
            _ => "struct PaneState with 2 elements"@,
        }
    }

    /// What is expected of an array that has more items than that.
    pub open spec fn shorter(self) -> Seq<char> {
        match self {
            PaneForm::Created => "2 elements in sequence"@,
            _ => "fewer elements in array"@,
        }
    }

    /// Says what is expected.
    fn kind_text(self) -> (text: &'static str)
        ensures
            text@ == self.kind(),
    {
        match self {
            PaneForm::Reported => "struct AgentStatusChanged",
            _ => "struct PaneState",
        }
    }

    /// Says what is expected of an array.
    fn listed_text(self) -> (text: &'static str)
        ensures
            text@ == self.listed(),
    {
        match self {
            PaneForm::Reported => "struct AgentStatusChanged with 2 elements",
            _ => "struct PaneState with 2 elements",
        }
    }

    /// Says what is expected of an array that has more items than that.
    fn shorter_text(self) -> (text: &'static str)
        ensures
            text@ == self.shorter(),
    {
        match self {
            PaneForm::Created => "2 elements in sequence",
            _ => "fewer elements in array",
        }
    }
}

/// The pane id and the status that `json` is a record of.
pub open spec fn decoded_pane(json: JsonView, form: PaneForm) -> Result<PaneView, DecodeErrorView> {
    match json {
        JsonView::Object(_) => decoded_pane_object(json, form),
        JsonView::Array(items) => decoded_pane_array(items, form),
        _ => Err(invalid_type(json, form.kind())),
    }
}

/// The pane id and the status that an object holds.
pub open spec fn decoded_pane_object(json: JsonView, form: PaneForm) -> Result<
    PaneView,
    DecodeErrorView,
> {
    let status = match json.get("agent_status"@) {
        Some(status) => Some(decoded_status(status, form == PaneForm::Created)),
        None => None,
    };
    let id = match json.get("pane_id"@) {
        Some(id) => Some(decoded_text(id)),
        None => None,
    };
    match (status, id) {
        (Some(Err(error)), _) => Err(error),
        (_, Some(Err(error))) => Err(error),
        (_, None) => Err(DecodeErrorView::MissingField { field: "pane_id"@ }),
        (None, _) => Err(DecodeErrorView::MissingField { field: "agent_status"@ }),
        (Some(Ok(agent_status)), Some(Ok(pane_id))) => Ok(PaneView { pane_id, agent_status }),
    }
}

/// The pane id and the status that an array lists.
pub open spec fn decoded_pane_array(items: Seq<JsonView>, form: PaneForm) -> Result<
    PaneView,
    DecodeErrorView,
> {
    if items.len() == 0 {
        Err(DecodeErrorView::InvalidLength { length: 0, expected: form.listed() })
    } else {
        match decoded_text(items[0]) {
            Err(error) => Err(error),
            Ok(pane_id) => if items.len() == 1 {
                Err(DecodeErrorView::InvalidLength { length: 1, expected: form.listed() })
            } else {
                match decoded_status(items[1], form == PaneForm::Created) {
                    Err(error) => Err(error),
                    Ok(agent_status) => if items.len() > 2 {
                        Err(
                            DecodeErrorView::InvalidLength {
                                length: items.len() as int,
                                expected: form.shorter(),
                            },
                        )
                    } else {
                        Ok(PaneView { pane_id, agent_status })
                    },
                }
            },
        }
    }
}

/// Decodes a record of a pane id and a status.
fn decode_pane(json: &Json, form: PaneForm) -> (pane: Result<PaneState, DecodeError>)
    ensures
        same_result(pane, decoded_pane(json@, form)),
{
    match json {
        Json::Object(_) => decode_pane_object(json, form),
        Json::Array(items) => decode_pane_array(items, form),
        _ => Err(wrong_type(json, form.kind_text())),
    }
}

/// Decodes an object that holds a pane id and a status.
fn decode_pane_object(json: &Json, form: PaneForm) -> (pane: Result<PaneState, DecodeError>)
    ensures
        same_result(pane, decoded_pane_object(json@, form)),
{
    let in_event = form == PaneForm::Created;
    let status = match json.get("agent_status") {
        Some(status) => match decode_status(status, in_event) {
            Ok(status) => Some(status),
            Err(error) => return Err(error),
        },
        None => None,
    };
    let id = match json.get("pane_id") {
        Some(id) => match decode_text(id) {
            Ok(id) => Some(id),
            Err(error) => return Err(error),
        },
        None => None,
    };
    match (id, status) {
        (None, _) => Err(DecodeError::MissingField { field: "pane_id" }),
        (_, None) => Err(DecodeError::MissingField { field: "agent_status" }),
        (Some(pane_id), Some(agent_status)) => Ok(PaneState { pane_id, agent_status }),
    }
}

/// Decodes an array that lists a pane id and a status.
fn decode_pane_array(items: &Vec<Json>, form: PaneForm) -> (pane: Result<PaneState, DecodeError>)
    ensures
        same_result(pane, decoded_pane_array(item_views(items@), form)),
{
    if items.len() == 0 {
        return Err(DecodeError::InvalidLength { length: 0, expected: form.listed_text() });
    }
    let pane_id = match decode_text(&items[0]) {
        Ok(pane_id) => pane_id,
        Err(error) => return Err(error),
    };
    if items.len() == 1 {
        return Err(DecodeError::InvalidLength { length: 1, expected: form.listed_text() });
    }
    let agent_status = match decode_status(&items[1], form == PaneForm::Created) {
        Ok(agent_status) => agent_status,
        Err(error) => return Err(error),
    };
    if items.len() > 2 {
        return Err(
            DecodeError::InvalidLength { length: items.len(), expected: form.shorter_text() },
        );
    }
    Ok(PaneState { pane_id, agent_status })
}

/// The panes that a list holds; the first that is none decides the error.
pub open spec fn decoded_panes(items: Seq<JsonView>) -> Result<Seq<PaneView>, DecodeErrorView>
    decreases items.len(),
{
    if items.len() == 0 {
        Ok(Seq::empty())
    } else {
        match decoded_panes(items.drop_last()) {
            Err(error) => Err(error),
            Ok(panes) => match decoded_pane(items.last(), PaneForm::Listed) {
                Err(error) => Err(error),
                Ok(pane) => Ok(panes.push(pane)),
            },
        }
    }
}

/// If the front of a list cannot be decoded, neither can the list.
proof fn lemma_decoded_panes_front(items: Seq<JsonView>, count: int)
    requires
        0 <= count <= items.len(),
        decoded_panes(items.take(count)) is Err,
    ensures
        decoded_panes(items) == decoded_panes(items.take(count)),
    decreases items.len() - count,
{
    if count < items.len() {
        assert(items.take(count + 1).drop_last() =~= items.take(count));
        lemma_decoded_panes_front(items, count + 1);
    } else {
        assert(items.take(count) =~= items);
    }
}

/// Decodes a list of panes.
fn decode_panes(items: &Vec<Json>) -> (panes: Result<Vec<PaneState>, DecodeError>)
    ensures
        match panes {
            Ok(panes) => decoded_panes(item_views(items@)) == Ok::<_, DecodeErrorView>(
                pane_views(panes@),
            ),
            Err(error) => decoded_panes(item_views(items@)) == Err::<Seq<PaneView>, _>(error@),
        },
{
    let ghost views = item_views(items@);
    let mut panes: Vec<PaneState> = Vec::new();
    assert(pane_views(panes@) =~= Seq::empty());
    for at in 0..items.len()
        invariant
            views == item_views(items@),
            decoded_panes(views.take(at as int)) == Ok::<_, DecodeErrorView>(pane_views(panes@)),
    {
        let ghost known = panes@;
        proof {
            assert(views.take(at + 1).drop_last() =~= views.take(at as int));
            assert(views.take(at + 1).last() == items@[at as int]@);
        }
        match decode_pane(&items[at], PaneForm::Listed) {
            Ok(pane) => {
                panes.push(pane);
                assert(pane_views(panes@) =~= pane_views(known).push(pane@));
            },
            Err(error) => {
                proof {
                    lemma_decoded_panes_front(views, at + 1);
                }
                return Err(error);
            },
        }
    }
    assert(views.take(items@.len() as int) =~= views);
    Ok(panes)
}

/// The panes of the session that `snapshot` is.
pub open spec fn decoded_snapshot(snapshot: JsonView) -> Result<Seq<PaneView>, DecodeErrorView> {
    match record_field(
        snapshot,
        "panes"@,
        "struct SessionSnapshot"@,
        "struct SessionSnapshot with 1 element"@,
    ) {
        Err(error) => Err(error),
        Ok(JsonView::Array(items)) => match decoded_panes(items) {
            Err(error) => Err(error),
            Ok(panes) => surplus_checked(panes, snapshot),
        },
        Ok(other) => Err(invalid_type(other, "a sequence"@)),
    }
}

/// Decodes a session.
fn decode_snapshot(snapshot: &Json) -> (decoded: Result<SessionSnapshot, DecodeError>)
    ensures
        same_result(decoded, decoded_snapshot(snapshot@)),
{
    let panes = match find_field(
        snapshot,
        "panes",
        "struct SessionSnapshot",
        "struct SessionSnapshot with 1 element",
    ) {
        Ok(panes) => panes,
        Err(error) => return Err(error),
    };
    match panes {
        Json::Array(items) => match decode_panes(items) {
            Ok(panes) => check_surplus(SessionSnapshot { panes }, snapshot),
            Err(error) => Err(error),
        },
        _ => Err(wrong_type(panes, "a sequence")),
    }
}

/// The panes of the session that the result of a snapshot request holds.
pub open spec fn decoded_snapshot_result(result: JsonView) -> Result<
    Seq<PaneView>,
    DecodeErrorView,
> {
    match record_field(
        result,
        "snapshot"@,
        "struct SnapshotResponseResult"@,
        "struct SnapshotResponseResult with 1 element"@,
    ) {
        Err(error) => Err(error),
        Ok(snapshot) => match decoded_snapshot(snapshot) {
            Err(error) => Err(error),
            Ok(panes) => surplus_checked(panes, result),
        },
    }
}

/// Decodes the result of a snapshot request.
pub fn snapshot_from_result(result: &Json) -> (decoded: Result<SnapshotResponseResult, DecodeError>)
    ensures
        same_result(decoded, decoded_snapshot_result(result@)),
{
    let snapshot = match find_field(
        result,
        "snapshot",
        "struct SnapshotResponseResult",
        "struct SnapshotResponseResult with 1 element",
    ) {
        Ok(snapshot) => snapshot,
        Err(error) => return Err(error),
    };
    match decode_snapshot(snapshot) {
        Ok(snapshot) => check_surplus(SnapshotResponseResult { snapshot }, result),
        Err(error) => Err(error),
    }
}

/// The text that says which event the data of a lifecycle event is about: what stands under
/// `type`, or at the head of an array.
pub open spec fn event_tag(data: JsonView) -> Result<Seq<char>, DecodeErrorView> {
    match data {
        JsonView::Object(map) => if map.contains_key("type"@) {
            decoded_tag(map["type"@])
        } else {
            Err(DecodeErrorView::MissingField { field: "type"@ })
        },
        JsonView::Array(items) => if items.len() > 0 {
            decoded_tag(items[0])
        } else {
            Err(DecodeErrorView::MissingField { field: "type"@ })
        },
        _ => Err(invalid_type(data, "internally tagged enum HerdrEventData"@)),
    }
}

/// The tag that `json` is.
pub open spec fn decoded_tag(json: JsonView) -> Result<Seq<char>, DecodeErrorView> {
    match json {
        JsonView::Text(tag) => Ok(tag),
        _ => Err(invalid_type(json, "variant identifier"@)),
    }
}

/// The field of an event's data that stands next to its tag. What follows it in an array is not
/// looked at yet.
pub open spec fn tagged_field(data: JsonView, name: Seq<char>, listed: Seq<char>) -> Result<
    JsonView,
    DecodeErrorView,
> {
    match data {
        JsonView::Array(items) => if items.len() > 1 {
            Ok(items[1])
        } else {
            Err(DecodeErrorView::InvalidLength { length: 0, expected: listed })
        },
        _ => match data.get(name) {
            Some(field) => Ok(field),
            None => Err(DecodeErrorView::MissingField { field: name }),
        },
    }
}

/// Fails where more than `count` items of an array follow an event's tag.
pub open spec fn tagged_surplus_checked(
    event: EventView,
    data: JsonView,
    count: int,
    expected: Seq<char>,
) -> Result<EventView, DecodeErrorView> {
    match data {
        JsonView::Array(items) => if items.len() - 1 > count {
            Err(DecodeErrorView::InvalidLength { length: items.len() - 1, expected })
        } else {
            Ok(event)
        },
        _ => Ok(event),
    }
}

/// What the data of a lifecycle event tells.
pub open spec fn decoded_event_data(data: JsonView) -> Result<EventView, DecodeErrorView> {
    match event_tag(data) {
        Err(error) => Err(error),
        Ok(tag) => if tag == "pane_created"@ {
            match tagged_field(
                data,
                "pane"@,
                "struct variant HerdrEventData::PaneCreated with 1 element"@,
            ) {
                Err(error) => Err(error),
                Ok(pane) => match decoded_pane(pane, PaneForm::Created) {
                    Err(error) => Err(error),
                    Ok(pane) => tagged_surplus_checked(
                        EventView::PaneCreated(pane),
                        data,
                        1,
                        "1 element in sequence"@,
                    ),
                },
            }
        } else if tag == "pane_closed"@ {
            match tagged_field(
                data,
                "pane_id"@,
                "struct variant HerdrEventData::PaneClosed with 1 element"@,
            ) {
                Err(error) => Err(error),
                Ok(pane_id) => match decoded_text(pane_id) {
                    Err(error) => Err(error),
                    Ok(pane_id) => tagged_surplus_checked(
                        EventView::PaneClosed(pane_id),
                        data,
                        1,
                        "1 element in sequence"@,
                    ),
                },
            }
        } else {
            tagged_surplus_checked(EventView::Other, data, 0, "0 elements in sequence"@)
        },
    }
}

/// Decodes a tag.
fn decode_tag(json: &Json) -> (tag: Result<String, DecodeError>)
    ensures
        same_result(tag, decoded_tag(json@)),
{
    match json {
        Json::Text(tag) => Ok(tag.clone()),
        _ => Err(wrong_type(json, "variant identifier")),
    }
}

/// Finds the text that says which event the data of a lifecycle event is about.
fn find_event_tag(data: &Json) -> (tag: Result<String, DecodeError>)
    ensures
        same_result(tag, event_tag(data@)),
{
    match data {
        Json::Object(_) => match data.get("type") {
            Some(tag) => decode_tag(tag),
            None => Err(DecodeError::MissingField { field: "type" }),
        },
        Json::Array(items) => if items.len() > 0 {
            decode_tag(&items[0])
        } else {
            Err(DecodeError::MissingField { field: "type" })
        },
        _ => Err(wrong_type(data, "internally tagged enum HerdrEventData")),
    }
}

/// Finds the field of an event's data that stands next to its tag.
fn find_tagged_field<'a>(data: &'a Json, name: &'static str, listed: &'static str) -> (field: Result<
    &'a Json,
    DecodeError,
>)
    ensures
        same_result(field, tagged_field(data@, name@, listed@)),
{
    match data {
        Json::Array(items) => if items.len() > 1 {
            Ok(&items[1])
        } else {
            Err(DecodeError::InvalidLength { length: 0, expected: listed })
        },
        _ => match data.get(name) {
            Some(field) => Ok(field),
            None => Err(DecodeError::MissingField { field: name }),
        },
    }
}

/// Hands on what was decoded, unless more than `count` items of an array follow an event's tag.
fn check_tagged_surplus(
    event: HerdrEventData,
    data: &Json,
    count: usize,
    expected: &'static str,
) -> (checked: Result<HerdrEventData, DecodeError>)
    ensures
        same_result(checked, tagged_surplus_checked(event@, data@, count as int, expected@)),
{
    match data {
        Json::Array(items) => if items.len() > 0 && items.len() - 1 > count {
            Err(DecodeError::InvalidLength { length: items.len() - 1, expected })
        } else {
            Ok(event)
        },
        _ => Ok(event),
    }
}

/// Decodes the data of a lifecycle event.
fn decode_event_data(data: &Json) -> (decoded: Result<HerdrEventData, DecodeError>)
    ensures
        same_result(decoded, decoded_event_data(data@)),
{
    let tag = match find_event_tag(data) {
        Ok(tag) => tag,
        Err(error) => return Err(error),
    };
    if same_text(tag.as_str(), "pane_created") {
        let pane = match find_tagged_field(
            data,
            "pane",
            "struct variant HerdrEventData::PaneCreated with 1 element",
        ) {
            Ok(pane) => pane,
            Err(error) => return Err(error),
        };
        match decode_pane(pane, PaneForm::Created) {
            Ok(pane) => check_tagged_surplus(
                HerdrEventData::PaneCreated { pane },
                data,
                1,
                "1 element in sequence",
            ),
            Err(error) => Err(error),
        }
    } else if same_text(tag.as_str(), "pane_closed") {
        let pane_id = match find_tagged_field(
            data,
            "pane_id",
            "struct variant HerdrEventData::PaneClosed with 1 element",
        ) {
            Ok(pane_id) => pane_id,
            Err(error) => return Err(error),
        };
        match decode_text(pane_id) {
            Ok(pane_id) => check_tagged_surplus(
                HerdrEventData::PaneClosed { pane_id },
                data,
                1,
                "1 element in sequence",
            ),
            Err(error) => Err(error),
        }
    } else {
        check_tagged_surplus(HerdrEventData::Other, data, 0, "0 elements in sequence")
    }
}

/// What a lifecycle event tells.
pub open spec fn decoded_event(message: JsonView) -> Result<EventView, DecodeErrorView> {
    match record_field(
        message,
        "data"@,
        "struct HerdrEvent"@,
        "struct HerdrEvent with 1 element"@,
    ) {
        Err(error) => Err(error),
        Ok(data) => match decoded_event_data(data) {
            Err(error) => Err(error),
            Ok(event) => surplus_checked(event, message),
        },
    }
}

/// Decodes a lifecycle event.
pub fn decode_event(message: &Json) -> (event: Result<HerdrEvent, DecodeError>)
    ensures
        same_result(event, decoded_event(message@)),
{
    let data = match find_field(
        message,
        "data",
        "struct HerdrEvent",
        "struct HerdrEvent with 1 element",
    ) {
        Ok(data) => data,
        Err(error) => return Err(error),
    };
    match decode_event_data(data) {
        Ok(data) => check_surplus(HerdrEvent { data }, message),
        Err(error) => Err(error),
    }
}

/// The status change that an event of a status subscription reports.
pub open spec fn decoded_status_event(message: JsonView) -> Result<PaneView, DecodeErrorView> {
    match record_field(
        message,
        "data"@,
        "struct SubscriptionEvent"@,
        "struct SubscriptionEvent with 1 element"@,
    ) {
        Err(error) => Err(error),
        Ok(data) => match decoded_pane(data, PaneForm::Reported) {
            Err(error) => Err(error),
            Ok(report) => surplus_checked(report, message),
        },
    }
}

/// Decodes an event of a status subscription.
pub fn decode_status_event(message: &Json) -> (event: Result<SubscriptionEvent, DecodeError>)
    ensures
        same_result(event, decoded_status_event(message@)),
{
    let data = match find_field(
        message,
        "data",
        "struct SubscriptionEvent",
        "struct SubscriptionEvent with 1 element",
    ) {
        Ok(data) => data,
        Err(error) => return Err(error),
    };
    match decode_pane(data, PaneForm::Reported) {
        Ok(pane) => check_surplus(
            SubscriptionEvent {
                data: AgentStatusChanged {
                    pane_id: pane.pane_id,
                    agent_status: pane.agent_status,
                },
            },
            message,
        ),
        Err(error) => Err(error),
    }
}

} // verus!
