//! Which values decode to which messages, and what is said of those that do not.
use crate::codec::{description, json_text};
use crate::decode::{
    decode_error_message, decoded_event, decoded_event_data, decoded_pane, decoded_panes,
    decoded_snapshot, decoded_snapshot_result, decoded_status, decoded_status_event, decoded_text,
    only_key, status_name, status_named, DecodeErrorView, PaneForm,
};
use crate::json::JsonView;
use crate::model::{AgentStatus, EventView, PaneView};
use vstd::prelude::*;

verus! {

/// Each status has its name, and no other name is one of a status.
pub proof fn law_statuses_have_their_names(name: Seq<char>)
    ensures
        status_name(AgentStatus::Idle) == "idle"@,
        status_name(AgentStatus::Working) == "working"@,
        status_name(AgentStatus::Blocked) == "blocked"@,
        status_name(AgentStatus::Done) == "done"@,
        status_name(AgentStatus::Unknown) == "unknown"@,
        name == "idle"@ ==> status_named(name) == Ok::<_, DecodeErrorView>(AgentStatus::Idle),
        name == "working"@ ==> status_named(name) == Ok::<_, DecodeErrorView>(AgentStatus::Working),
        name == "blocked"@ ==> status_named(name) == Ok::<_, DecodeErrorView>(AgentStatus::Blocked),
        name == "done"@ ==> status_named(name) == Ok::<_, DecodeErrorView>(AgentStatus::Done),
        name == "unknown"@ ==> status_named(name) == Ok::<_, DecodeErrorView>(AgentStatus::Unknown),
        name != "idle"@ && name != "working"@ && name != "blocked"@ && name != "done"@ && name
            != "unknown"@ ==> status_named(name) == Err::<AgentStatus, _>(
            DecodeErrorView::UnknownStatus { name },
        ),
{
    reveal_strlit("idle");
    reveal_strlit("working");
    reveal_strlit("blocked");
    reveal_strlit("done");
    reveal_strlit("unknown");
    assert("idle"@[0] == 'i');
    assert("working"@[0] == 'w');
    assert("blocked"@[0] == 'b');
    assert("done"@[0] == 'd');
    assert("unknown"@[0] == 'u');
}

/// `key` is the one key of an object.
pub open spec fn sole_key(fields: Map<Seq<char>, JsonView>, key: Seq<char>) -> bool {
    forall|other: Seq<char>| #[trigger] fields.contains_key(other) <==> other == key
}

/// A key is the only one exactly if no other key is there.
proof fn lemma_sole_key(fields: Map<Seq<char>, JsonView>, key: Seq<char>)
    ensures
        sole_key(fields, key) <==> only_key(fields, key),
{
    if only_key(fields, key) {
        assert forall|other: Seq<char>| #[trigger] fields.contains_key(other) <==> other == key by {
            assert(fields.dom().contains(other) <==> set![key].contains(other));
        }
    }
    if sole_key(fields, key) {
        assert(fields.dom() =~= set![key]) by {
            assert forall|other: Seq<char>| fields.dom().contains(other) <==> set![key].contains(
                other,
            ) by {
                assert(fields.contains_key(other) <==> other == key);
            }
        }
    }
}

/// `json` is an object without fields.
pub open spec fn is_empty_object(json: JsonView) -> bool {
    json matches JsonView::Object(fields) && forall|key: Seq<char>|
        !#[trigger] fields.contains_key(key)
}

/// A status is its name, or an object whose one key is the name and whose value is null (or, within
/// the data of a lifecycle event, an empty object). Of anything else it is said what is wrong with
/// it.
pub proof fn law_status_is_decoded(json: JsonView, in_event: bool)
    ensures
        json matches JsonView::Text(name) ==> decoded_status(json, in_event) == status_named(name),
        json matches JsonView::Object(fields) ==> {
            &&& forall|key: Seq<char>| #[trigger]
                sole_key(fields, key) ==> match status_named(key) {
                    Err(error) => decoded_status(json, in_event) == Err::<AgentStatus, _>(error),
                    Ok(status) => if fields[key] is Null || (in_event && is_empty_object(
                        fields[key],
                    )) {
                        decoded_status(json, in_event) == Ok::<_, DecodeErrorView>(status)
                    } else {
                        decoded_status(json, in_event) == Err::<AgentStatus, _>(
                            DecodeErrorView::InvalidType {
                                found: description(fields[key]),
                                expected: "unit"@,
                            },
                        )
                    },
                }
            &&& (forall|key: Seq<char>| !#[trigger] sole_key(fields, key)) ==> decoded_status(
                json,
                in_event,
            ) == Err::<AgentStatus, _>(DecodeErrorView::NotOneKey)
        },
        !(json is Text) && !(json is Object) ==> decoded_status(json, in_event) == Err::<
            AgentStatus,
            _,
        >(
            DecodeErrorView::InvalidType {
                found: description(json),
                expected: "string or map"@,
            },
        ),
{
    if let JsonView::Object(fields) = json {
        assert forall|key: Seq<char>| #[trigger] sole_key(fields, key) implies only_key(
            fields,
            key,
        ) && (forall|other: Seq<char>| #[trigger] only_key(fields, other) ==> other == key) by {
            lemma_sole_key(fields, key);
            assert forall|other: Seq<char>| #[trigger] only_key(fields, other) implies other
                == key by {
                lemma_sole_key(fields, other);
                assert(fields.contains_key(other));
            }
        }
        assert forall|key: Seq<char>| #[trigger] sole_key(fields, key) implies (match fields[key] {
            JsonView::Object(inner) => is_empty_object(fields[key]) <==> inner == Map::<
                Seq<char>,
                JsonView,
            >::empty(),
            _ => true,
        }) by {
            if let JsonView::Object(inner) = fields[key] {
                if is_empty_object(fields[key]) {
                    assert(inner =~= Map::empty());
                }
            }
        }
        if forall|key: Seq<char>| !#[trigger] sole_key(fields, key) {
            assert forall|key: Seq<char>| !#[trigger] only_key(fields, key) by {
                lemma_sole_key(fields, key);
            }
        }
    }
}

/// A text decodes to its characters, and nothing else is a text.
pub proof fn law_text_is_decoded(json: JsonView)
    ensures
        json matches JsonView::Text(text) ==> decoded_text(json) == Ok::<_, DecodeErrorView>(text),
        !(json is Text) ==> decoded_text(json) == Err::<Seq<char>, _>(
            DecodeErrorView::InvalidType { found: description(json), expected: "a string"@ },
        ),
{
}

/// What is said where a pane is expected, and where an array of its fields is too short or too
/// long.
pub proof fn law_pane_forms(form: PaneForm)
    ensures
        form == PaneForm::Listed || form == PaneForm::Created ==> form.kind() == "struct PaneState"@
            && form.listed() == "struct PaneState with 2 elements"@,
        form == PaneForm::Reported ==> form.kind() == "struct AgentStatusChanged"@ && form.listed()
            == "struct AgentStatusChanged with 2 elements"@,
        form == PaneForm::Listed || form == PaneForm::Reported ==> form.shorter()
            == "fewer elements in array"@,
        form == PaneForm::Created ==> form.shorter() == "2 elements in sequence"@,
{
}

/// A pane decodes from an object exactly if its `pane_id` is a text and its `agent_status` is a
/// status, and it decodes to those two. A wrong status is reported first, then a wrong id, then a
/// missing id, then a missing status.
pub proof fn law_pane_object_is_decoded(fields: Map<Seq<char>, JsonView>, form: PaneForm)
    ensures
        ({
            let decoded = decoded_pane(JsonView::Object(fields), form);
            let status = decoded_status(fields["agent_status"@], form == PaneForm::Created);
            let id = decoded_text(fields["pane_id"@]);
            let has_status = fields.contains_key("agent_status"@);
            let has_id = fields.contains_key("pane_id"@);
            &&& decoded is Ok <==> has_status && has_id && status is Ok && id is Ok
            &&& decoded matches Ok(pane) ==> pane.pane_id == id->Ok_0 && pane.agent_status
                == status->Ok_0
            &&& has_status && status is Err ==> decoded == Err::<PaneView, _>(status->Err_0)
            &&& !(has_status && status is Err) && has_id && id is Err ==> decoded == Err::<
                PaneView,
                _,
            >(id->Err_0)
            &&& !(has_status && status is Err) && !has_id ==> decoded == Err::<PaneView, _>(
                DecodeErrorView::MissingField { field: "pane_id"@ },
            )
            &&& !has_status && has_id && id is Ok ==> decoded == Err::<PaneView, _>(
                DecodeErrorView::MissingField { field: "agent_status"@ },
            )
        }),
{
}

/// A pane decodes from an array exactly if that lists its id and its status, and nothing more. The
/// items are looked at in order.
pub proof fn law_pane_array_is_decoded(items: Seq<JsonView>, form: PaneForm)
    ensures
        ({
            let decoded = decoded_pane(JsonView::Array(items), form);
            let id = decoded_text(items[0]);
            let status = decoded_status(items[1], form == PaneForm::Created);
            &&& decoded is Ok <==> items.len() == 2 && id is Ok && status is Ok
            &&& decoded matches Ok(pane) ==> pane.pane_id == id->Ok_0 && pane.agent_status
                == status->Ok_0
            &&& items.len() == 0 ==> decoded == Err::<PaneView, _>(
                DecodeErrorView::InvalidLength { length: 0, expected: form.listed() },
            )
            &&& items.len() > 0 && id is Err ==> decoded == Err::<PaneView, _>(id->Err_0)
            &&& items.len() == 1 && id is Ok ==> decoded == Err::<PaneView, _>(
                DecodeErrorView::InvalidLength { length: 1, expected: form.listed() },
            )
            &&& items.len() > 1 && id is Ok && status is Err ==> decoded == Err::<PaneView, _>(
                status->Err_0,
            )
            &&& items.len() > 2 && id is Ok && status is Ok ==> decoded == Err::<PaneView, _>(
                DecodeErrorView::InvalidLength {
                    length: items.len() as int,
                    expected: form.shorter(),
                },
            )
        }),
{
}

/// A value that is neither an object nor an array is not a pane.
pub proof fn law_other_values_are_not_panes(json: JsonView, form: PaneForm)
    requires
        !(json is Object),
        !(json is Array),
    ensures
        decoded_pane(json, form) == Err::<PaneView, _>(
            DecodeErrorView::InvalidType { found: description(json), expected: form.kind() },
        ),
{
}

/// A list of panes decodes exactly if each of its items does, and it decodes to them in order.
pub proof fn law_pane_list_is_decoded(items: Seq<JsonView>)
    ensures
        decoded_panes(items) is Ok <==> forall|at: int|
            0 <= at < items.len() ==> (#[trigger] decoded_pane(items[at], PaneForm::Listed)) is Ok,
        decoded_panes(items) matches Ok(panes) ==> panes.len() == items.len() && (forall|at: int|
            0 <= at < items.len() ==> decoded_pane(items[at], PaneForm::Listed) == Ok::<
                _,
                DecodeErrorView,
            >(#[trigger] panes[at])),
    decreases items.len(),
{
    if items.len() > 0 {
        let front = items.drop_last();
        law_pane_list_is_decoded(front);
        let last = decoded_pane(items.last(), PaneForm::Listed);
        assert(items[items.len() - 1] == items.last());
        if decoded_panes(items) is Ok {
            assert forall|at: int| 0 <= at < items.len() implies (#[trigger] decoded_pane(
                items[at],
                PaneForm::Listed,
            )) is Ok by {
                if at < front.len() {
                    assert(front[at] == items[at]);
                    assert(decoded_pane(front[at], PaneForm::Listed) is Ok);
                }
            }
            let panes = decoded_panes(items)->Ok_0;
            let before = decoded_panes(front)->Ok_0;
            assert forall|at: int| 0 <= at < items.len() implies decoded_pane(
                items[at],
                PaneForm::Listed,
            ) == Ok::<_, DecodeErrorView>(#[trigger] panes[at]) by {
                if at < front.len() {
                    assert(front[at] == items[at]);
                    assert(panes[at] == before[at]);
                }
            }
        }
        if forall|at: int|
            0 <= at < items.len() ==> (#[trigger] decoded_pane(items[at], PaneForm::Listed)) is Ok {
            assert forall|at: int| 0 <= at < front.len() implies (#[trigger] decoded_pane(
                front[at],
                PaneForm::Listed,
            )) is Ok by {
                assert(decoded_pane(items[at], PaneForm::Listed) is Ok);
            }
            assert(decoded_pane(items[items.len() - 1], PaneForm::Listed) is Ok);
        }
    }
}

/// The first item of a list that is not a pane says why the list is none.
pub proof fn law_first_wrong_pane_is_reported(items: Seq<JsonView>, first: int)
    requires
        0 <= first < items.len(),
        decoded_pane(items[first], PaneForm::Listed) is Err,
        forall|at: int|
            0 <= at < first ==> (#[trigger] decoded_pane(items[at], PaneForm::Listed)) is Ok,
    ensures
        decoded_panes(items) == Err::<Seq<PaneView>, _>(
            decoded_pane(items[first], PaneForm::Listed)->Err_0,
        ),
    decreases items.len(),
{
    let front = items.drop_last();
    if first < items.len() - 1 {
        assert forall|at: int| 0 <= at < first implies (#[trigger] decoded_pane(
            front[at],
            PaneForm::Listed,
        )) is Ok by {
            assert(decoded_pane(items[at], PaneForm::Listed) is Ok);
        }
        assert(front[first] == items[first]);
        law_first_wrong_pane_is_reported(front, first);
    } else {
        assert forall|at: int| 0 <= at < front.len() implies (#[trigger] decoded_pane(
            front[at],
            PaneForm::Listed,
        )) is Ok by {
            assert(decoded_pane(items[at], PaneForm::Listed) is Ok);
        }
        law_pane_list_is_decoded(front);
        assert(items.last() == items[first]);
    }
}

/// How a record of one field decodes, where the field is `name` and decodes by `inner`: from an
/// object that has the field, or from an array of it alone. Of anything else it is said that it is
/// not what is expected, that the field is missing, or that the array is too short or too long.
pub open spec fn is_record_of_one<T>(
    record: JsonView,
    decoded: Result<T, DecodeErrorView>,
    name: Seq<char>,
    inner: spec_fn(JsonView) -> Result<T, DecodeErrorView>,
    expected: Seq<char>,
    listed: Seq<char>,
) -> bool {
    match record {
        JsonView::Object(fields) => {
            &&& fields.contains_key(name) ==> decoded == inner(fields[name])
            &&& !fields.contains_key(name) ==> decoded == Err::<T, _>(
                DecodeErrorView::MissingField { field: name },
            )
        },
        JsonView::Array(items) => {
            &&& items.len() == 0 ==> decoded == Err::<T, _>(
                DecodeErrorView::InvalidLength { length: 0, expected: listed },
            )
            &&& items.len() == 1 ==> decoded == inner(items[0])
            &&& items.len() > 1 && inner(items[0]) is Err ==> decoded == inner(items[0])
            &&& items.len() > 1 && inner(items[0]) is Ok ==> decoded == Err::<T, _>(
                DecodeErrorView::InvalidLength {
                    length: items.len() as int,
                    expected: "fewer elements in array"@,
                },
            )
        },
        _ => decoded == Err::<T, _>(
            DecodeErrorView::InvalidType { found: description(record), expected },
        ),
    }
}

/// The result of a snapshot request holds a session under `snapshot`, and a session holds a list of
/// panes under `panes`.
pub proof fn law_snapshot_is_decoded(json: JsonView)
    ensures
        is_record_of_one(
            json,
            decoded_snapshot_result(json),
            "snapshot"@,
            |snapshot: JsonView| decoded_snapshot(snapshot),
            "struct SnapshotResponseResult"@,
            "struct SnapshotResponseResult with 1 element"@,
        ),
        is_record_of_one(
            json,
            decoded_snapshot(json),
            "panes"@,
            |panes: JsonView|
                match panes {
                    JsonView::Array(items) => decoded_panes(items),
                    _ => Err(
                        DecodeErrorView::InvalidType {
                            found: description(panes),
                            expected: "a sequence"@,
                        },
                    ),
                },
            "struct SessionSnapshot"@,
            "struct SessionSnapshot with 1 element"@,
        ),
{
}

/// A lifecycle event holds its data under `data`, and so does an event of a status subscription,
/// whose data is a pane id and a status.
pub proof fn law_events_are_decoded(json: JsonView)
    ensures
        is_record_of_one(
            json,
            decoded_event(json),
            "data"@,
            |data: JsonView| decoded_event_data(data),
            "struct HerdrEvent"@,
            "struct HerdrEvent with 1 element"@,
        ),
        is_record_of_one(
            json,
            decoded_status_event(json),
            "data"@,
            |data: JsonView| decoded_pane(data, PaneForm::Reported),
            "struct SubscriptionEvent"@,
            "struct SubscriptionEvent with 1 element"@,
        ),
{
}

/// The data of a lifecycle event, as an object: `type` names the event, `pane` holds the pane that
/// was created and `pane_id` the one that was closed. Any other type is an event of another kind.
pub proof fn law_event_object_is_decoded(fields: Map<Seq<char>, JsonView>)
    ensures
        ({
            let decoded = decoded_event_data(JsonView::Object(fields));
            let tag = fields["type"@];
            let created = tag == JsonView::Text("pane_created"@);
            let closed = tag == JsonView::Text("pane_closed"@);
            &&& !fields.contains_key("type"@) ==> decoded == Err::<EventView, _>(
                DecodeErrorView::MissingField { field: "type"@ },
            )
            &&& fields.contains_key("type"@) && !(tag is Text) ==> decoded == Err::<EventView, _>(
                DecodeErrorView::InvalidType {
                    found: description(tag),
                    expected: "variant identifier"@,
                },
            )
            &&& fields.contains_key("type"@) && created ==> if fields.contains_key("pane"@) {
                match decoded_pane(fields["pane"@], PaneForm::Created) {
                    Ok(pane) => decoded == Ok::<_, DecodeErrorView>(EventView::PaneCreated(pane)),
                    Err(error) => decoded == Err::<EventView, _>(error),
                }
            } else {
                decoded == Err::<EventView, _>(DecodeErrorView::MissingField { field: "pane"@ })
            }
            &&& fields.contains_key("type"@) && closed ==> if fields.contains_key("pane_id"@) {
                match decoded_text(fields["pane_id"@]) {
                    Ok(pane_id) => decoded == Ok::<_, DecodeErrorView>(
                        EventView::PaneClosed(pane_id),
                    ),
                    Err(error) => decoded == Err::<EventView, _>(error),
                }
            } else {
                decoded == Err::<EventView, _>(DecodeErrorView::MissingField { field: "pane_id"@ })
            }
            &&& fields.contains_key("type"@) && tag is Text && !created && !closed ==> decoded
                == Ok::<_, DecodeErrorView>(EventView::Other)
        }),
{
    reveal_strlit("pane_created");
    reveal_strlit("pane_closed");
    assert("pane_created"@.len() != "pane_closed"@.len());
}

/// The data of a lifecycle event, as an array: the first item names the event, the second holds the
/// pane that was created or the id of the one that was closed, and nothing else may follow.
pub proof fn law_event_array_is_decoded(items: Seq<JsonView>)
    ensures
        ({
            let decoded = decoded_event_data(JsonView::Array(items));
            let tag = items[0];
            let created = tag == JsonView::Text("pane_created"@);
            let closed = tag == JsonView::Text("pane_closed"@);
            let pane = decoded_pane(items[1], PaneForm::Created);
            let id = decoded_text(items[1]);
            &&& items.len() == 0 ==> decoded == Err::<EventView, _>(
                DecodeErrorView::MissingField { field: "type"@ },
            )
            &&& items.len() > 0 && !(tag is Text) ==> decoded == Err::<EventView, _>(
                DecodeErrorView::InvalidType {
                    found: description(tag),
                    expected: "variant identifier"@,
                },
            )
            &&& items.len() == 1 && created ==> decoded == Err::<EventView, _>(
                DecodeErrorView::InvalidLength {
                    length: 0,
                    expected: "struct variant HerdrEventData::PaneCreated with 1 element"@,
                },
            )
            &&& items.len() == 1 && closed ==> decoded == Err::<EventView, _>(
                DecodeErrorView::InvalidLength {
                    length: 0,
                    expected: "struct variant HerdrEventData::PaneClosed with 1 element"@,
                },
            )
            &&& items.len() > 1 && created && pane is Err ==> decoded == Err::<EventView, _>(
                pane->Err_0,
            )
            &&& items.len() > 1 && closed && id is Err ==> decoded == Err::<EventView, _>(id->Err_0)
            &&& items.len() == 2 && created && pane is Ok ==> decoded == Ok::<_, DecodeErrorView>(
                EventView::PaneCreated(pane->Ok_0),
            )
            &&& items.len() == 2 && closed && id is Ok ==> decoded == Ok::<_, DecodeErrorView>(
                EventView::PaneClosed(id->Ok_0),
            )
            &&& items.len() > 2 && ((created && pane is Ok) || (closed && id is Ok)) ==> decoded
                == Err::<EventView, _>(
                DecodeErrorView::InvalidLength {
                    length: items.len() - 1,
                    expected: "1 element in sequence"@,
                },
            )
            &&& items.len() == 1 && tag is Text && !created && !closed ==> decoded == Ok::<
                _,
                DecodeErrorView,
            >(EventView::Other)
            &&& items.len() > 1 && tag is Text && !created && !closed ==> decoded == Err::<
                EventView,
                _,
            >(
                DecodeErrorView::InvalidLength {
                    length: items.len() - 1,
                    expected: "0 elements in sequence"@,
                },
            )
        }),
{
    reveal_strlit("pane_created");
    reveal_strlit("pane_closed");
    assert("pane_created"@.len() != "pane_closed"@.len());
}

/// A value that is neither an object nor an array is not the data of a lifecycle event.
pub proof fn law_other_values_are_not_event_data(data: JsonView)
    requires
        !(data is Object),
        !(data is Array),
    ensures
        decoded_event_data(data) == Err::<EventView, _>(
            DecodeErrorView::InvalidType {
                found: description(data),
                expected: "internally tagged enum HerdrEventData"@,
            },
        ),
{
}

/// The sentences that say what is wrong.
pub proof fn law_decode_sentences(
    found: Seq<char>,
    expected: Seq<char>,
    length: int,
    field: Seq<char>,
    name: Seq<char>,
)
    ensures
        decode_error_message(DecodeErrorView::InvalidType { found, expected })
            == "invalid type: "@ + found + ", expected "@ + expected,
        decode_error_message(DecodeErrorView::InvalidLength { length, expected })
            == "invalid length "@ + json_text(JsonView::Integer(length)) + ", expected "@
            + expected,
        decode_error_message(DecodeErrorView::NotOneKey)
            == "invalid value: map, expected map with a single key"@,
        decode_error_message(DecodeErrorView::MissingField { field }) == "missing field `"@ + field
            + "`"@,
        decode_error_message(DecodeErrorView::UnknownStatus { name }) == "unknown variant `"@ + name
            + "`, expected one of `idle`, `working`, `blocked`, `done`, `unknown`"@,
{
}

} // verus!
