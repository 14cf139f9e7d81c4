//! The requests that the library sends, each on a line of its own.
use crate::codec::{json_text, plain_within, reads_as, write_json, READABLE_DEPTH};
use crate::entries::entries_map;
use crate::json::{entry_views, item_views, Json, JsonView};
use vstd::prelude::*;
use vstd::string::StringExecFns;

verus! {

/// The id of the request that subscribes to lifecycle events.
pub open spec fn global_request_id() -> Seq<char> {
    "global-subscription"@
}

/// The id of the request that subscribes to the status changes of `pane_id`.
pub open spec fn status_request_id(pane_id: Seq<char>) -> Seq<char> {
    "status-subscription-"@ + pane_id
}

/// The id of the request for the session's snapshot.
pub open spec fn snapshot_request_id() -> Seq<char> {
    "session-snapshot"@
}

/// The id of the request that subscribes to lifecycle events.
pub fn global_id() -> (id: &'static str)
    ensures
        id@ == global_request_id(),
{
    "global-subscription"
}

/// The id of the request that subscribes to the status changes of `pane_id`.
pub fn status_id(pane_id: &str) -> (id: String)
    ensures
        id@ == status_request_id(pane_id@),
{
    "status-subscription-".to_owned().concat(pane_id)
}

/// The id of the request for the session's snapshot.
pub fn snapshot_id() -> (id: &'static str)
    ensures
        id@ == snapshot_request_id(),
{
    "session-snapshot"
}

/// A request: its id, the method that it calls and the method's parameters.
pub open spec fn request_view(id: Seq<char>, method: Seq<char>, params: JsonView) -> JsonView {
    JsonView::Object(
        map![
            "id"@ => JsonView::Text(id),
            "method"@ => JsonView::Text(method),
            "params"@ => params,
        ],
    )
}

/// The request for the events that `subscriptions` describe.
pub open spec fn subscribe_view(id: Seq<char>, subscriptions: Seq<JsonView>) -> JsonView {
    request_view(
        id,
        "events.subscribe"@,
        JsonView::Object(map!["subscriptions"@ => JsonView::Array(subscriptions)]),
    )
}

/// The subscription to one kind of event of the whole session.
pub open spec fn event_subscription(kind: Seq<char>) -> JsonView {
    JsonView::Object(map!["type"@ => JsonView::Text(kind)])
}

/// The subscription to the status changes of one pane.
pub open spec fn status_subscription(pane_id: Seq<char>) -> JsonView {
    JsonView::Object(
        map![
            "type"@ => JsonView::Text("pane.agent_status_changed"@),
            "pane_id"@ => JsonView::Text(pane_id),
        ],
    )
}

/// The request that subscribes to the creation and the closing of panes.
pub open spec fn global_subscription_view() -> JsonView {
    subscribe_view(
        global_request_id(),
        seq![event_subscription("pane.created"@), event_subscription("pane.closed"@)],
    )
}

/// The request that subscribes to the status changes of `pane_id`.
pub open spec fn status_subscription_view(pane_id: Seq<char>) -> JsonView {
    subscribe_view(status_request_id(pane_id), seq![status_subscription(pane_id)])
}

/// The request for the session's snapshot.
pub open spec fn snapshot_request_view() -> JsonView {
    request_view(
        snapshot_request_id(),
        "session.snapshot"@,
        JsonView::Object(Map::<Seq<char>, JsonView>::empty()),
    )
}

/// A text value.
fn text(characters: &str) -> (json: Json)
    ensures
        json@ == JsonView::Text(characters@),
{
    Json::Text(characters.to_owned())
}

/// An object with one entry.
fn object_of_one(key: &str, value: Json) -> (json: Json)
    ensures
        json@ == JsonView::Object(map![key@ => value@]),
{
    let mut entries: Vec<(String, Json)> = Vec::new();
    entries.push((key.to_owned(), value));
    proof {
        reveal_with_fuel(entries_map, 2);
        assert(entry_views(entries@) =~= seq![(key@, value@)]);
        assert(seq![(key@, value@)].drop_last() =~= seq![]);
    }
    Json::Object(entries)
}

/// An object with two entries.
fn object_of_two(first: &str, a: Json, second: &str, b: Json) -> (json: Json)
    ensures
        json@ == JsonView::Object(map![first@ => a@, second@ => b@]),
{
    let mut entries: Vec<(String, Json)> = Vec::new();
    entries.push((first.to_owned(), a));
    entries.push((second.to_owned(), b));
    proof {
        reveal_with_fuel(entries_map, 3);
        let views = seq![(first@, a@), (second@, b@)];
        assert(entry_views(entries@) =~= views);
        assert(views.drop_last() =~= seq![(first@, a@)]);
        assert(views.drop_last().drop_last() =~= seq![]);
    }
    Json::Object(entries)
}

/// An array with one item.
fn array_of_one(item: Json) -> (json: Json)
    ensures
        json@ == JsonView::Array(seq![item@]),
{
    let mut items: Vec<Json> = Vec::new();
    items.push(item);
    assert(item_views(items@) =~= seq![item@]);
    Json::Array(items)
}

/// A request: its id, the method that it calls and the method's parameters.
fn request(id: &str, method: &str, params: Json) -> (json: Json)
    ensures
        json@ == request_view(id@, method@, params@),
{
    let mut entries: Vec<(String, Json)> = Vec::new();
    entries.push(("id".to_owned(), text(id)));
    entries.push(("method".to_owned(), text(method)));
    entries.push(("params".to_owned(), params));
    proof {
        reveal_with_fuel(entries_map, 4);
        let first = ("id"@, JsonView::Text(id@));
        let second = ("method"@, JsonView::Text(method@));
        let views = seq![first, second, ("params"@, params@)];
        assert(entry_views(entries@) =~= views);
        assert(views.drop_last() =~= seq![first, second]);
        assert(views.drop_last().drop_last() =~= seq![first]);
        assert(views.drop_last().drop_last().drop_last() =~= seq![]);
    }
    Json::Object(entries)
}

/// The request for the events that `subscriptions`, an array, describes.
fn subscribe(id: &str, subscriptions: Json) -> (json: Json)
    requires
        subscriptions@ is Array,
    ensures
        json@ == subscribe_view(id@, subscriptions@->Array_0),
{
    request(id, "events.subscribe", object_of_one("subscriptions", subscriptions))
}

/// Builds the request that subscribes to the creation and the closing of panes.
pub fn global_subscription_request() -> (json: Json)
    ensures
        json@ == global_subscription_view(),
{
    let created = object_of_one("type", text("pane.created"));
    let closed = object_of_one("type", text("pane.closed"));
    let mut items: Vec<Json> = Vec::new();
    items.push(created);
    items.push(closed);
    assert(item_views(items@) =~= seq![created@, closed@]);
    subscribe(global_id(), Json::Array(items))
}

/// Builds the request that subscribes to the status changes of `pane_id`.
pub fn status_subscription_request(pane_id: &str) -> (json: Json)
    ensures
        json@ == status_subscription_view(pane_id@),
{
    let subscription = object_of_two(
        "type",
        text("pane.agent_status_changed"),
        "pane_id",
        text(pane_id),
    );
    subscribe(status_id(pane_id).as_str(), array_of_one(subscription))
}

/// Builds the request for the session's snapshot.
pub fn snapshot_request() -> (json: Json)
    ensures
        json@ == snapshot_request_view(),
{
    let params = Json::Object(Vec::new());
    assert(params@->Object_0 =~= Map::<Seq<char>, JsonView>::empty());
    request(snapshot_id(), "session.snapshot", params)
}

/// The line that a request is sent as.
pub open spec fn line_of(request: JsonView) -> Seq<char> {
    json_text(request).push('\n')
}

/// Writes a request as the line that it is sent as.
///
/// The line ends where its only line break stands. What precedes it is read back as the request
/// if that holds no number but integers and is not nested too deeply.
pub fn request_line(request: Json) -> (line: String)
    ensures
        line@ == line_of(request@),
        !json_text(request@).contains('\n'),
        plain_within(request@, READABLE_DEPTH as nat) ==> reads_as(json_text(request@), request@),
{
    let line = write_json(request).concat("\n");
    proof {
        reveal_strlit("\n");
        assert(line@ =~= line_of(request@));
    }
    line
}

/// A request holds no fraction, and is not nested too deeply, if that is so of its parameters.
proof fn lemma_request_plain(id: Seq<char>, method: Seq<char>, params: JsonView)
    requires
        plain_within(params, (READABLE_DEPTH - 1) as nat),
    ensures
        plain_within(request_view(id, method, params), READABLE_DEPTH as nat),
{
    let map = request_view(id, method, params)->Object_0;
    assert forall|key: Seq<char>| #[trigger] map.contains_key(key) implies plain_within(
        map[key],
        (READABLE_DEPTH - 1) as nat,
    ) by {}
}

/// A subscription request holds no fraction, and is not nested too deeply, if that is so of its
/// subscriptions.
proof fn lemma_subscribe_plain(id: Seq<char>, subscriptions: Seq<JsonView>)
    requires
        forall|i: int|
            0 <= i < subscriptions.len() ==> plain_within(
                #[trigger] subscriptions[i],
                (READABLE_DEPTH - 3) as nat,
            ),
    ensures
        plain_within(subscribe_view(id, subscriptions), READABLE_DEPTH as nat),
{
    let list = JsonView::Array(subscriptions);
    assert(plain_within(list, (READABLE_DEPTH - 2) as nat));
    let map = map!["subscriptions"@ => list];
    assert forall|key: Seq<char>| #[trigger] map.contains_key(key) implies plain_within(
        map[key],
        (READABLE_DEPTH - 2) as nat,
    ) by {}
    lemma_request_plain(id, "events.subscribe"@, JsonView::Object(map));
}

/// An object of texts holds no fraction, and is nested no deeper than itself.
proof fn lemma_texts_plain(map: Map<Seq<char>, JsonView>, depth: nat)
    requires
        depth > 0,
        forall|key: Seq<char>| #[trigger] map.contains_key(key) ==> map[key] is Text,
    ensures
        plain_within(JsonView::Object(map), depth),
{
    reveal_with_fuel(plain_within, 2);
}

/// `line` is what `request` is sent as: a text without line breaks that reads back as the
/// request, and a line break.
pub open spec fn sends(line: Seq<char>, request: JsonView) -> bool {
    &&& line == line_of(request)
    &&& !json_text(request).contains('\n')
    &&& reads_as(json_text(request), request)
}

/// The line that subscribes to the creation and the closing of panes.
pub fn global_subscription_line() -> (line: String)
    ensures
        sends(line@, global_subscription_view()),
{
    proof {
        let created = event_subscription("pane.created"@);
        let closed = event_subscription("pane.closed"@);
        lemma_texts_plain(created->Object_0, (READABLE_DEPTH - 3) as nat);
        lemma_texts_plain(closed->Object_0, (READABLE_DEPTH - 3) as nat);
        lemma_subscribe_plain(global_request_id(), seq![created, closed]);
    }
    request_line(global_subscription_request())
}

/// The line that subscribes to the status changes of `pane_id`.
pub fn status_subscription_line(pane_id: &str) -> (line: String)
    ensures
        sends(line@, status_subscription_view(pane_id@)),
{
    proof {
        let subscription = status_subscription(pane_id@);
        lemma_texts_plain(subscription->Object_0, (READABLE_DEPTH - 3) as nat);
        lemma_subscribe_plain(status_request_id(pane_id@), seq![subscription]);
    }
    request_line(status_subscription_request(pane_id))
}

/// The line that asks for the session's snapshot.
pub fn snapshot_request_line() -> (line: String)
    ensures
        sends(line@, snapshot_request_view()),
{
    proof {
        lemma_request_plain(
            snapshot_request_id(),
            "session.snapshot"@,
            JsonView::Object(Map::<Seq<char>, JsonView>::empty()),
        );
    }
    request_line(snapshot_request())
}

} // verus!
