//! The event stream of a response: what the upstream sends, rewritten into
//! what the client understands.
use vstd::prelude::*;

use crate::codec::{one_line, render_text, text_of_json};
use crate::json::{json_view, list_view, lookup, pair, text_of, with_default};
use crate::json::{Json, JsonObject, JsonView};
use crate::protocol::{empty_list, empty_text};
use crate::sse::{decoded, event_bytes, fed, fresh, lemma_event_is_read_back, settled, FrameView};
use crate::table::TextTable;
use crate::text::{is_text, optional_text, owned, same_text};

verus! {

/// What a function call of the stream is named.
pub struct CallMetadata {
    pub name: Option<String>,
    pub call_id: Option<String>,
}

/// What the names of a function call hold.
pub struct CallView {
    pub name: Option<Seq<char>>,
    pub call_id: Option<Seq<char>>,
}

impl View for CallMetadata {
    type V = CallView;

    open spec fn view(&self) -> CallView {
        CallView { name: optional_text(self.name), call_id: optional_text(self.call_id) }
    }
}

/// What the stream has shown so far.
pub struct StreamView {
    /// The output items by their index, in ascending order.
    pub items: Seq<(usize, JsonView)>,
    /// The output index of each item id.
    pub indices: Map<Seq<char>, usize>,
    /// The names of each function call, by item id and by call id.
    pub calls: Map<Seq<char>, CallView>,
}

/// Rewrites the events of one response, one after the other.
pub struct StreamTransformer {
    items: Vec<(usize, Json)>,
    indices: TextTable<usize>,
    calls: TextTable<CallMetadata>,
}

/// What the recorded items hold.
pub open spec fn items_view(items: Seq<(usize, Json)>) -> Seq<(usize, JsonView)> {
    items.map_values(|item: (usize, Json)| (item.0, item.1@))
}

impl View for StreamTransformer {
    type V = StreamView;

    closed spec fn view(&self) -> StreamView {
        StreamView {
            items: items_view(self.items@),
            indices: self.indices@,
            calls: self.calls@,
        }
    }
}

/// Whether the indices of the items ascend.
pub open spec fn indices_ascend(items: Seq<(usize, JsonView)>) -> bool {
    forall|i: int, j: int| 0 <= i < j < items.len() ==> (#[trigger] items[i]).0 < (#[trigger] items[j]).0
}

/// Whether there is an item of this index.
pub open spec fn has_index(items: Seq<(usize, JsonView)>, index: usize) -> bool {
    exists|i: int| 0 <= i < items.len() && (#[trigger] items[i]).0 == index
}

/// The items with `item` at `index`, in place of what was there.
pub open spec fn with_item(
    items: Seq<(usize, JsonView)>,
    index: usize,
    item: JsonView,
) -> Seq<(usize, JsonView)>
    decreases items.len(),
{
    if items.len() == 0 {
        seq![(index, item)]
    } else if items.last().0 < index {
        items.push((index, item))
    } else if items.last().0 == index {
        items.drop_last().push((index, item))
    } else {
        with_item(items.drop_last(), index, item).push(items.last())
    }
}

/// One summary text of a reasoning item as the client gets it.
pub open spec fn summary_part(part: JsonView) -> Option<JsonView> {
    match part {
        JsonView::Text(text) => Some(crate::protocol::text_part("summary_text"@, text)),
        JsonView::Object(fields) => {
            let kind = text_of(lookup(fields, "type"@));
            if kind is None || kind == Some("summary_text"@) {
                Some(
                    crate::protocol::text_part(
                        "summary_text"@,
                        match text_of(lookup(fields, "text"@)) {
                            Some(text) => text,
                            None => Seq::empty(),
                        },
                    ),
                )
            } else {
                None
            }
        },
        _ => None,
    }
}

/// The summary texts of a reasoning item as the client gets them.
pub open spec fn summary_parts(parts: Seq<JsonView>) -> Seq<JsonView>
    decreases parts.len(),
{
    if parts.len() == 0 {
        Seq::empty()
    } else {
        match summary_part(parts.last()) {
            Some(part) => summary_parts(parts.drop_last()).push(part),
            None => summary_parts(parts.drop_last()),
        }
    }
}

/// The list under `key`; empty, where there is none.
pub open spec fn list_field(fields: Map<Seq<char>, JsonView>, key: Seq<char>) -> Seq<JsonView> {
    match lookup(fields, key) {
        Some(JsonView::List(items)) => items,
        _ => Seq::empty(),
    }
}

/// A reasoning item as the client gets it: no content, and a summary of plain
/// texts.
pub open spec fn normalized_reasoning_item(item: Map<Seq<char>, JsonView>) -> Map<
    Seq<char>,
    JsonView,
> {
    item.insert("content"@, JsonView::List(Seq::empty())).insert(
        "summary"@,
        JsonView::List(summary_parts(list_field(item, "summary"@))),
    )
}

fn summarize(part: Json) -> (r: Option<Json>)
    ensures
        crate::json::optional_view(r) == summary_part(part@),
{
    let text: String = match part {
        Json::Text(text) => text,
        Json::Object(object) => {
            let plain = match object.text_field("type") {
                None => true,
                Some(kind) => same_text(kind, "summary_text"),
            };
            if !plain {
                return None;
            }
            match object.text_field("text") {
                Some(text) => text.to_owned(),
                None => String::new(),
            }
        },
        _ => return None,
    };
    Some(Json::pair("type", Json::string("summary_text"), "text", Json::Text(text)))
}

/// Takes the list under `key` out; an empty one, where there is none.
fn take_list(object: &mut JsonObject, key: &str) -> (items: Vec<Json>)
    ensures
        list_view(items@) == list_field(old(object)@, key@),
        final(object)@ == old(object)@.remove(key@),
{
    match object.remove(key) {
        Some(Json::List(items)) => items,
        _ => {
            let items: Vec<Json> = Vec::new();
            assert(list_view(items@) =~= Seq::empty());
            items
        },
    }
}

/// Rewrites a reasoning item for the client.
pub fn normalize_reasoning_item(item: &mut JsonObject)
    ensures
        final(item)@ == normalized_reasoning_item(old(item)@),
{
    let ghost before = item@;
    let parts = take_list(item, "summary");
    let ghost views = list_view(parts@);
    let mut summary: Vec<Json> = Vec::new();
    proof {
        assert(views.subrange(0, 0) =~= Seq::empty());
        assert(list_view(summary@) =~= Seq::empty());
    }
    for part in it: parts
        invariant
            it.seq() == parts@,
            views == list_view(parts@),
            list_view(summary@) == summary_parts(views.subrange(0, it.index() as int)),
    {
        let ghost i = it.index() as int;
        let ghost summary_before = summary@;
        proof {
            assert(views.subrange(0, i + 1).drop_last() =~= views.subrange(0, i));
            assert(views.subrange(0, i + 1).last() == json_view(part));
        }
        if let Some(text) = summarize(part) {
            summary.push(text);
            assert(list_view(summary@) =~= list_view(summary_before).push(text@));
        }
    }
    assert(views.subrange(0, views.len() as int) =~= views);
    item.insert("content", empty_list());
    item.insert("summary", Json::List(summary));
    assert(item@ =~= normalized_reasoning_item(before));
}

/// An output item as the client gets it at the end of a response.
pub open spec fn normalized_output_item(item: JsonView) -> JsonView {
    match item {
        JsonView::Object(fields) => if text_of(lookup(fields, "type"@)) == Some("reasoning"@) {
            JsonView::Object(normalized_reasoning_item(fields))
        } else {
            item
        },
        _ => item,
    }
}

/// Rewrites an output item for the end of a response.
pub fn normalize_reasoning_value(value: Json) -> (json: Json)
    ensures
        json@ == normalized_output_item(value@),
{
    match value {
        Json::Object(object) => {
            let mut object = object;
            if is_text(object.text_field("type"), "reasoning") {
                normalize_reasoning_item(&mut object);
            }
            Json::Object(object)
        },
        other => other,
    }
}

/// The events that are not forwarded.
pub open spec fn dropped_event(kind: Seq<char>) -> bool {
    ||| kind == "keepalive"@
    ||| kind == "response.metadata"@
    ||| kind == "response.reasoning_text.delta"@
    ||| kind == "response.reasoning_text.done"@
}

/// The events that carry an output item.
pub open spec fn item_event(kind: Seq<char>) -> bool {
    kind == "response.output_item.added"@ || kind == "response.output_item.done"@
}

/// The events that carry a piece of a reasoning summary.
pub open spec fn summary_event(kind: Seq<char>) -> bool {
    kind == "response.reasoning_summary_text.delta"@ || kind
        == "response.reasoning_summary_text.done"@
}

/// The events that carry a piece of the arguments of a function call.
pub open spec fn arguments_event(kind: Seq<char>) -> bool {
    kind == "response.function_call_arguments.delta"@ || kind
        == "response.function_call_arguments.done"@
}

/// The output index that an event names; zero, where it names none.
pub open spec fn output_index(payload: JsonView) -> usize {
    match payload.unsigned_field("output_index"@) {
        Some(index) => if index <= usize::MAX {
            index as usize
        } else {
            0
        },
        None => 0,
    }
}

/// An output item as the client gets it.
pub open spec fn patched_item(item: Map<Seq<char>, JsonView>, done: bool) -> Map<
    Seq<char>,
    JsonView,
> {
    let kind = text_of(lookup(item, "type"@));
    if kind == Some("reasoning"@) {
        normalized_reasoning_item(item)
    } else if kind == Some("function_call"@) {
        with_default(
            with_default(
                item,
                "status"@,
                JsonView::Text(
                    if done {
                        "completed"@
                    } else {
                        "in_progress"@
                    },
                ),
            ),
            "arguments"@,
            JsonView::Text(Seq::empty()),
        )
    } else {
        item
    }
}

/// The names of a function call, as an output item gives them.
pub open spec fn call_names(item: Map<Seq<char>, JsonView>) -> CallView {
    CallView {
        name: text_of(lookup(item, "name"@)),
        call_id: text_of(lookup(item, "call_id"@)),
    }
}

/// The table with `value` under the text, where there is one.
pub open spec fn with_row<V>(rows: Map<Seq<char>, V>, key: Option<Seq<char>>, value: V) -> Map<
    Seq<char>,
    V,
> {
    match key {
        Some(key) => rows.insert(key, value),
        None => rows,
    }
}

/// What the stream has shown once an output item came by.
pub open spec fn with_output_item(
    state: StreamView,
    item: Map<Seq<char>, JsonView>,
    index: usize,
    done: bool,
) -> StreamView {
    let patched = patched_item(item, done);
    let id = text_of(lookup(item, "id"@));
    StreamView {
        items: if done || !has_index(state.items, index) {
            with_item(state.items, index, JsonView::Object(patched))
        } else {
            state.items
        },
        indices: with_row(state.indices, id, index),
        calls: if text_of(lookup(item, "type"@)) == Some("function_call"@) {
            with_row(
                with_row(state.calls, id, call_names(item)),
                text_of(lookup(item, "call_id"@)),
                call_names(item),
            )
        } else {
            state.calls
        },
    }
}

/// An event with a field that it lacked.
pub open spec fn with_missing(payload: JsonView, key: Seq<char>, value: JsonView) -> JsonView {
    match payload {
        JsonView::Object(fields) => JsonView::Object(with_default(fields, key, value)),
        _ => payload,
    }
}

/// An event with the output index of its item, where it lacks one.
pub open spec fn with_index_of(state: StreamView, payload: JsonView, id: Seq<char>) -> JsonView {
    if state.indices.dom().contains(id) {
        with_missing(
            payload,
            "output_index"@,
            JsonView::Unsigned(state.indices[id] as u64),
        )
    } else {
        payload
    }
}

/// An event with the text under `key`, where there is one and it lacks it.
pub open spec fn with_missing_text(
    payload: JsonView,
    key: Seq<char>,
    text: Option<Seq<char>>,
) -> JsonView {
    match text {
        Some(text) => with_missing(payload, key, JsonView::Text(text)),
        None => payload,
    }
}

/// A summary event with the output index of its item.
pub open spec fn with_reasoning_index(state: StreamView, payload: JsonView) -> JsonView {
    match payload.text_field("item_id"@) {
        Some(id) => with_index_of(state, payload, id),
        None => payload,
    }
}

/// An arguments event with the output index of its item and the names of its
/// function call.
pub open spec fn with_function_metadata(state: StreamView, payload: JsonView) -> JsonView {
    let id = match payload.text_field("item_id"@) {
        Some(id) => id,
        None => Seq::empty(),
    };
    let indexed = with_index_of(state, payload, id);
    if state.calls.dom().contains(id) {
        with_missing_text(
            with_missing_text(indexed, "call_id"@, state.calls[id].call_id),
            "name"@,
            state.calls[id].name,
        )
    } else {
        indexed
    }
}

/// The output of a response: what it says itself, with its reasoning items
/// rewritten, and where that is nothing, what the stream has shown.
pub open spec fn completed_output(state: StreamView, output: Seq<JsonView>) -> Seq<JsonView> {
    if output.len() == 0 {
        state.items.map_values(|item: (usize, JsonView)| item.1)
    } else {
        output.map_values(|item: JsonView| normalized_output_item(item))
    }
}

/// Whether some item of an output is a reasoning item.
pub open spec fn has_reasoning(output: Seq<JsonView>) -> bool {
    exists|i: int|
        0 <= i < output.len() && (#[trigger] output[i]).text_field("type"@) == Some("reasoning"@)
}

/// The last event of a response with its output.
pub open spec fn with_completed_output(state: StreamView, payload: JsonView) -> JsonView {
    match payload {
        JsonView::Object(fields) => match lookup(fields, "response"@) {
            Some(JsonView::Object(response)) => {
                let output = list_field(response, "output"@);
                if output.len() == 0 || has_reasoning(output) {
                    JsonView::Object(
                        fields.insert(
                            "response"@,
                            JsonView::Object(
                                response.insert(
                                    "output"@,
                                    JsonView::List(completed_output(state, output)),
                                ),
                            ),
                        ),
                    )
                } else {
                    payload
                }
            },
            _ => payload,
        },
        _ => payload,
    }
}

/// What the stream has shown once an event came by.
pub open spec fn next_state(state: StreamView, payload: JsonView) -> StreamView {
    match payload.text_field("type"@) {
        Some(kind) => match payload.field("item"@) {
            Some(JsonView::Object(item)) => if item_event(kind) {
                with_output_item(
                    state,
                    item,
                    output_index(payload),
                    kind == "response.output_item.done"@,
                )
            } else {
                state
            },
            _ => state,
        },
        None => state,
    }
}

/// The event with its output item as the client gets it.
pub open spec fn with_patched_item(payload: JsonView, done: bool) -> JsonView {
    match payload {
        JsonView::Object(fields) => match lookup(fields, "item"@) {
            Some(JsonView::Object(item)) => JsonView::Object(
                fields.insert("item"@, JsonView::Object(patched_item(item, done))),
            ),
            _ => payload,
        },
        _ => payload,
    }
}

/// The event as the client gets it; none, where it is not forwarded.
pub open spec fn forwarded(state: StreamView, payload: JsonView) -> Option<JsonView> {
    match payload.text_field("type"@) {
        Some(kind) => if dropped_event(kind) {
            None
        } else if item_event(kind) {
            Some(with_patched_item(payload, kind == "response.output_item.done"@))
        } else if summary_event(kind) {
            Some(with_reasoning_index(state, payload))
        } else if arguments_event(kind) {
            Some(with_function_metadata(state, payload))
        } else if kind == "response.completed"@ {
            Some(with_completed_output(state, payload))
        } else {
            Some(payload)
        },
        None => None,
    }
}

/// A stream that has shown nothing yet.
pub open spec fn untouched() -> StreamView {
    StreamView { items: Seq::empty(), indices: Map::empty(), calls: Map::empty() }
}

/// What a stream has shown once these events came by.
pub open spec fn state_after(events: Seq<JsonView>) -> StreamView
    decreases events.len(),
{
    if events.len() == 0 {
        untouched()
    } else {
        next_state(state_after(events.drop_last()), events.last())
    }
}

/// Whether an event carries an output item of this index.
pub open spec fn shows(event: JsonView, index: usize) -> bool {
    &&& event.text_field("type"@) matches Some(kind) && item_event(kind)
    &&& event.field("item"@) matches Some(JsonView::Object(_))
    &&& output_index(event) == index
}

/// Whether an event carries an output item of this index that is done.
pub open spec fn finishes(event: JsonView, index: usize) -> bool {
    shows(event, index) && event.text_field("type"@) == Some("response.output_item.done"@)
}

/// Whether one of the events carries an output item of this index.
pub open spec fn shown(events: Seq<JsonView>, index: usize) -> bool {
    exists|i: int| 0 <= i < events.len() && shows(#[trigger] events[i], index)
}

/// Whether one of the events carries an output item of this index that is done.
pub open spec fn finished(events: Seq<JsonView>, index: usize) -> bool {
    exists|i: int| 0 <= i < events.len() && finishes(#[trigger] events[i], index)
}

/// Whether the event at position `at` is the one whose item stays at this index:
/// the last one with an item that is done, and where there is none, the first one
/// with an item.
pub open spec fn governs(events: Seq<JsonView>, index: usize, at: int) -> bool {
    &&& 0 <= at < events.len()
    &&& shows(events[at], index)
    &&& if finished(events, index) {
        finishes(events[at], index) && forall|i: int|
            at < i < events.len() ==> !finishes(#[trigger] events[i], index)
    } else {
        forall|i: int| 0 <= i < at ==> !shows(#[trigger] events[i], index)
    }
}

/// The output item of an event, as the client gets it.
pub open spec fn item_shown(event: JsonView) -> JsonView {
    match event.field("item"@) {
        Some(JsonView::Object(item)) => JsonView::Object(
            patched_item(item, event.text_field("type"@) == Some("response.output_item.done"@)),
        ),
        _ => JsonView::Null,
    }
}

/// Whether an item at an index is the one that the events leave there.
pub open spec fn stays(events: Seq<JsonView>, entry: (usize, JsonView)) -> bool {
    exists|at: int| #[trigger]
        governs(events, entry.0, at) && entry.1 == item_shown(events[at])
}

proof fn lemma_put(items: Seq<(usize, JsonView)>, at: int, index: usize, item: JsonView)
    requires
        0 <= at <= items.len(),
        forall|i: int| at <= i < items.len() ==> (#[trigger] items[i]).0 > index,
        at > 0 ==> items[at - 1].0 <= index,
    ensures
        with_item(items, index, item) == (if at > 0 && items[at - 1].0 == index {
            items.update(at - 1, (index, item))
        } else {
            items.insert(at, (index, item))
        }),
    decreases items.len(),
{
    if items.len() == 0 {
        assert(items.insert(at, (index, item)) =~= seq![(index, item)]);
    } else if at == items.len() {
        if items.last().0 == index {
            assert(items.update(at - 1, (index, item)) =~= items.drop_last().push((index, item)));
        } else {
            assert(items.insert(at, (index, item)) =~= items.push((index, item)));
        }
    } else {
        let front = items.drop_last();
        assert forall|i: int| at <= i < front.len() implies (#[trigger] front[i]).0 > index by {
            assert(items[i].0 > index);
        }
        assert(items.last().0 > index);
        lemma_put(front, at, index, item);
        if at > 0 && items[at - 1].0 == index {
            assert(items.update(at - 1, (index, item)) =~= front.update(
                at - 1,
                (index, item),
            ).push(items.last()));
        } else {
            assert(items.insert(at, (index, item)) =~= front.insert(at, (index, item)).push(
                items.last(),
            ));
        }
    }
}

impl Default for StreamTransformer {
    /// A stream that has shown nothing yet.
    fn default() -> (transformer: StreamTransformer)
        ensures
            transformer@ == untouched(),
    {
        let items: Vec<(usize, Json)> = Vec::new();
        assert(items_view(items@) =~= Seq::empty());
        StreamTransformer { items, indices: TextTable::new(), calls: TextTable::new() }
    }
}

fn is_item_event(kind: &str) -> (r: bool)
    ensures
        r == item_event(kind@),
{
    same_text(kind, "response.output_item.added") || same_text(kind, "response.output_item.done")
}

fn is_dropped_event(kind: &str) -> (r: bool)
    ensures
        r == dropped_event(kind@),
{
    same_text(kind, "keepalive") || same_text(kind, "response.metadata") || same_text(
        kind,
        "response.reasoning_text.delta",
    ) || same_text(kind, "response.reasoning_text.done")
}

/// Puts a field into an event that lacks it.
fn insert_missing(payload: &mut Json, key: &str, value: Json)
    ensures
        final(payload)@ == with_missing(old(payload)@, key@, value@),
{
    match payload {
        Json::Object(object) => {
            object.insert_missing(key, value);
        },
        _ => {},
    }
}

impl StreamTransformer {
    fn has_item(&self, index: usize) -> (r: bool)
        ensures
            r == has_index(self@.items, index),
    {
        let mut i: usize = 0;
        while i < self.items.len()
            invariant
                i <= self.items@.len(),
                forall|j: int| 0 <= j < i ==> (#[trigger] self@.items[j]).0 != index,
            decreases self.items@.len() - i,
        {
            if self.items[i].0 == index {
                assert(self@.items[i as int].0 == index);
                return true;
            }
            i = i + 1;
        }
        false
    }

    fn put_item(&mut self, index: usize, item: Json)
        ensures
            final(self)@ == (StreamView {
                items: with_item(old(self)@.items, index, item@),
                ..old(self)@
            }),
    {
        let ghost before = self.items@;
        let ghost views = items_view(before);
        let mut at: usize = self.items.len();
        while at > 0 && self.items[at - 1].0 > index
            invariant
                at <= self.items@.len(),
                self.items@ == before,
                self@ == old(self)@,
                forall|i: int| at <= i < before.len() ==> (#[trigger] before[i]).0 > index,
            decreases at,
        {
            at = at - 1;
        }
        proof {
            assert forall|i: int| at <= i < views.len() implies (#[trigger] views[i]).0 > index by {
                assert(before[i].0 > index);
            }
            lemma_put(views, at as int, index, item@);
        }
        if at > 0 && self.items[at - 1].0 == index {
            let _ = self.items.remove(at - 1);
            self.items.insert(at - 1, (index, item));
            assert(items_view(self.items@) =~= views.update(at - 1, (index, item@)));
        } else {
            self.items.insert(at, (index, item));
            assert(items_view(self.items@) =~= views.insert(at as int, (index, item@)));
        }
    }

    /// Records an output item and rewrites it for the client.
    fn record_item(&mut self, item: &mut JsonObject, index: usize, done: bool)
        ensures
            final(self)@ == with_output_item(old(self)@, old(item)@, index, done),
            final(item)@ == patched_item(old(item)@, done),
    {
        let ghost given = item@;
        let id = owned(item.text_field("id"));
        if let Some(id) = &id {
            self.indices.insert(id.as_str(), index);
        }
        if is_text(item.text_field("type"), "reasoning") {
            proof {
                reveal_strlit("reasoning");
                reveal_strlit("function_call");
                assert("reasoning"@.len() != "function_call"@.len());
            }
            normalize_reasoning_item(item);
        } else if is_text(item.text_field("type"), "function_call") {
            let name = owned(item.text_field("name"));
            let call_id = owned(item.text_field("call_id"));
            let status: &str = if done {
                "completed"
            } else {
                "in_progress"
            };
            item.insert_missing("status", Json::string(status));
            item.insert_missing("arguments", empty_text());
            if let Some(id) = &id {
                self.calls.insert(
                    id.as_str(),
                    CallMetadata { name: name.clone(), call_id: call_id.clone() },
                );
            }
            if let Some(key) = call_id.clone() {
                self.calls.insert(key.as_str(), CallMetadata { name, call_id });
            }
        }
        if done || !self.has_item(index) {
            self.put_item(index, Json::Object(item.clone()));
        }
    }

    fn transform_output_item(&mut self, payload: Json, kind: &str) -> (json: Json)
        requires
            item_event(kind@),
            payload@.text_field("type"@) == Some(kind@),
        ensures
            final(self)@ == next_state(old(self)@, payload@),
            json@ == with_patched_item(payload@, kind@ == "response.output_item.done"@),
    {
        let index: usize = match payload.unsigned_field("output_index") {
            Some(index) => if index <= usize::MAX as u64 {
                index as usize
            } else {
                0
            },
            None => 0,
        };
        let done = same_text(kind, "response.output_item.done");
        match payload {
            Json::Object(object) => {
                let mut object = object;
                let item: Option<JsonObject> = match object.get("item") {
                    Some(Json::Object(item)) => Some(item.clone()),
                    _ => None,
                };
                if let Some(item) = item {
                    let mut item = item;
                    self.record_item(&mut item, index, done);
                    object.insert("item", Json::Object(item));
                }
                Json::Object(object)
            },
            other => other,
        }
    }

    fn attach_index(&self, payload: &mut Json, id: &str)
        ensures
            final(payload)@ == with_index_of(self@, old(payload)@, id@),
    {
        if let Some(index) = self.indices.get(id) {
            insert_missing(payload, "output_index", Json::unsigned(*index as u64));
        }
    }

    fn attach_reasoning_index(&self, payload: &mut Json)
        ensures
            final(payload)@ == with_reasoning_index(self@, old(payload)@),
    {
        let id = owned(payload.text_field("item_id"));
        if let Some(id) = id {
            self.attach_index(payload, id.as_str());
        }
    }

    fn attach_function_metadata(&self, payload: &mut Json)
        ensures
            final(payload)@ == with_function_metadata(self@, old(payload)@),
    {
        let id: String = match payload.text_field("item_id") {
            Some(id) => id.to_owned(),
            None => String::new(),
        };
        self.attach_index(payload, id.as_str());
        if let Some(metadata) = self.calls.get(id.as_str()) {
            if let Some(call_id) = &metadata.call_id {
                insert_missing(payload, "call_id", Json::string(call_id.as_str()));
            }
            if let Some(name) = &metadata.name {
                insert_missing(payload, "name", Json::string(name.as_str()));
            }
        }
    }

    fn recorded_items(&self) -> (items: Vec<Json>)
        ensures
            list_view(items@) == self@.items.map_values(|item: (usize, JsonView)| item.1),
    {
        let mut out: Vec<Json> = Vec::new();
        let mut i: usize = 0;
        while i < self.items.len()
            invariant
                i <= self.items@.len(),
                out@.len() == i,
                forall|j: int|
                    0 <= j < i ==> json_view(#[trigger] out@[j]) == json_view(self.items@[j].1),
            decreases self.items@.len() - i,
        {
            out.push(self.items[i].1.clone());
            i = i + 1;
        }
        assert(list_view(out@) =~= self@.items.map_values(|item: (usize, JsonView)| item.1));
        out
    }

    fn patch_completed(&self, payload: Json) -> (json: Json)
        ensures
            json@ == with_completed_output(self@, payload@),
    {
        let mut fields = match payload {
            Json::Object(fields) => fields,
            other => return other,
        };
        let ghost given = fields@;
        let mut response: JsonObject = match fields.get("response") {
            Some(Json::Object(response)) => response.clone(),
            _ => return Json::Object(fields),
        };
        let ghost response_view = response@;
        let output = take_list(&mut response, "output");
        let ghost views = list_view(output@);
        let mut normalized: Vec<Json> = Vec::new();
        let mut reasoning = false;
        for item in it: output
            invariant
                it.seq() == output@,
                views == list_view(output@),
                normalized@.len() == it.index(),
                forall|j: int|
                    0 <= j < normalized@.len() ==> json_view(#[trigger] normalized@[j])
                        == normalized_output_item(views[j]),
                reasoning == exists|j: int|
                    0 <= j < it.index() && (#[trigger] views[j]).text_field("type"@) == Some(
                        "reasoning"@,
                    ),
        {
            proof {
                assert(views[it.index() as int] == json_view(item));
            }
            if is_text(item.text_field("type"), "reasoning") {
                assert(views[it.index() as int].text_field("type"@) == Some("reasoning"@));
                reasoning = true;
            }
            normalized.push(normalize_reasoning_value(item));
        }
        if normalized.len() == 0 || reasoning {
            let patched: Vec<Json> = if normalized.len() == 0 {
                self.recorded_items()
            } else {
                assert(list_view(normalized@) =~= views.map_values(
                    |item: JsonView| normalized_output_item(item),
                ));
                normalized
            };
            response.insert("output", Json::List(patched));
            proof {
                assert(response@ =~= response_view.insert(
                    "output"@,
                    JsonView::List(completed_output(self@, views)),
                ));
            }
            fields.insert("response", Json::Object(response));
        }
        Json::Object(fields)
    }

    /// Rewrites one event for the client; nothing comes out of an event that
    /// is not forwarded.
    pub fn transform(&mut self, payload: Json) -> (r: Option<Json>)
        ensures
            crate::json::optional_view(r) == forwarded(old(self)@, payload@),
            final(self)@ == next_state(old(self)@, payload@),
    {
        let kind: String = match payload.text_field("type") {
            Some(kind) => kind.to_owned(),
            None => return None,
        };
        let kind: &str = kind.as_str();
        if is_item_event(kind) {
            proof {
                lemma_item_events_are_forwarded(kind@);
            }
            return Some(self.transform_output_item(payload, kind));
        }
        if is_dropped_event(kind) {
            return None;
        }
        let mut payload = payload;
        if same_text(kind, "response.reasoning_summary_text.delta") || same_text(
            kind,
            "response.reasoning_summary_text.done",
        ) {
            self.attach_reasoning_index(&mut payload);
        } else if same_text(kind, "response.function_call_arguments.delta") || same_text(
            kind,
            "response.function_call_arguments.done",
        ) {
            self.attach_function_metadata(&mut payload);
        } else if same_text(kind, "response.completed") {
            payload = self.patch_completed(payload);
        }
        Some(payload)
    }
}

/// No event that carries an output item is dropped.
proof fn lemma_item_events_are_forwarded(kind: Seq<char>)
    requires
        item_event(kind),
    ensures
        !dropped_event(kind),
{
    reveal_strlit("response.output_item.added");
    reveal_strlit("response.output_item.done");
    reveal_strlit("keepalive");
    reveal_strlit("response.metadata");
    reveal_strlit("response.reasoning_text.delta");
    reveal_strlit("response.reasoning_text.done");
    assert("response.output_item.added"@.len() == 26);
    assert("response.output_item.done"@.len() == 25);
    assert("keepalive"@.len() == 9);
    assert("response.metadata"@.len() == 17);
    assert("response.reasoning_text.delta"@.len() == 29);
    assert("response.reasoning_text.done"@.len() == 28);
}

/// The bytes of a server-sent event that carries the value.
pub open spec fn sse_bytes(payload: JsonView) -> Seq<u8> {
    event_bytes(text_of_json(payload))
}

/// Writes a server-sent event that carries the value: one line of data and an
/// empty line. A decoder that has read nothing yet reads from it one frame of
/// data, with the text of the value, and holds nothing afterwards.
pub fn sse_data(payload: &Json) -> (bytes: Vec<u8>)
    ensures
        bytes@ == sse_bytes(payload@),
        one_line(text_of_json(payload@)),
        decoded(fed(fresh(), bytes@)) == seq![FrameView::Data(text_of_json(payload@))],
        settled(fed(fresh(), bytes@)) == fresh(),
{
    let text = render_text(payload);
    proof {
        reveal_strlit("[DONE]");
        assert("[DONE]"@.len() == 6 && "[DONE]"@[0] == '[' && "[DONE]"@[1] == 'D');
        lemma_event_is_read_back(text@);
    }
    let framed = crate::text::concat3("data: ", text.as_str(), "\n\n");
    framed.as_str().as_bytes_vec()
}

/// The event that ends a response that failed.
pub open spec fn failure_event(code: Seq<char>, message: Seq<char>) -> JsonView {
    pair(
        "type"@,
        JsonView::Text("response.failed"@),
        "response"@,
        pair(
            "status"@,
            JsonView::Text("failed"@),
            "error"@,
            pair("code"@, JsonView::Text(code), "message"@, JsonView::Text(message)),
        ),
    )
}

/// Makes the event that ends a response that failed.
pub fn failed_event(code: &str, message: &str) -> (json: Json)
    ensures
        json@ == failure_event(code@, message@),
{
    let error = Json::pair("code", Json::string(code), "message", Json::string(message));
    let response = Json::pair("status", Json::string("failed"), "error", error);
    Json::pair("type", Json::string("response.failed"), "response", response)
}

/// The tokens that a response used, as far as it says.
#[derive(Clone, Copy, Debug, PartialEq, Eq)]
pub struct ObservedUsage {
    pub input_tokens: Option<u64>,
    pub output_tokens: Option<u64>,
    pub total_tokens: Option<u64>,
}

impl Default for ObservedUsage {
    /// Nothing is known of the tokens.
    fn default() -> (usage: ObservedUsage)
        ensures
            usage == (ObservedUsage { input_tokens: None, output_tokens: None, total_tokens: None }),
    {
        ObservedUsage { input_tokens: None, output_tokens: None, total_tokens: None }
    }
}

/// The value under two keys, one inside the other.
pub open spec fn nested_field(json: JsonView, outer: Seq<char>, inner: Seq<char>) -> Option<
    JsonView,
> {
    match json.field(outer) {
        Some(value) => value.field(inner),
        None => None,
    }
}

/// The value under two keys, one inside the other.
pub fn nested<'a>(json: &'a Json, outer: &str, inner: &str) -> (r: Option<&'a Json>)
    ensures
        crate::json::optional_ref(r) == nested_field(json@, outer@, inner@),
{
    match json.get(outer) {
        Some(value) => value.get(inner),
        None => None,
    }
}

/// The usage that the last event of a response reports. A total that is not
/// given is the sum of the other two, in 64 bits.
pub open spec fn reported_usage(payload: JsonView) -> Option<ObservedUsage> {
    match nested_field(payload, "response"@, "usage"@) {
        Some(usage) => {
            let input = usage.unsigned_field("input_tokens"@);
            let output = usage.unsigned_field("output_tokens"@);
            Some(
                ObservedUsage {
                    input_tokens: input,
                    output_tokens: output,
                    total_tokens: match usage.unsigned_field("total_tokens"@) {
                        Some(total) => Some(total),
                        None => match (input, output) {
                            (Some(input), Some(output)) => Some(
                                ((input + output) % 0x1_0000_0000_0000_0000) as u64,
                            ),
                            _ => None,
                        },
                    },
                },
            )
        },
        None => None,
    }
}

/// The usage that the last event of a response reports.
pub fn usage_from_completed(payload: &Json) -> (r: Option<ObservedUsage>)
    ensures
        r == reported_usage(payload@),
{
    let usage = match nested(payload, "response", "usage") {
        Some(usage) => usage,
        None => return None,
    };
    let input_tokens = usage.unsigned_field("input_tokens");
    let output_tokens = usage.unsigned_field("output_tokens");
    let total_tokens = match usage.unsigned_field("total_tokens") {
        Some(total) => Some(total),
        None => match (input_tokens, output_tokens) {
            (Some(input), Some(output)) => Some(input.wrapping_add(output)),
            _ => None,
        },
    };
    Some(ObservedUsage { input_tokens, output_tokens, total_tokens })
}

/// The output items stay in the order of their indices, with one item for each:
/// a stream that has shown nothing has them so, and no event changes that.
pub proof fn lemma_items_stay_in_order(state: StreamView, payload: JsonView)
    requires
        indices_ascend(state.items),
    ensures
        indices_ascend(Seq::<(usize, JsonView)>::empty()),
        indices_ascend(next_state(state, payload).items),
{
    if let Some(JsonView::Object(item)) = payload.field("item"@) {
        let done = payload.text_field("type"@) == Some("response.output_item.done"@);
        lemma_with_item_ascends(
            state.items,
            output_index(payload),
            JsonView::Object(patched_item(item, done)),
        );
    }
}

proof fn lemma_with_item_ascends(items: Seq<(usize, JsonView)>, index: usize, item: JsonView)
    requires
        indices_ascend(items),
    ensures
        indices_ascend(with_item(items, index, item)),
        forall|i: int|
            0 <= i < with_item(items, index, item).len() ==> (#[trigger] with_item(
                items,
                index,
                item,
            )[i]).0 == index || exists|j: int|
                0 <= j < items.len() && (#[trigger] items[j]).0 == with_item(items, index, item)[i].0,
    decreases items.len(),
{
    let after = with_item(items, index, item);
    if items.len() > 0 && items.last().0 > index {
        let front = items.drop_last();
        assert(indices_ascend(front)) by {
            assert forall|i: int, j: int| 0 <= i < j < front.len() implies (#[trigger] front[i]).0
                < (#[trigger] front[j]).0 by {
                assert(items[i].0 < items[j].0);
            }
        }
        lemma_with_item_ascends(front, index, item);
        let inner = with_item(front, index, item);
        assert forall|i: int, j: int| 0 <= i < j < after.len() implies (#[trigger] after[i]).0 < (
        #[trigger] after[j]).0 by {
            if j == inner.len() {
                assert(after[i] == inner[i]);
                if inner[i].0 != index {
                    let k = choose|k: int|
                        0 <= k < front.len() && (#[trigger] front[k]).0 == inner[i].0;
                    assert(items[k].0 < items[items.len() - 1].0);
                }
            } else {
                assert(inner[i].0 < inner[j].0);
            }
        }
        assert forall|i: int| 0 <= i < after.len() implies (#[trigger] after[i]).0 == index
            || exists|j: int| 0 <= j < items.len() && (#[trigger] items[j]).0 == after[i].0 by {
            if i < inner.len() {
                assert(after[i] == inner[i]);
                if inner[i].0 != index {
                    let k = choose|k: int|
                        0 <= k < front.len() && (#[trigger] front[k]).0 == inner[i].0;
                    assert(items[k].0 == after[i].0);
                }
            } else {
                assert(items[items.len() - 1].0 == after[i].0);
            }
        }
    } else if items.len() > 0 {
        assert forall|i: int, j: int| 0 <= i < j < after.len() implies (#[trigger] after[i]).0 < (
        #[trigger] after[j]).0 by {
            if j == after.len() - 1 {
                assert(items[i].0 <= items[items.len() - 1].0) by {
                    if i < items.len() - 1 {
                        assert(items[i].0 < items[items.len() - 1].0);
                    }
                }
                if items.last().0 == index {
                    assert(items[i].0 < items[items.len() - 1].0);
                }
            } else {
                assert(items[i].0 < items[j].0);
            }
        }
        assert forall|i: int| 0 <= i < after.len() implies (#[trigger] after[i]).0 == index
            || exists|j: int| 0 <= j < items.len() && (#[trigger] items[j]).0 == after[i].0 by {
            if i < after.len() - 1 {
                assert(items[i].0 == after[i].0);
            }
        }
    }
}

proof fn lemma_with_item_entries(
    items: Seq<(usize, JsonView)>,
    index: usize,
    item: JsonView,
    entry: (usize, JsonView),
)
    requires
        indices_ascend(items),
    ensures
        with_item(items, index, item).contains(entry) <==> entry == (index, item) || (
        items.contains(entry) && entry.0 != index),
    decreases items.len(),
{
    let after = with_item(items, index, item);
    if items.len() == 0 {
        assert(after[0] == (index, item));
    } else {
        let front = items.drop_last();
        let last = items.last();
        assert(items =~= front.push(last));
        assert(items[items.len() - 1] == last);
        assert forall|i: int, j: int| 0 <= i < j < front.len() implies (#[trigger] front[i]).0 < (
        #[trigger] front[j]).0 by {
            assert(items[i].0 < items[j].0);
        }
        assert forall|i: int| 0 <= i < front.len() implies (#[trigger] front[i]).0 < last.0 by {
            assert(items[i].0 < items[items.len() - 1].0);
        }
        lemma_pushed_entries(front, last, entry);
        if last.0 < index {
            lemma_pushed_entries(items, (index, item), entry);
        } else if last.0 == index {
            lemma_pushed_entries(front, (index, item), entry);
        } else {
            lemma_with_item_entries(front, index, item, entry);
            lemma_pushed_entries(with_item(front, index, item), last, entry);
        }
    }
}

proof fn lemma_pushed_entries(
    items: Seq<(usize, JsonView)>,
    added: (usize, JsonView),
    entry: (usize, JsonView),
)
    ensures
        items.push(added).contains(entry) <==> entry == added || items.contains(entry),
{
    let after = items.push(added);
    assert(after[items.len() as int] == added);
    if items.contains(entry) {
        let i = choose|i: int| 0 <= i < items.len() && items[i] == entry;
        assert(after[i] == entry);
    }
    if after.contains(entry) && entry != added {
        let i = choose|i: int| 0 <= i < after.len() && after[i] == entry;
        assert(items[i] == entry);
    }
}

/// What one more event changes in which events show an index.
proof fn lemma_one_more_event(events: Seq<JsonView>, index: usize)
    requires
        events.len() > 0,
    ensures
        shown(events, index) <==> shown(events.drop_last(), index) || shows(events.last(), index),
        finished(events, index) <==> finished(events.drop_last(), index) || finishes(
            events.last(),
            index,
        ),
{
    let front = events.drop_last();
    let last = events.len() - 1;
    assert(events[last] == events.last());
    assert forall|i: int| 0 <= i < front.len() implies #[trigger] front[i] == events[i] by {}
    if shown(front, index) {
        let i = choose|i: int| 0 <= i < front.len() && shows(#[trigger] front[i], index);
        assert(shows(events[i], index));
    }
    if finished(front, index) {
        let i = choose|i: int| 0 <= i < front.len() && finishes(#[trigger] front[i], index);
        assert(finishes(events[i], index));
    }
    if shown(events, index) {
        let i = choose|i: int| 0 <= i < events.len() && shows(#[trigger] events[i], index);
        if i < last {
            assert(shows(front[i], index));
        }
    }
    if finished(events, index) {
        let i = choose|i: int| 0 <= i < events.len() && finishes(#[trigger] events[i], index);
        if i < last {
            assert(finishes(front[i], index));
        }
    }
}

/// One more event leaves the item of an index in place, or puts its own there.
proof fn lemma_what_one_event_leaves(events: Seq<JsonView>, entry: (usize, JsonView))
    requires
        events.len() > 0,
    ensures
        ({
            let front = events.drop_last();
            let event = events.last();
            let replaces = finishes(event, entry.0) || (shows(event, entry.0) && !shown(
                front,
                entry.0,
            ));
            stays(events, entry) <==> if replaces {
                entry.1 == item_shown(event)
            } else {
                stays(front, entry)
            }
        }),
{
    let front = events.drop_last();
    let event = events.last();
    let last = events.len() - 1;
    let index = entry.0;
    lemma_one_more_event(events, index);
    assert(events[last] == event);
    assert forall|i: int| 0 <= i < front.len() implies #[trigger] front[i] == events[i] by {}
    if finishes(event, index) || (shows(event, index) && !shown(front, index)) {
        assert forall|i: int| 0 <= i < last implies !(shows(#[trigger] events[i], index)
            && !shown(front, index)) by {
            assert(front[i] == events[i]);
        }
        assert(governs(events, index, last));
        if stays(events, entry) {
            let at = choose|at: int| #[trigger]
                governs(events, index, at) && entry.1 == item_shown(events[at]);
            if at < last {
                assert(shows(front[at], index));
                assert(shown(front, index));
                assert(!finishes(events[last], index));
            }
        }
    } else {
        assert forall|at: int| governs(events, index, at) <==> governs(front, index, at) by {
            if governs(events, index, at) {
                if at == last {
                    assert(shown(front, index));
                    let i = choose|i: int| 0 <= i < front.len() && shows(#[trigger] front[i], index);
                    assert(shows(events[i], index));
                    assert(!finished(events, index) ==> !shows(events[i], index));
                } else {
                    assert forall|i: int| at < i < front.len() implies !(finished(events, index)
                        && finishes(#[trigger] front[i], index)) by {
                        assert(events[i] == front[i]);
                    }
                    assert forall|i: int| 0 <= i < at implies !(!finished(events, index) && shows(
                        #[trigger] front[i],
                        index,
                    )) by {
                        assert(events[i] == front[i]);
                    }
                }
            }
            if governs(front, index, at) {
                assert(events[at] == front[at]);
                assert forall|i: int| at < i < events.len() implies !(finished(front, index)
                    && finishes(#[trigger] events[i], index)) by {
                    if i < last {
                        assert(events[i] == front[i]);
                    }
                }
                assert forall|i: int| 0 <= i < at implies !(!finished(front, index) && shows(
                    #[trigger] events[i],
                    index,
                )) by {
                    assert(events[i] == front[i]);
                }
            }
        }
        if stays(events, entry) {
            let at = choose|at: int| #[trigger]
                governs(events, index, at) && entry.1 == item_shown(events[at]);
            assert(governs(front, index, at));
        }
        if stays(front, entry) {
            let at = choose|at: int| #[trigger]
                governs(front, index, at) && entry.1 == item_shown(front[at]);
            assert(governs(events, index, at));
        }
    }
}

proof fn lemma_entries_of_a_stream(events: Seq<JsonView>)
    ensures
        indices_ascend(state_after(events).items),
        forall|index: usize|
            has_index(state_after(events).items, index) <==> #[trigger] shown(events, index),
        forall|entry: (usize, JsonView)|
            state_after(events).items.contains(entry) <==> #[trigger] stays(events, entry),
    decreases events.len(),
{
    let items = state_after(events).items;
    if events.len() > 0 {
        let front = events.drop_last();
        let event = events.last();
        let before = state_after(front).items;
        let index = output_index(event);
        let item = item_shown(event);
        lemma_entries_of_a_stream(front);
        lemma_items_stay_in_order(state_after(front), event);
        let replaces = finishes(event, index) || (shows(event, index) && !shown(front, index));
        assert(items == if replaces {
            with_item(before, index, item)
        } else {
            before
        });
        assert forall|entry: (usize, JsonView)| items.contains(entry) <==> #[trigger] stays(
            events,
            entry,
        ) by {
            lemma_what_one_event_leaves(events, entry);
            lemma_with_item_entries(before, index, item, entry);
            assert(before.contains(entry) <==> stays(front, entry));
        }
        assert forall|other: usize| has_index(items, other) <==> #[trigger] shown(
            events,
            other,
        ) by {
            lemma_one_more_event(events, other);
            assert(has_index(before, other) <==> shown(front, other));
            lemma_indices_with_item(before, index, item, other);
        }
    } else {
        assert forall|entry: (usize, JsonView)| !#[trigger] stays(events, entry) by {}
    }
}

proof fn lemma_indices_with_item(
    items: Seq<(usize, JsonView)>,
    index: usize,
    item: JsonView,
    other: usize,
)
    requires
        indices_ascend(items),
    ensures
        has_index(with_item(items, index, item), other) <==> has_index(items, other) || other
            == index,
{
    let after = with_item(items, index, item);
    if has_index(after, other) && other != index {
        let i = choose|i: int| 0 <= i < after.len() && (#[trigger] after[i]).0 == other;
        lemma_with_item_entries(items, index, item, after[i]);
        assert(items.contains(after[i]));
        let j = choose|j: int| 0 <= j < items.len() && items[j] == after[i];
        assert(items[j].0 == other);
    }
    if has_index(items, other) && other != index {
        let i = choose|i: int| 0 <= i < items.len() && (#[trigger] items[i]).0 == other;
        lemma_with_item_entries(items, index, item, items[i]);
        assert(after.contains(items[i]));
        let j = choose|j: int| 0 <= j < after.len() && after[j] == items[i];
        assert(after[j].0 == other);
    }
    if other == index {
        lemma_with_item_entries(items, index, item, (index, item));
        let j = choose|j: int| 0 <= j < after.len() && after[j] == (index, item);
        assert(after[j].0 == other);
    }
}

/// What a stream has shown after any events: one item for each index that some
/// event carried, in ascending order, and at each index the last one that was
/// done, or where none was done, the first one that was added.
pub proof fn lemma_items_of_a_stream(events: Seq<JsonView>)
    ensures
        indices_ascend(state_after(events).items),
        forall|index: usize| #[trigger]
            has_index(state_after(events).items, index) <==> shown(events, index),
        forall|i: int|
            0 <= i < state_after(events).items.len() ==> stays(
                events,
                #[trigger] state_after(events).items[i],
            ),
{
    lemma_entries_of_a_stream(events);
    let items = state_after(events).items;
    assert forall|index: usize| #[trigger] has_index(items, index) <==> shown(events, index) by {
        assert(shown(events, index) <==> has_index(items, index));
    }
    assert forall|i: int| 0 <= i < items.len() implies stays(events, #[trigger] items[i]) by {
        assert(items.contains(items[i]));
    }
}

/// The last event of a response with this output.
pub open spec fn with_output(
    fields: Map<Seq<char>, JsonView>,
    response: Map<Seq<char>, JsonView>,
    output: Seq<JsonView>,
) -> JsonView {
    JsonView::Object(
        fields.insert(
            "response"@,
            JsonView::Object(response.insert("output"@, JsonView::List(output))),
        ),
    )
}

/// How a response ends, whatever events came before. Without output of its own it
/// is given the items that the stream has shown. With output in which there is a
/// reasoning item, the reasoning items are rewritten and all others stay. Any
/// other output goes to the client as it is.
pub proof fn lemma_completed_response(
    events: Seq<JsonView>,
    fields: Map<Seq<char>, JsonView>,
    response: Map<Seq<char>, JsonView>,
)
    requires
        text_of(lookup(fields, "type"@)) == Some("response.completed"@),
        lookup(fields, "response"@) == Some(JsonView::Object(response)),
    ensures
        ({
            let items = state_after(events).items;
            let output = list_field(response, "output"@);
            let rewritten = output.map_values(|item: JsonView| normalized_output_item(item));
            &&& forwarded(state_after(events), JsonView::Object(fields)) == Some(
                if output.len() == 0 {
                    with_output(
                        fields,
                        response,
                        items.map_values(|item: (usize, JsonView)| item.1),
                    )
                } else if has_reasoning(output) {
                    with_output(fields, response, rewritten)
                } else {
                    JsonView::Object(fields)
                },
            )
            &&& indices_ascend(items)
            &&& forall|index: usize| #[trigger] has_index(items, index) <==> shown(events, index)
            &&& forall|i: int| 0 <= i < items.len() ==> stays(events, #[trigger] items[i])
            &&& forall|i: int|
                0 <= i < output.len() && (#[trigger] output[i]).text_field("type"@) != Some(
                    "reasoning"@,
                ) ==> rewritten[i] == output[i]
        }),
{
    lemma_items_of_a_stream(events);
    lemma_completion_is_no_other_event();
}

/// An event is forwarded if and only if it has a type that is not dropped, and
/// it keeps its type.
pub proof fn lemma_forwarding_keeps_the_type(state: StreamView, payload: JsonView)
    ensures
        forwarded(state, payload) is Some <==> (payload.text_field("type"@) matches Some(kind)
            && !dropped_event(kind)),
        forwarded(state, payload) matches Some(event) ==> event.text_field("type"@)
            == payload.text_field("type"@),
{
    reveal_strlit("type");
    reveal_strlit("item");
    reveal_strlit("output_index");
    reveal_strlit("call_id");
    reveal_strlit("name");
    reveal_strlit("response");
    assert("type"@.len() == 4 && "type"@[0] == 't');
    assert("item"@.len() == 4 && "item"@[0] == 'i');
    assert("name"@.len() == 4 && "name"@[0] == 'n');
    assert("output_index"@.len() == 12);
    assert("call_id"@.len() == 7);
    assert("response"@.len() == 8);
}

proof fn lemma_completion_is_no_other_event()
    ensures
        !dropped_event("response.completed"@),
        !item_event("response.completed"@),
        !summary_event("response.completed"@),
        !arguments_event("response.completed"@),
{
    reveal_strlit("response.completed");
    reveal_strlit("keepalive");
    reveal_strlit("response.metadata");
    reveal_strlit("response.reasoning_text.delta");
    reveal_strlit("response.reasoning_text.done");
    reveal_strlit("response.output_item.added");
    reveal_strlit("response.output_item.done");
    reveal_strlit("response.reasoning_summary_text.delta");
    reveal_strlit("response.reasoning_summary_text.done");
    reveal_strlit("response.function_call_arguments.delta");
    reveal_strlit("response.function_call_arguments.done");
    assert("response.completed"@.len() == 18);
    assert("keepalive"@.len() == 9);
    assert("response.metadata"@.len() == 17);
    assert("response.reasoning_text.delta"@.len() == 29);
    assert("response.reasoning_text.done"@.len() == 28);
    assert("response.output_item.added"@.len() == 26);
    assert("response.output_item.done"@.len() == 25);
    assert("response.reasoning_summary_text.delta"@.len() == 37);
    assert("response.reasoning_summary_text.done"@.len() == 36);
    assert("response.function_call_arguments.delta"@.len() == 38);
    assert("response.function_call_arguments.done"@.len() == 37);
}

/// A response that ends without output of its own is given the items that the
/// stream has shown, in the order of their indices.
pub proof fn lemma_empty_output_is_filled(
    state: StreamView,
    fields: Map<Seq<char>, JsonView>,
    response: Map<Seq<char>, JsonView>,
)
    requires
        text_of(lookup(fields, "type"@)) == Some("response.completed"@),
        lookup(fields, "response"@) == Some(JsonView::Object(response)),
        list_field(response, "output"@).len() == 0,
    ensures
        forwarded(state, JsonView::Object(fields)) matches Some(event) && nested_field(
            event,
            "response"@,
            "output"@,
        ) == Some(
            JsonView::List(state.items.map_values(|item: (usize, JsonView)| item.1)),
        ),
{
    lemma_completion_is_no_other_event();
}

} // verus!
