//! What rewriting a stream means: laws that relate the events of the upstream to
//! those that the client gets.
use vstd::prelude::*;

use crate::json::{lookup, text_of, JsonView};
use crate::stream::{failure_event, forwarded, indices_ascend, item_shown};
use crate::stream::{lemma_items_of_a_stream, next_state, normalized_reasoning_item};
use crate::stream::{output_index, reported_usage, shows, state_after, stays};
use crate::stream::{summary_parts, StreamView};

verus! {

/// The kinds of events differ from each other.
proof fn lemma_event_kinds()
    ensures
        "keepalive"@.len() == 9,
        "response.metadata"@.len() == 17,
        "response.completed"@.len() == 18,
        "response.output_item.done"@.len() == 25,
        "response.output_item.added"@.len() == 26,
        "response.reasoning_text.done"@.len() == 28,
        "response.reasoning_text.delta"@.len() == 29,
        "response.reasoning_summary_text.done"@.len() == 36,
        "response.function_call_arguments.done"@.len() == 37,
        "response.reasoning_summary_text.delta"@.len() == 37,
        "response.function_call_arguments.delta"@.len() == 38,
        "response.function_call_arguments.done"@ != "response.reasoning_summary_text.delta"@,
{
    reveal_strlit("keepalive");
    reveal_strlit("response.metadata");
    reveal_strlit("response.completed");
    reveal_strlit("response.output_item.done");
    reveal_strlit("response.output_item.added");
    reveal_strlit("response.reasoning_text.done");
    reveal_strlit("response.reasoning_text.delta");
    reveal_strlit("response.reasoning_summary_text.done");
    reveal_strlit("response.function_call_arguments.done");
    reveal_strlit("response.reasoning_summary_text.delta");
    reveal_strlit("response.function_call_arguments.delta");
    assert("keepalive"@.len() == 9);
    assert("response.metadata"@.len() == 17);
    assert("response.completed"@.len() == 18);
    assert("response.output_item.done"@.len() == 25);
    assert("response.output_item.added"@.len() == 26);
    assert("response.reasoning_text.done"@.len() == 28);
    assert("response.reasoning_text.delta"@.len() == 29);
    assert("response.reasoning_summary_text.done"@.len() == 36);
    assert("response.function_call_arguments.done"@.len() == 37);
    assert("response.reasoning_summary_text.delta"@.len() == 37);
    assert("response.function_call_arguments.delta"@.len() == 38);
    assert("response.function_call_arguments.done"@[9] == 'f' && "response.reasoning_summary_text.delta"@[9] == 'r');
}

/// The words of an event differ from each other.
proof fn lemma_event_words()
    ensures
        "id"@.len() == 2,
        "code"@.len() == 4,
        "item"@.len() == 4,
        "name"@.len() == 4,
        "text"@.len() == 4,
        "type"@.len() == 4,
        "error"@.len() == 5,
        "usage"@.len() == 5,
        "failed"@.len() == 6,
        "output"@.len() == 6,
        "status"@.len() == 6,
        "call_id"@.len() == 7,
        "content"@.len() == 7,
        "item_id"@.len() == 7,
        "message"@.len() == 7,
        "summary"@.len() == 7,
        "response"@.len() == 8,
        "arguments"@.len() == 9,
        "completed"@.len() == 9,
        "reasoning"@.len() == 9,
        "in_progress"@.len() == 11,
        "input_tokens"@.len() == 12,
        "output_index"@.len() == 12,
        "summary_text"@.len() == 12,
        "total_tokens"@.len() == 12,
        "function_call"@.len() == 13,
        "output_tokens"@.len() == 13,
        "code"@ != "item"@,
        "code"@ != "name"@,
        "code"@ != "text"@,
        "code"@ != "type"@,
        "item"@ != "name"@,
        "item"@ != "text"@,
        "item"@ != "type"@,
        "name"@ != "text"@,
        "name"@ != "type"@,
        "text"@ != "type"@,
        "error"@ != "usage"@,
        "failed"@ != "output"@,
        "failed"@ != "status"@,
        "output"@ != "status"@,
        "call_id"@ != "content"@,
        "call_id"@ != "item_id"@,
        "call_id"@ != "message"@,
        "call_id"@ != "summary"@,
        "content"@ != "item_id"@,
        "content"@ != "message"@,
        "content"@ != "summary"@,
        "item_id"@ != "message"@,
        "item_id"@ != "summary"@,
        "message"@ != "summary"@,
        "arguments"@ != "completed"@,
        "arguments"@ != "reasoning"@,
        "completed"@ != "reasoning"@,
        "input_tokens"@ != "output_index"@,
        "input_tokens"@ != "summary_text"@,
        "input_tokens"@ != "total_tokens"@,
        "output_index"@ != "summary_text"@,
        "output_index"@ != "total_tokens"@,
        "summary_text"@ != "total_tokens"@,
        "function_call"@ != "output_tokens"@,
{
    reveal_strlit("id");
    reveal_strlit("code");
    reveal_strlit("item");
    reveal_strlit("name");
    reveal_strlit("text");
    reveal_strlit("type");
    reveal_strlit("error");
    reveal_strlit("usage");
    reveal_strlit("failed");
    reveal_strlit("output");
    reveal_strlit("status");
    reveal_strlit("call_id");
    reveal_strlit("content");
    reveal_strlit("item_id");
    reveal_strlit("message");
    reveal_strlit("summary");
    reveal_strlit("response");
    reveal_strlit("arguments");
    reveal_strlit("completed");
    reveal_strlit("reasoning");
    reveal_strlit("in_progress");
    reveal_strlit("input_tokens");
    reveal_strlit("output_index");
    reveal_strlit("summary_text");
    reveal_strlit("total_tokens");
    reveal_strlit("function_call");
    reveal_strlit("output_tokens");
    assert("id"@.len() == 2);
    assert("code"@.len() == 4);
    assert("item"@.len() == 4);
    assert("name"@.len() == 4);
    assert("text"@.len() == 4);
    assert("type"@.len() == 4);
    assert("error"@.len() == 5);
    assert("usage"@.len() == 5);
    assert("failed"@.len() == 6);
    assert("output"@.len() == 6);
    assert("status"@.len() == 6);
    assert("call_id"@.len() == 7);
    assert("content"@.len() == 7);
    assert("item_id"@.len() == 7);
    assert("message"@.len() == 7);
    assert("summary"@.len() == 7);
    assert("response"@.len() == 8);
    assert("arguments"@.len() == 9);
    assert("completed"@.len() == 9);
    assert("reasoning"@.len() == 9);
    assert("in_progress"@.len() == 11);
    assert("input_tokens"@.len() == 12);
    assert("output_index"@.len() == 12);
    assert("summary_text"@.len() == 12);
    assert("total_tokens"@.len() == 12);
    assert("function_call"@.len() == 13);
    assert("output_tokens"@.len() == 13);
    assert("code"@[0] == 'c' && "item"@[0] == 'i');
    assert("code"@[0] == 'c' && "name"@[0] == 'n');
    assert("code"@[0] == 'c' && "text"@[0] == 't');
    assert("code"@[0] == 'c' && "type"@[0] == 't');
    assert("item"@[0] == 'i' && "name"@[0] == 'n');
    assert("item"@[0] == 'i' && "text"@[0] == 't');
    assert("item"@[0] == 'i' && "type"@[0] == 't');
    assert("name"@[0] == 'n' && "text"@[0] == 't');
    assert("name"@[0] == 'n' && "type"@[0] == 't');
    assert("text"@[1] == 'e' && "type"@[1] == 'y');
    assert("error"@[0] == 'e' && "usage"@[0] == 'u');
    assert("failed"@[0] == 'f' && "output"@[0] == 'o');
    assert("failed"@[0] == 'f' && "status"@[0] == 's');
    assert("output"@[0] == 'o' && "status"@[0] == 's');
    assert("call_id"@[1] == 'a' && "content"@[1] == 'o');
    assert("call_id"@[0] == 'c' && "item_id"@[0] == 'i');
    assert("call_id"@[0] == 'c' && "message"@[0] == 'm');
    assert("call_id"@[0] == 'c' && "summary"@[0] == 's');
    assert("content"@[0] == 'c' && "item_id"@[0] == 'i');
    assert("content"@[0] == 'c' && "message"@[0] == 'm');
    assert("content"@[0] == 'c' && "summary"@[0] == 's');
    assert("item_id"@[0] == 'i' && "message"@[0] == 'm');
    assert("item_id"@[0] == 'i' && "summary"@[0] == 's');
    assert("message"@[0] == 'm' && "summary"@[0] == 's');
    assert("arguments"@[0] == 'a' && "completed"@[0] == 'c');
    assert("arguments"@[0] == 'a' && "reasoning"@[0] == 'r');
    assert("completed"@[0] == 'c' && "reasoning"@[0] == 'r');
    assert("input_tokens"@[0] == 'i' && "output_index"@[0] == 'o');
    assert("input_tokens"@[0] == 'i' && "summary_text"@[0] == 's');
    assert("input_tokens"@[0] == 'i' && "total_tokens"@[0] == 't');
    assert("output_index"@[0] == 'o' && "summary_text"@[0] == 's');
    assert("output_index"@[0] == 'o' && "total_tokens"@[0] == 't');
    assert("summary_text"@[0] == 's' && "total_tokens"@[0] == 't');
    assert("function_call"@[0] == 'f' && "output_tokens"@[0] == 'o');
}

/// Whether an event is of this kind.
pub open spec fn is_kind(event: Map<Seq<char>, JsonView>, kind: Seq<char>) -> bool {
    lookup(event, "type"@) == Some(JsonView::Text(kind))
}

/// Which events do not go to the client: those without a type, and the four kinds
/// that it does not know.
pub proof fn lemma_events_that_are_dropped(state: StreamView, event: JsonView)
    ensures
        !(event is Object) ==> forwarded(state, event) is None,
        event matches JsonView::Object(fields) ==> (forwarded(state, event) is None <==> {
            ||| !(lookup(fields, "type"@) matches Some(JsonView::Text(_)))
            ||| is_kind(fields, "keepalive"@)
            ||| is_kind(fields, "response.metadata"@)
            ||| is_kind(fields, "response.reasoning_text.delta"@)
            ||| is_kind(fields, "response.reasoning_text.done"@)
        }),
{
    lemma_event_kinds();
}

/// An event of any other kind than those that are rewritten goes to the client as
/// it came, and changes nothing for the events behind it.
pub proof fn lemma_other_events_pass(state: StreamView, fields: Map<Seq<char>, JsonView>)
    requires
        lookup(fields, "type"@) matches Some(JsonView::Text(_)),
        forwarded(state, JsonView::Object(fields)) is Some,
        !is_kind(fields, "response.output_item.added"@),
        !is_kind(fields, "response.output_item.done"@),
        !is_kind(fields, "response.reasoning_summary_text.delta"@),
        !is_kind(fields, "response.reasoning_summary_text.done"@),
        !is_kind(fields, "response.function_call_arguments.delta"@),
        !is_kind(fields, "response.function_call_arguments.done"@),
        !is_kind(fields, "response.completed"@),
    ensures
        forwarded(state, JsonView::Object(fields)) == Some(JsonView::Object(fields)),
{
}

/// Only an event with an output item changes anything for the events behind it.
pub proof fn lemma_only_items_are_recorded(state: StreamView, event: JsonView)
    ensures
        !(exists|index: usize| shows(event, index)) ==> next_state(state, event) == state,
        forall|index: usize| #[trigger]
            shows(event, index) <==> {
                &&& event matches JsonView::Object(fields)
                &&& is_kind(fields, "response.output_item.added"@) || is_kind(
                    fields,
                    "response.output_item.done"@,
                )
                &&& lookup(fields, "item"@) matches Some(JsonView::Object(_))
                &&& index == (match lookup(fields, "output_index"@) {
                    Some(JsonView::Unsigned(number)) => if number <= usize::MAX {
                        number as usize
                    } else {
                        0
                    },
                    _ => 0,
                })
            },
{
    if !(exists|index: usize| shows(event, index)) {
        assert(!shows(event, output_index(event)));
    }
}

/// An event with an output item goes to the client with all else in it as it came,
/// and with the item as it is recorded.
pub proof fn lemma_item_events(
    state: StreamView,
    event: Map<Seq<char>, JsonView>,
    index: usize,
    key: Seq<char>,
)
    requires
        shows(JsonView::Object(event), index),
    ensures
        forwarded(state, JsonView::Object(event)) matches Some(JsonView::Object(sent)) && {
            &&& sent.dom() == event.dom()
            &&& key != "item"@ ==> lookup(sent, key) == lookup(event, key)
            &&& lookup(sent, "item"@) == Some(item_shown(JsonView::Object(event)))
        },
{
    lemma_event_kinds();
    let sent = forwarded(state, JsonView::Object(event))->Some_0->Object_0;
    assert(sent.dom() =~= event.dom());
}

/// An output item that is not a reasoning item keeps every field that it came
/// with. Only a function call is given anything, and only where it lacks it: its
/// status, by whether it is done, and empty arguments.
pub proof fn lemma_items_keep_their_fields(
    event: Map<Seq<char>, JsonView>,
    item: Map<Seq<char>, JsonView>,
    key: Seq<char>,
)
    requires
        lookup(event, "item"@) == Some(JsonView::Object(item)),
        !is_kind(item, "reasoning"@),
    ensures
        item_shown(JsonView::Object(event)) matches JsonView::Object(sent) && {
            &&& item.dom().contains(key) ==> lookup(sent, key) == lookup(item, key)
            &&& !item.dom().contains(key) && sent.dom().contains(key) ==> is_kind(
                item,
                "function_call"@,
            ) && (key == "status"@ || key == "arguments"@)
            &&& is_kind(item, "function_call"@) && !item.dom().contains("arguments"@) ==> lookup(
                sent,
                "arguments"@,
            ) == Some(JsonView::Text(Seq::empty()))
            &&& is_kind(item, "function_call"@) && !item.dom().contains("status"@) ==> lookup(
                sent,
                "status"@,
            ) == Some(
                JsonView::Text(
                    if is_kind(event, "response.output_item.done"@) {
                        "completed"@
                    } else {
                        "in_progress"@
                    },
                ),
            )
        },
{
    lemma_event_words();
}

/// A reasoning item goes to the client without content and with its summary as
/// plain texts; all else in it stays.
pub proof fn lemma_reasoning_items(
    event: Map<Seq<char>, JsonView>,
    item: Map<Seq<char>, JsonView>,
)
    requires
        lookup(event, "item"@) == Some(JsonView::Object(item)),
        is_kind(item, "reasoning"@),
    ensures
        item_shown(JsonView::Object(event)) == JsonView::Object(normalized_reasoning_item(item)),
{
    lemma_event_words();
}

/// What becomes of the fields of a reasoning item.
pub proof fn lemma_reasoning_fields(item: Map<Seq<char>, JsonView>, key: Seq<char>)
    ensures
        ({
            let sent = normalized_reasoning_item(item);
            &&& lookup(sent, "content"@) == Some(JsonView::List(Seq::empty()))
            &&& lookup(sent, "summary"@) == Some(
                JsonView::List(
                    match lookup(item, "summary"@) {
                        Some(JsonView::List(parts)) => summary_parts(parts),
                        _ => Seq::empty(),
                    },
                ),
            )
            &&& key != "content"@ && key != "summary"@ ==> lookup(sent, key) == lookup(item, key)
        }),
{
    lemma_event_words();
}

/// Whether a value is a summary text that holds just this text.
pub open spec fn is_summary_text(part: JsonView, text: Seq<char>) -> bool {
    part matches JsonView::Object(fields) && {
        &&& lookup(fields, "type"@) == Some(JsonView::Text("summary_text"@))
        &&& lookup(fields, "text"@) == Some(JsonView::Text(text))
        &&& forall|key: Seq<char>| #[trigger]
            fields.dom().contains(key) ==> key == "type"@ || key == "text"@
    }
}

/// A summary is made piece by piece, in order. A text, and an object of no type or
/// of the type of a summary text, gives one summary text; anything else gives
/// none.
pub proof fn lemma_summaries_go_piece_by_piece(
    first: Seq<JsonView>,
    second: Seq<JsonView>,
    part: JsonView,
)
    ensures
        summary_parts(first + second) == summary_parts(first) + summary_parts(second),
        match part {
            JsonView::Text(text) => summary_parts(seq![part]).len() == 1 && is_summary_text(
                summary_parts(seq![part])[0],
                text,
            ),
            JsonView::Object(fields) => if text_of(lookup(fields, "type"@)) is None || text_of(
                lookup(fields, "type"@),
            ) == Some("summary_text"@) {
                summary_parts(seq![part]).len() == 1 && is_summary_text(
                    summary_parts(seq![part])[0],
                    match lookup(fields, "text"@) {
                        Some(JsonView::Text(text)) => text,
                        _ => Seq::empty(),
                    },
                )
            } else {
                summary_parts(seq![part]).len() == 0
            },
            _ => summary_parts(seq![part]).len() == 0,
        },
    decreases second.len(),
{
    lemma_event_words();
    if second.len() == 0 {
        assert(first + second =~= first);
        assert(summary_parts(first) + summary_parts(second) =~= summary_parts(first));
    } else {
        lemma_summaries_go_piece_by_piece(first, second.drop_last(), part);
        assert((first + second).drop_last() =~= first + second.drop_last());
        assert((first + second).last() == second.last());
        assert(summary_parts(first + second) =~= summary_parts(first) + summary_parts(second));
    }
    assert(seq![part].drop_last() =~= Seq::empty());
    assert(summary_parts(seq![part].drop_last()) =~= Seq::empty());
}

/// What an event with an output item records: under the id of the item its index,
/// and of a function call, under its own id and that of its call, its names. All
/// else stays.
pub proof fn lemma_what_is_recorded(
    state: StreamView,
    event: JsonView,
    item: Map<Seq<char>, JsonView>,
    index: usize,
    id: Seq<char>,
)
    requires
        shows(event, index),
        event.field("item"@) == Some(JsonView::Object(item)),
    ensures
        ({
            let after = next_state(state, event);
            let named = lookup(item, "id"@) == Some(JsonView::Text(id));
            let called = lookup(item, "call_id"@) == Some(JsonView::Text(id));
            let is_call = is_kind(item, "function_call"@);
            &&& named ==> after.indices.dom().contains(id) && after.indices[id] == index
            &&& !named ==> after.indices.dom().contains(id) == state.indices.dom().contains(id)
                && after.indices[id] == state.indices[id]
            &&& is_call && (named || called) ==> {
                &&& after.calls.dom().contains(id)
                &&& after.calls[id].name == text_of(lookup(item, "name"@))
                &&& after.calls[id].call_id == text_of(lookup(item, "call_id"@))
            }
            &&& !(is_call && (named || called)) ==> after.calls.dom().contains(id)
                == state.calls.dom().contains(id) && after.calls[id] == state.calls[id]
        }),
{
    lemma_event_kinds();
    lemma_event_words();
}

/// An event with a piece of a summary goes to the client with the index of its
/// item, where it lacks one and the item is known; all else in it stays.
pub proof fn lemma_summary_events(
    state: StreamView,
    event: Map<Seq<char>, JsonView>,
    key: Seq<char>,
)
    requires
        is_kind(event, "response.reasoning_summary_text.delta"@) || is_kind(
            event,
            "response.reasoning_summary_text.done"@,
        ),
    ensures
        forwarded(state, JsonView::Object(event)) matches Some(JsonView::Object(sent)) && {
            &&& event.dom().contains(key) ==> lookup(sent, key) == lookup(event, key)
            &&& !event.dom().contains(key) ==> lookup(sent, key) == (match lookup(
                event,
                "item_id"@,
            ) {
                Some(JsonView::Text(id)) => if key == "output_index"@
                    && state.indices.dom().contains(id) {
                    Some(JsonView::Unsigned(state.indices[id] as u64))
                } else {
                    None
                },
                _ => None,
            })
        },
{
    lemma_event_kinds();
    lemma_event_words();
}

/// An event with a piece of the arguments of a function call goes to the client
/// with the index of its item, the id of the call and the name of the function,
/// each where it lacks it and it is known; all else in it stays.
pub proof fn lemma_arguments_events(
    state: StreamView,
    event: Map<Seq<char>, JsonView>,
    key: Seq<char>,
)
    requires
        is_kind(event, "response.function_call_arguments.delta"@) || is_kind(
            event,
            "response.function_call_arguments.done"@,
        ),
    ensures
        ({
            let id = match lookup(event, "item_id"@) {
                Some(JsonView::Text(id)) => id,
                _ => Seq::empty(),
            };
            let known = state.calls.dom().contains(id);
            forwarded(state, JsonView::Object(event)) matches Some(JsonView::Object(sent)) && {
                &&& event.dom().contains(key) ==> lookup(sent, key) == lookup(event, key)
                &&& !event.dom().contains(key) && key == "output_index"@ ==> lookup(sent, key) == (
                if state.indices.dom().contains(id) {
                    Some(JsonView::Unsigned(state.indices[id] as u64))
                } else {
                    None
                })
                &&& !event.dom().contains(key) && key == "call_id"@ ==> lookup(sent, key) == (
                if known && state.calls[id].call_id is Some {
                    Some(JsonView::Text(state.calls[id].call_id->Some_0))
                } else {
                    None
                })
                &&& !event.dom().contains(key) && key == "name"@ ==> lookup(sent, key) == (
                if known && state.calls[id].name is Some {
                    Some(JsonView::Text(state.calls[id].name->Some_0))
                } else {
                    None
                })
                &&& !event.dom().contains(key) && key != "output_index"@ && key != "call_id"@ && key
                    != "name"@ ==> lookup(sent, key) is None
            }
        }),
{
    lemma_event_kinds();
    lemma_event_words();
}

/// How a response ends, whatever came before. All in its last event but the output
/// stays. Without output of its own it is given the items of the stream, in the
/// order of their indices. Else, where some item of its output is reasoning, those
/// are rewritten and all others stay, and where none is, its output stays.
pub proof fn lemma_how_a_response_ends(
    events: Seq<JsonView>,
    fields: Map<Seq<char>, JsonView>,
    response: Map<Seq<char>, JsonView>,
    output: Seq<JsonView>,
    key: Seq<char>,
)
    requires
        is_kind(fields, "response.completed"@),
        lookup(fields, "response"@) == Some(JsonView::Object(response)),
        output == (match lookup(response, "output"@) {
            Some(JsonView::List(items)) => items,
            _ => Seq::empty(),
        }),
    ensures
        forwarded(state_after(events), JsonView::Object(fields)) matches Some(
            JsonView::Object(sent),
        ) && {
            &&& key != "response"@ ==> lookup(sent, key) == lookup(fields, key)
            &&& lookup(sent, "response"@) matches Some(JsonView::Object(ended))
            &&& key != "output"@ ==> lookup(ended, key) == lookup(response, key)
            &&& output.len() == 0 ==> (lookup(ended, "output"@) matches Some(JsonView::List(items))
                && {
                let shown_items = state_after(events).items;
                &&& items.len() == shown_items.len()
                &&& indices_ascend(shown_items)
                &&& forall|i: int|
                    0 <= i < items.len() ==> #[trigger] items[i] == shown_items[i].1 && stays(
                        events,
                        shown_items[i],
                    )
            })
            &&& output.len() > 0 ==> (lookup(ended, "output"@) matches Some(JsonView::List(items))
                && items.len() == output.len() && forall|i: int|
                0 <= i < output.len() ==> match #[trigger] output[i] {
                    JsonView::Object(item) => if is_kind(item, "reasoning"@) {
                        items[i] == JsonView::Object(normalized_reasoning_item(item))
                    } else {
                        items[i] == output[i]
                    },
                    _ => items[i] == output[i],
                })
        },
{
    lemma_event_kinds();
    lemma_event_words();
    lemma_items_of_a_stream(events);
    let state = state_after(events);
    assert(crate::stream::with_completed_output(state, JsonView::Object(fields)) is Object);
    assert forall|i: int| 0 <= i < output.len() && !crate::stream::has_reasoning(output) implies (
    #[trigger] output[i]).text_field("type"@) != Some("reasoning"@) by {}
    if output.len() > 0 && crate::stream::has_reasoning(output) {
        let items = crate::stream::completed_output(state, output);
        assert forall|i: int| 0 <= i < output.len() implies match #[trigger] output[i] {
            JsonView::Object(item) => if is_kind(item, "reasoning"@) {
                items[i] == JsonView::Object(normalized_reasoning_item(item))
            } else {
                items[i] == output[i]
            },
            _ => items[i] == output[i],
        } by {
            assert(items[i] == crate::stream::normalized_output_item(output[i]));
        }
    }
}

/// A last event without a response goes to the client as it came.
pub proof fn lemma_an_end_without_a_response(state: StreamView, fields: Map<Seq<char>, JsonView>)
    requires
        is_kind(fields, "response.completed"@),
        !(lookup(fields, "response"@) matches Some(JsonView::Object(_))),
    ensures
        forwarded(state, JsonView::Object(fields)) == Some(JsonView::Object(fields)),
{
    lemma_event_kinds();
}

/// The tokens that are reported: those that the response names, as far as they are
/// unsigned integers; a total that it does not name is the sum of the other two,
/// where it names both.
pub proof fn lemma_reported_tokens(
    event: Map<Seq<char>, JsonView>,
    response: Map<Seq<char>, JsonView>,
    usage: Map<Seq<char>, JsonView>,
)
    requires
        lookup(event, "response"@) == Some(JsonView::Object(response)),
        lookup(response, "usage"@) == Some(JsonView::Object(usage)),
    ensures
        reported_usage(JsonView::Object(event)) matches Some(tokens) && {
            &&& tokens.input_tokens == (match lookup(usage, "input_tokens"@) {
                Some(JsonView::Unsigned(number)) => Some(number),
                _ => None,
            })
            &&& tokens.output_tokens == (match lookup(usage, "output_tokens"@) {
                Some(JsonView::Unsigned(number)) => Some(number),
                _ => None,
            })
            &&& lookup(usage, "total_tokens"@) matches Some(JsonView::Unsigned(number))
                ==> tokens.total_tokens == Some(number)
            &&& !(lookup(usage, "total_tokens"@) matches Some(JsonView::Unsigned(_))) ==> {
                &&& tokens.total_tokens is Some <==> tokens.input_tokens is Some
                    && tokens.output_tokens is Some
                &&& tokens.total_tokens matches Some(total) ==> ({
                    let sum = tokens.input_tokens->Some_0 + tokens.output_tokens->Some_0;
                    total == (if sum <= u64::MAX {
                        sum
                    } else {
                        sum - 0x1_0000_0000_0000_0000
                    })
                })
            }
        },
{
}

/// Tokens are reported only of a response that has some usage.
pub proof fn lemma_no_reported_tokens(event: JsonView)
    ensures
        reported_usage(event) is None <==> !(event matches JsonView::Object(fields) && (lookup(
            fields,
            "response"@,
        ) matches Some(JsonView::Object(response)) && response.dom().contains("usage"@))),
{
}

/// What a failure tells the client: that the response has failed, with the code
/// and the message.
pub proof fn lemma_what_a_failure_tells(code: Seq<char>, message: Seq<char>)
    ensures
        failure_event(code, message) matches JsonView::Object(event) && {
            &&& is_kind(event, "response.failed"@)
            &&& lookup(event, "response"@) matches Some(JsonView::Object(response))
            &&& lookup(response, "status"@) == Some(JsonView::Text("failed"@))
            &&& lookup(response, "error"@) matches Some(JsonView::Object(error))
            &&& lookup(error, "code"@) == Some(JsonView::Text(code))
            &&& lookup(error, "message"@) == Some(JsonView::Text(message))
        },
{
    lemma_event_words();
}

} // verus!
