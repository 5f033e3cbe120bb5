//! What adapting a request means: laws that relate the request of the client to
//! the one that the upstream gets.
use vstd::prelude::*;

use crate::json::{lookup, text_of, JsonView};
use crate::protocol::{adapt, ascii_lowercase, content_text, effort_level, first_unsupported, history};
use crate::protocol::{history_item, inline_instruction, inline_instructions, kept_fields};
use crate::protocol::{lowercase_of, part_texts, unsupported_field, ProtocolErrorView};
use crate::text::joined;

verus! {

/// The words of a history item differ from each other.
proof fn lemma_item_words()
    ensures
        "id"@.len() == 2,
        "role"@.len() == 4,
        "text"@.len() == 4,
        "type"@.len() == 4,
        "user"@.len() == 4,
        "output"@.len() == 6,
        "status"@.len() == 6,
        "system"@.len() == 6,
        "call_id"@.len() == 7,
        "content"@.len() == 7,
        "summary"@.len() == 7,
        "arguments"@.len() == 9,
        "assistant"@.len() == 9,
        "completed"@.len() == 9,
        "developer"@.len() == 9,
        "reasoning"@.len() == 9,
        "input_text"@.len() == 10,
        "output_text"@.len() == 11,
        "function_call"@.len() == 13,
        "encrypted_content"@.len() == 17,
        "function_call_output"@.len() == 20,
        "role"@ != "text"@,
        "role"@ != "type"@,
        "role"@ != "user"@,
        "text"@ != "type"@,
        "text"@ != "user"@,
        "type"@ != "user"@,
        "output"@ != "status"@,
        "output"@ != "system"@,
        "status"@ != "system"@,
        "call_id"@ != "content"@,
        "call_id"@ != "summary"@,
        "content"@ != "summary"@,
        "arguments"@ != "assistant"@,
        "arguments"@ != "completed"@,
        "arguments"@ != "developer"@,
        "arguments"@ != "reasoning"@,
        "assistant"@ != "completed"@,
        "assistant"@ != "developer"@,
        "assistant"@ != "reasoning"@,
        "completed"@ != "developer"@,
        "completed"@ != "reasoning"@,
        "developer"@ != "reasoning"@,
{
    reveal_strlit("id");
    reveal_strlit("role");
    reveal_strlit("text");
    reveal_strlit("type");
    reveal_strlit("user");
    reveal_strlit("output");
    reveal_strlit("status");
    reveal_strlit("system");
    reveal_strlit("call_id");
    reveal_strlit("content");
    reveal_strlit("summary");
    reveal_strlit("arguments");
    reveal_strlit("assistant");
    reveal_strlit("completed");
    reveal_strlit("developer");
    reveal_strlit("reasoning");
    reveal_strlit("input_text");
    reveal_strlit("output_text");
    reveal_strlit("function_call");
    reveal_strlit("encrypted_content");
    reveal_strlit("function_call_output");
    assert("id"@.len() == 2);
    assert("role"@.len() == 4);
    assert("text"@.len() == 4);
    assert("type"@.len() == 4);
    assert("user"@.len() == 4);
    assert("output"@.len() == 6);
    assert("status"@.len() == 6);
    assert("system"@.len() == 6);
    assert("call_id"@.len() == 7);
    assert("content"@.len() == 7);
    assert("summary"@.len() == 7);
    assert("arguments"@.len() == 9);
    assert("assistant"@.len() == 9);
    assert("completed"@.len() == 9);
    assert("developer"@.len() == 9);
    assert("reasoning"@.len() == 9);
    assert("input_text"@.len() == 10);
    assert("output_text"@.len() == 11);
    assert("function_call"@.len() == 13);
    assert("encrypted_content"@.len() == 17);
    assert("function_call_output"@.len() == 20);
    assert("role"@[0] == 'r' && "text"@[0] == 't');
    assert("role"@[0] == 'r' && "type"@[0] == 't');
    assert("role"@[0] == 'r' && "user"@[0] == 'u');
    assert("text"@[1] == 'e' && "type"@[1] == 'y');
    assert("text"@[0] == 't' && "user"@[0] == 'u');
    assert("type"@[0] == 't' && "user"@[0] == 'u');
    assert("output"@[0] == 'o' && "status"@[0] == 's');
    assert("output"@[0] == 'o' && "system"@[0] == 's');
    assert("status"@[1] == 't' && "system"@[1] == 'y');
    assert("call_id"@[1] == 'a' && "content"@[1] == 'o');
    assert("call_id"@[0] == 'c' && "summary"@[0] == 's');
    assert("content"@[0] == 'c' && "summary"@[0] == 's');
    assert("arguments"@[1] == 'r' && "assistant"@[1] == 's');
    assert("arguments"@[0] == 'a' && "completed"@[0] == 'c');
    assert("arguments"@[0] == 'a' && "developer"@[0] == 'd');
    assert("arguments"@[0] == 'a' && "reasoning"@[0] == 'r');
    assert("assistant"@[0] == 'a' && "completed"@[0] == 'c');
    assert("assistant"@[0] == 'a' && "developer"@[0] == 'd');
    assert("assistant"@[0] == 'a' && "reasoning"@[0] == 'r');
    assert("completed"@[0] == 'c' && "developer"@[0] == 'd');
    assert("completed"@[0] == 'c' && "reasoning"@[0] == 'r');
    assert("developer"@[0] == 'd' && "reasoning"@[0] == 'r');
}

/// The words of a request differ from each other.
proof fn lemma_request_words()
    ensures
        "text"@.len() == 4,
        "user"@.len() == 4,
        "input"@.len() == 5,
        "model"@.len() == 5,
        "store"@.len() == 5,
        "tools"@.len() == 5,
        "effort"@.len() == 6,
        "stream"@.len() == 6,
        "include"@.len() == 7,
        "summary"@.len() == 7,
        "metadata"@.len() == 8,
        "reasoning"@.len() == 9,
        "background"@.len() == 10,
        "truncation"@.len() == 10,
        "temperature"@.len() == 11,
        "tool_choice"@.len() == 11,
        "instructions"@.len() == 12,
        "service_tier"@.len() == 12,
        "max_tool_calls"@.len() == 14,
        "prompt_cache_key"@.len() == 16,
        "max_output_tokens"@.len() == 17,
        "stream_tool_calls"@.len() == 17,
        "parallel_tool_calls"@.len() == 19,
        "x-grok-doom-loop-check"@.len() == 22,
        "x_grok_doom_loop_check"@.len() == 22,
        "text"@ != "user"@,
        "input"@ != "model"@,
        "input"@ != "store"@,
        "input"@ != "tools"@,
        "model"@ != "store"@,
        "model"@ != "tools"@,
        "store"@ != "tools"@,
        "effort"@ != "stream"@,
        "include"@ != "summary"@,
        "background"@ != "truncation"@,
        "temperature"@ != "tool_choice"@,
        "instructions"@ != "service_tier"@,
        "max_output_tokens"@ != "stream_tool_calls"@,
        "x-grok-doom-loop-check"@ != "x_grok_doom_loop_check"@,
{
    reveal_strlit("text");
    reveal_strlit("user");
    reveal_strlit("input");
    reveal_strlit("model");
    reveal_strlit("store");
    reveal_strlit("tools");
    reveal_strlit("effort");
    reveal_strlit("stream");
    reveal_strlit("include");
    reveal_strlit("summary");
    reveal_strlit("metadata");
    reveal_strlit("reasoning");
    reveal_strlit("background");
    reveal_strlit("truncation");
    reveal_strlit("temperature");
    reveal_strlit("tool_choice");
    reveal_strlit("instructions");
    reveal_strlit("service_tier");
    reveal_strlit("max_tool_calls");
    reveal_strlit("prompt_cache_key");
    reveal_strlit("max_output_tokens");
    reveal_strlit("stream_tool_calls");
    reveal_strlit("parallel_tool_calls");
    reveal_strlit("x-grok-doom-loop-check");
    reveal_strlit("x_grok_doom_loop_check");
    assert("text"@.len() == 4);
    assert("user"@.len() == 4);
    assert("input"@.len() == 5);
    assert("model"@.len() == 5);
    assert("store"@.len() == 5);
    assert("tools"@.len() == 5);
    assert("effort"@.len() == 6);
    assert("stream"@.len() == 6);
    assert("include"@.len() == 7);
    assert("summary"@.len() == 7);
    assert("metadata"@.len() == 8);
    assert("reasoning"@.len() == 9);
    assert("background"@.len() == 10);
    assert("truncation"@.len() == 10);
    assert("temperature"@.len() == 11);
    assert("tool_choice"@.len() == 11);
    assert("instructions"@.len() == 12);
    assert("service_tier"@.len() == 12);
    assert("max_tool_calls"@.len() == 14);
    assert("prompt_cache_key"@.len() == 16);
    assert("max_output_tokens"@.len() == 17);
    assert("stream_tool_calls"@.len() == 17);
    assert("parallel_tool_calls"@.len() == 19);
    assert("x-grok-doom-loop-check"@.len() == 22);
    assert("x_grok_doom_loop_check"@.len() == 22);
    assert("text"@[0] == 't' && "user"@[0] == 'u');
    assert("input"@[0] == 'i' && "model"@[0] == 'm');
    assert("input"@[0] == 'i' && "store"@[0] == 's');
    assert("input"@[0] == 'i' && "tools"@[0] == 't');
    assert("model"@[0] == 'm' && "store"@[0] == 's');
    assert("model"@[0] == 'm' && "tools"@[0] == 't');
    assert("store"@[0] == 's' && "tools"@[0] == 't');
    assert("effort"@[0] == 'e' && "stream"@[0] == 's');
    assert("include"@[0] == 'i' && "summary"@[0] == 's');
    assert("background"@[0] == 'b' && "truncation"@[0] == 't');
    assert("temperature"@[1] == 'e' && "tool_choice"@[1] == 'o');
    assert("instructions"@[0] == 'i' && "service_tier"@[0] == 's');
    assert("max_output_tokens"@[0] == 'm' && "stream_tool_calls"@[0] == 's');
    assert("x-grok-doom-loop-check"@[1] == '-' && "x_grok_doom_loop_check"@[1] == '_');
}

/// The words for an effort differ from each other.
proof fn lemma_effort_words()
    ensures
        "low"@.len() == 3,
        "max"@.len() == 3,
        "med"@.len() == 3,
        "off"@.len() == 3,
        "high"@.len() == 4,
        "none"@.len() == 4,
        "light"@.len() == 5,
        "ultra"@.len() == 5,
        "xhigh"@.len() == 5,
        "medium"@.len() == 6,
        "maximum"@.len() == 7,
        "minimal"@.len() == 7,
        "extrahigh"@.len() == 9,
        "extra-high"@.len() == 10,
        "extra_high"@.len() == 10,
        "low"@ != "max"@,
        "low"@ != "med"@,
        "low"@ != "off"@,
        "max"@ != "med"@,
        "max"@ != "off"@,
        "med"@ != "off"@,
        "high"@ != "none"@,
        "light"@ != "ultra"@,
        "light"@ != "xhigh"@,
        "ultra"@ != "xhigh"@,
        "maximum"@ != "minimal"@,
        "extra-high"@ != "extra_high"@,
{
    reveal_strlit("low");
    reveal_strlit("max");
    reveal_strlit("med");
    reveal_strlit("off");
    reveal_strlit("high");
    reveal_strlit("none");
    reveal_strlit("light");
    reveal_strlit("ultra");
    reveal_strlit("xhigh");
    reveal_strlit("medium");
    reveal_strlit("maximum");
    reveal_strlit("minimal");
    reveal_strlit("extrahigh");
    reveal_strlit("extra-high");
    reveal_strlit("extra_high");
    assert("low"@.len() == 3);
    assert("max"@.len() == 3);
    assert("med"@.len() == 3);
    assert("off"@.len() == 3);
    assert("high"@.len() == 4);
    assert("none"@.len() == 4);
    assert("light"@.len() == 5);
    assert("ultra"@.len() == 5);
    assert("xhigh"@.len() == 5);
    assert("medium"@.len() == 6);
    assert("maximum"@.len() == 7);
    assert("minimal"@.len() == 7);
    assert("extrahigh"@.len() == 9);
    assert("extra-high"@.len() == 10);
    assert("extra_high"@.len() == 10);
    assert("low"@[0] == 'l' && "max"@[0] == 'm');
    assert("low"@[0] == 'l' && "med"@[0] == 'm');
    assert("low"@[0] == 'l' && "off"@[0] == 'o');
    assert("max"@[1] == 'a' && "med"@[1] == 'e');
    assert("max"@[0] == 'm' && "off"@[0] == 'o');
    assert("med"@[0] == 'm' && "off"@[0] == 'o');
    assert("high"@[0] == 'h' && "none"@[0] == 'n');
    assert("light"@[0] == 'l' && "ultra"@[0] == 'u');
    assert("light"@[0] == 'l' && "xhigh"@[0] == 'x');
    assert("ultra"@[0] == 'u' && "xhigh"@[0] == 'x');
    assert("maximum"@[1] == 'a' && "minimal"@[1] == 'i');
    assert("extra-high"@[5] == '-' && "extra_high"@[5] == '_');
}

/// Whether an item is a message of an instructor.
pub open spec fn instructs(item: Map<Seq<char>, JsonView>) -> bool {
    lookup(item, "role"@) == Some(JsonView::Text("system"@)) || lookup(item, "role"@) == Some(
        JsonView::Text("developer"@),
    )
}

/// Whether an item is a message of the user or of the assistant.
pub open spec fn converses(item: Map<Seq<char>, JsonView>) -> bool {
    lookup(item, "role"@) == Some(JsonView::Text("user"@)) || lookup(item, "role"@) == Some(
        JsonView::Text("assistant"@),
    )
}

/// Whether an item is of this type.
pub open spec fn is_a(item: Map<Seq<char>, JsonView>, kind: Seq<char>) -> bool {
    lookup(item, "type"@) == Some(JsonView::Text(kind))
}

/// Whether an item carries its ciphertext, and an id that starts with `rs_` and
/// holds no dash.
pub open spec fn is_readable(item: Map<Seq<char>, JsonView>) -> bool {
    &&& text_of(lookup(item, "encrypted_content"@)) matches Some(ciphertext) && ciphertext.len() > 0
    &&& text_of(lookup(item, "id"@)) matches Some(id) && {
        &&& id.len() >= 3 && id[0] == 'r' && id[1] == 's' && id[2] == '_'
        &&& forall|i: int| 0 <= i < id.len() ==> id[i] != '-'
    }
}

/// An item is left out of the history if and only if it is a message of an
/// instructor, or reasoning that the upstream could not read again. What is no
/// object goes through as it is.
pub proof fn lemma_items_left_out(item: JsonView)
    ensures
        history_item(item) is None <==> (item matches JsonView::Object(fields) && (instructs(fields)
            || (is_a(fields, "reasoning"@) && !is_readable(fields)))),
        !(item is Object) ==> history_item(item) == Some(item),
        item is Object && history_item(item) is Some ==> history_item(item)->Some_0 is Object,
{
    lemma_item_words();
    reveal_strlit("rs_");
    if let JsonView::Object(fields) = item {
        if let Some(id) = text_of(lookup(fields, "id"@)) {
            let mark = "rs_"@;
            assert(mark.len() == 3 && mark[0] == 'r' && mark[1] == 's' && mark[2] == '_');
            if id.len() >= 3 {
                let start = id.subrange(0, 3);
                assert(start[0] == id[0] && start[1] == id[1] && start[2] == id[2]);
                if id[0] == 'r' && id[1] == 's' && id[2] == '_' {
                    assert(start =~= mark);
                }
            }
        }
    }
}

/// A history item keeps every field that it has: all but the content of a message
/// of the user or of the assistant is sent as it came.
pub proof fn lemma_item_fields_are_kept(
    item: Map<Seq<char>, JsonView>,
    sent: Map<Seq<char>, JsonView>,
    key: Seq<char>,
)
    requires
        history_item(JsonView::Object(item)) == Some(JsonView::Object(sent)),
        item.dom().contains(key),
    ensures
        key != "content"@ || !converses(item) ==> lookup(sent, key) == lookup(item, key),
        sent.dom().contains(key),
{
    lemma_item_words();
}

/// What a history item is given where it lacks it, and nothing else: reasoning an
/// empty summary, a function call its status, empty arguments and an id made of
/// that of its call, and the output of a function an empty text.
pub proof fn lemma_item_fields_that_are_added(
    item: Map<Seq<char>, JsonView>,
    sent: Map<Seq<char>, JsonView>,
    key: Seq<char>,
)
    requires
        history_item(JsonView::Object(item)) == Some(JsonView::Object(sent)),
        !item.dom().contains(key),
    ensures
        is_a(item, "reasoning"@) && key == "summary"@ ==> lookup(sent, key) == Some(
            JsonView::List(Seq::empty()),
        ),
        is_a(item, "function_call"@) && key == "status"@ ==> lookup(sent, key) == Some(
            JsonView::Text("completed"@),
        ),
        is_a(item, "function_call"@) && key == "arguments"@ ==> lookup(sent, key) == Some(
            JsonView::Text(Seq::empty()),
        ),
        is_a(item, "function_call"@) && key == "id"@ ==> lookup(sent, key) == (match text_of(
            lookup(item, "call_id"@),
        ) {
            Some(call) => Some(JsonView::Text("fc_"@ + call)),
            None => None,
        }),
        is_a(item, "function_call_output"@) && key == "output"@ ==> lookup(sent, key) == Some(
            JsonView::Text(Seq::empty()),
        ),
        sent.dom().contains(key) ==> {
            ||| is_a(item, "reasoning"@) && key == "summary"@
            ||| is_a(item, "function_call"@) && (key == "status"@ || key == "arguments"@ || key
                == "id"@)
            ||| is_a(item, "function_call_output"@) && key == "output"@
        },
{
    lemma_item_words();
}

/// Whether a value is a piece of content that holds just this text, marked as this
/// kind.
pub open spec fn is_marked_text(part: JsonView, kind: Seq<char>, text: Seq<char>) -> bool {
    part matches JsonView::Object(fields) && {
        &&& lookup(fields, "type"@) == Some(JsonView::Text(kind))
        &&& lookup(fields, "text"@) == Some(JsonView::Text(text))
        &&& forall|key: Seq<char>| #[trigger]
            fields.dom().contains(key) ==> key == "type"@ || key == "text"@
    }
}

/// What becomes of the content of a message of the user or of the assistant. A
/// text becomes one piece that holds it, and each piece of a list stays in its
/// place: a text is marked, a piece marked as plain text is marked as the role
/// asks, with all else in it unchanged, and any other piece stays.
pub proof fn lemma_message_content(
    item: Map<Seq<char>, JsonView>,
    sent: Map<Seq<char>, JsonView>,
    kind: Seq<char>,
)
    requires
        history_item(JsonView::Object(item)) == Some(JsonView::Object(sent)),
        (lookup(item, "role"@) == Some(JsonView::Text("user"@)) && kind == "input_text"@) || (
        lookup(item, "role"@) == Some(JsonView::Text("assistant"@)) && kind == "output_text"@),
        item.dom().contains("content"@),
    ensures
        sent.dom().contains("content"@),
        item["content"@] matches JsonView::Text(text) ==> (sent["content"@] matches JsonView::List(
            parts,
        ) && parts.len() == 1 && is_marked_text(parts[0], kind, text)),
        item["content"@] matches JsonView::List(given) ==> (sent["content"@] matches JsonView::List(
            parts,
        ) && parts.len() == given.len() && forall|i: int|
            0 <= i < given.len() ==> match #[trigger] given[i] {
                JsonView::Text(text) => is_marked_text(parts[i], kind, text),
                JsonView::Object(fields) => parts[i] matches JsonView::Object(marked) && {
                    &&& marked.dom() == fields.dom()
                    &&& forall|key: Seq<char>| #[trigger]
                        fields.dom().contains(key) && key != "type"@ ==> marked[key] == fields[key]
                    &&& lookup(fields, "type"@) == Some(JsonView::Text("text"@)) ==> lookup(
                        marked,
                        "type"@,
                    ) == Some(JsonView::Text(kind))
                    &&& lookup(fields, "type"@) != Some(JsonView::Text("text"@)) ==> lookup(
                        marked,
                        "type"@,
                    ) == lookup(fields, "type"@)
                },
                other => parts[i] == other,
            }),
        !(item["content"@] is Text) && !(item["content"@] is List) ==> sent["content"@]
            == item["content"@],
{
    lemma_item_words();
    if let JsonView::List(given) = item["content"@] {
        let parts = sent["content"@]->List_0;
        assert forall|i: int| 0 <= i < given.len() implies match #[trigger] given[i] {
            JsonView::Text(text) => is_marked_text(parts[i], kind, text),
            JsonView::Object(fields) => parts[i] matches JsonView::Object(marked) && {
                &&& marked.dom() == fields.dom()
                &&& forall|key: Seq<char>| #[trigger]
                    fields.dom().contains(key) && key != "type"@ ==> marked[key] == fields[key]
                &&& lookup(fields, "type"@) == Some(JsonView::Text("text"@)) ==> lookup(
                    marked,
                    "type"@,
                ) == Some(JsonView::Text(kind))
                &&& lookup(fields, "type"@) != Some(JsonView::Text("text"@)) ==> lookup(
                    marked,
                    "type"@,
                ) == lookup(fields, "type"@)
            },
            other => parts[i] == other,
        } by {
            if let JsonView::Object(fields) = given[i] {
                let marked = parts[i]->Object_0;
                assert(marked.dom() =~= fields.dom());
            }
        }
    }
}

/// A history is made item by item, in order: that of two lists is that of the
/// first and then that of the second, and that of one item is what the item
/// becomes.
pub proof fn lemma_history_goes_item_by_item(
    first: Seq<JsonView>,
    second: Seq<JsonView>,
    item: JsonView,
)
    ensures
        history(first + second) == history(first) + history(second),
        history(seq![item]) == (match history_item(item) {
            Some(sent) => seq![sent],
            None => Seq::empty(),
        }),
    decreases second.len(),
{
    if second.len() == 0 {
        assert(first + second =~= first);
        assert(history(first) + history(second) =~= history(first));
    } else {
        lemma_history_goes_item_by_item(first, second.drop_last(), item);
        assert((first + second).drop_last() =~= first + second.drop_last());
        assert((first + second).last() == second.last());
        assert(history(first + second) =~= history(first) + history(second));
    }
    assert(seq![item].drop_last() =~= Seq::empty());
    assert(history(seq![item].drop_last()) =~= Seq::empty());
    assert(history(seq![item]) =~= match history_item(item) {
        Some(sent) => seq![sent],
        None => Seq::empty(),
    });
}

/// The instructions in a history come out one by one, in order.
pub proof fn lemma_instructions_go_item_by_item(
    first: Seq<JsonView>,
    second: Seq<JsonView>,
    item: JsonView,
)
    ensures
        inline_instructions(first + second) == inline_instructions(first) + inline_instructions(
            second,
        ),
        inline_instructions(seq![item]) == (match inline_instruction(item) {
            Some(text) => seq![text],
            None => Seq::empty(),
        }),
    decreases second.len(),
{
    if second.len() == 0 {
        assert(first + second =~= first);
        assert(inline_instructions(first) + inline_instructions(second) =~= inline_instructions(
            first,
        ));
    } else {
        lemma_instructions_go_item_by_item(first, second.drop_last(), item);
        assert((first + second).drop_last() =~= first + second.drop_last());
        assert((first + second).last() == second.last());
        assert(inline_instructions(first + second) =~= inline_instructions(first)
            + inline_instructions(second));
    }
    assert(seq![item].drop_last() =~= Seq::empty());
    assert(inline_instructions(seq![item].drop_last()) =~= Seq::empty());
    assert(inline_instructions(seq![item]) =~= match inline_instruction(item) {
        Some(text) => seq![text],
        None => Seq::empty(),
    });
}

/// A message of an instructor gives its text as an instruction, where it has one
/// that is not empty, and nothing else does.
pub proof fn lemma_what_an_instructor_says(item: Map<Seq<char>, JsonView>)
    ensures
        !instructs(item) ==> inline_instruction(JsonView::Object(item)) is None,
        instructs(item) ==> (match lookup(item, "content"@) {
            Some(JsonView::Text(text)) => inline_instruction(JsonView::Object(item)) == (
            if text.len() > 0 {
                Some(text)
            } else {
                None
            }),
            Some(JsonView::Object(fields)) => match lookup(fields, "text"@) {
                Some(JsonView::Text(text)) => inline_instruction(JsonView::Object(item)) == (
                if text.len() > 0 {
                    Some(text)
                } else {
                    None
                }),
                _ => inline_instruction(JsonView::Object(item)) is None,
            },
            Some(JsonView::List(parts)) => ({
                let text = joined(part_texts(parts), "\n"@);
                inline_instruction(JsonView::Object(item)) == (if text.len() > 0 {
                    Some(text)
                } else {
                    None
                })
            }),
            _ => inline_instruction(JsonView::Object(item)) is None,
        }),
        content_text(None) is None,
{
    lemma_item_words();
}

/// The texts of pieces of content come out piece by piece, in order: a text gives
/// itself, an object gives the text that it holds, and nothing else gives any.
pub proof fn lemma_texts_go_piece_by_piece(
    first: Seq<JsonView>,
    second: Seq<JsonView>,
    part: JsonView,
)
    ensures
        part_texts(first + second) == part_texts(first) + part_texts(second),
        part_texts(seq![part]) == (match part {
            JsonView::Text(text) => seq![text],
            JsonView::Object(fields) => match lookup(fields, "text"@) {
                Some(JsonView::Text(text)) => seq![text],
                _ => Seq::empty(),
            },
            _ => Seq::empty(),
        }),
    decreases second.len(),
{
    if second.len() == 0 {
        assert(first + second =~= first);
        assert(part_texts(first) + part_texts(second) =~= part_texts(first));
    } else {
        lemma_texts_go_piece_by_piece(first, second.drop_last(), part);
        assert((first + second).drop_last() =~= first + second.drop_last());
        assert((first + second).last() == second.last());
        assert(part_texts(first + second) =~= part_texts(first) + part_texts(second));
    }
    assert(seq![part].drop_last() =~= Seq::empty());
    assert(part_texts(seq![part].drop_last()) =~= Seq::empty());
    assert(part_texts(seq![part]) =~= match part {
        JsonView::Text(text) => seq![text],
        JsonView::Object(fields) => match lookup(fields, "text"@) {
            Some(JsonView::Text(text)) => seq![text],
            _ => Seq::empty(),
        },
        _ => Seq::empty(),
    });
}

/// The fields of the client that the upstream does not take, and which are left
/// out without a word.
pub open spec fn is_ignored(key: Seq<char>) -> bool {
    ||| key == "user"@
    ||| key == "service_tier"@
    ||| key == "metadata"@
    ||| key == "background"@
    ||| key == "prompt_cache_key"@
    ||| key == "temperature"@
    ||| key == "max_output_tokens"@
    ||| key == "stream_tool_calls"@
    ||| key == "x_grok_doom_loop_check"@
    ||| key == "x-grok-doom-loop-check"@
}

/// The fields that the upstream takes.
pub open spec fn is_taken(key: Seq<char>) -> bool {
    ||| key == "model"@
    ||| key == "input"@
    ||| key == "instructions"@
    ||| key == "tools"@
    ||| key == "tool_choice"@
    ||| key == "parallel_tool_calls"@
    ||| key == "reasoning"@
    ||| key == "include"@
    ||| key == "max_tool_calls"@
    ||| key == "text"@
    ||| key == "truncation"@
    ||| key == "stream"@
    ||| key == "store"@
}

/// Fields that are ignored make no difference: a request is adapted as if they
/// were not there.
pub proof fn lemma_ignored_fields_make_no_difference(
    given: Map<Seq<char>, JsonView>,
    key: Seq<char>,
    value: JsonView,
)
    requires
        is_ignored(key),
    ensures
        adapt(JsonView::Object(given.insert(key, value))) == adapt(JsonView::Object(given)),
        adapt(JsonView::Object(given.remove(key))) == adapt(JsonView::Object(given)),
{
    assert(kept_fields(given.insert(key, value)) =~= kept_fields(given));
    assert(kept_fields(given.remove(key)) =~= kept_fields(given));
}

/// Whether every field of a request is known.
pub open spec fn all_known(given: Map<Seq<char>, JsonView>) -> bool {
    forall|key: Seq<char>| #[trigger]
        given.dom().contains(key) ==> is_taken(key) || is_ignored(key)
}

/// Which requests are accepted, and what every other one is refused with: a
/// request has to be an object, all of its fields have to be known, its model has
/// to be one of the two, its instructions a text, and its input a text or a list.
pub proof fn lemma_which_requests_are_accepted(request: JsonView)
    ensures
        !(request is Object) ==> adapt(request) == Err::<JsonView, ProtocolErrorView>(
            ProtocolErrorView::RootMustBeObject,
        ),
        request matches JsonView::Object(given) ==> {
            let model = text_of(lookup(given, "model"@));
            let told = lookup(given, "instructions"@);
            let input = lookup(given, "input"@);
            if !all_known(given) {
                adapt(request) matches Err(ProtocolErrorView::UnsupportedField(_))
            } else if !(model matches Some(name) && name.len() > 0) {
                adapt(request) == Err::<JsonView, ProtocolErrorView>(
                    ProtocolErrorView::MissingModel,
                )
            } else if model != Some("gpt-5.6-sol"@) && model != Some("gpt-5.6-terra"@) {
                adapt(request) == Err::<JsonView, ProtocolErrorView>(
                    ProtocolErrorView::UnsupportedModel(model->Some_0),
                )
            } else if told matches Some(value) && !(value is Text) {
                adapt(request) == Err::<JsonView, ProtocolErrorView>(
                    ProtocolErrorView::InvalidInstructions,
                )
            } else if input matches Some(value) && !(value is Text) && !(value is List) {
                adapt(request) == Err::<JsonView, ProtocolErrorView>(
                    ProtocolErrorView::InvalidInput,
                )
            } else {
                adapt(request) is Ok && adapt(request)->Ok_0 is Object
            }
        },
{
    lemma_request_words();
    if let JsonView::Object(given) = request {
        let fields = kept_fields(given);
        if !all_known(given) {
            let key = choose|key: Seq<char>| #[trigger]
                given.dom().contains(key) && !(is_taken(key) || is_ignored(key));
            assert(unsupported_field(fields, key));
        } else {
            assert forall|key: Seq<char>| !unsupported_field(fields, key) by {
                if fields.dom().contains(key) {
                    assert(given.dom().contains(key));
                }
            }
        }
    }
}

/// The field that a refusal names is the first one, in the order of the keys, that
/// is not known.
pub proof fn lemma_the_refusal_names_a_field(
    given: Map<Seq<char>, JsonView>,
    named: Seq<char>,
    other: Seq<char>,
)
    requires
        given.dom().finite(),
        adapt(JsonView::Object(given)) == Err::<JsonView, ProtocolErrorView>(
            ProtocolErrorView::UnsupportedField(named),
        ),
    ensures
        given.dom().contains(named) && !is_taken(named) && !is_ignored(named),
        given.dom().contains(other) && !is_taken(other) && !is_ignored(other) && other != named
            ==> crate::text::text_before(named, other),
{
    lemma_request_words();
    let fields = kept_fields(given);
    let key = choose|key: Seq<char>| unsupported_field(fields, key);
    crate::protocol::lemma_first_unknown_field_is_named(given, key);
    assert(first_unsupported(fields, named));
    assert(unsupported_field(fields, named));
    if given.dom().contains(other) && !is_taken(other) && !is_ignored(other) && other != named {
        assert(unsupported_field(fields, other));
    }
}

/// The fields of an adapted request: the stream is asked for, nothing is stored,
/// whatever is not rewritten is sent as it was given, and nothing is made up.
pub proof fn lemma_adapted_fields(
    given: Map<Seq<char>, JsonView>,
    sent: Map<Seq<char>, JsonView>,
    key: Seq<char>,
)
    requires
        adapt(JsonView::Object(given)) == Ok::<JsonView, ProtocolErrorView>(JsonView::Object(sent)),
    ensures
        lookup(sent, "stream"@) == Some(JsonView::Bool(true)),
        lookup(sent, "store"@) == Some(JsonView::Bool(false)),
        key == "model"@ || key == "tools"@ || key == "tool_choice"@ || key == "parallel_tool_calls"@
            || key == "max_tool_calls"@ || key == "text"@ || key == "truncation"@ ==> lookup(
            sent,
            key,
        ) == lookup(given, key),
        sent.dom().contains(key) ==> is_taken(key),
        lookup(sent, "input"@) matches Some(JsonView::List(_)),
        lookup(sent, "instructions"@) matches Some(JsonView::Text(_)),
        lookup(sent, "reasoning"@) matches Some(JsonView::Object(_)),
        lookup(sent, "include"@) matches Some(JsonView::List(_)),
{
    lemma_request_words();
    lemma_which_requests_are_accepted(JsonView::Object(given));
    let fields = kept_fields(given);
    assert(!unsupported_field(fields, key));
}

/// The input of an adapted request is the history that was given; a text is a
/// message of the user that holds it, and no input is an empty history.
pub proof fn lemma_adapted_input(
    given: Map<Seq<char>, JsonView>,
    sent: Map<Seq<char>, JsonView>,
)
    requires
        adapt(JsonView::Object(given)) == Ok::<JsonView, ProtocolErrorView>(JsonView::Object(sent)),
    ensures
        lookup(sent, "input"@) matches Some(JsonView::List(items)) && match lookup(
            given,
            "input"@,
        ) {
            None => items.len() == 0,
            Some(JsonView::List(history_given)) => items == history(history_given),
            Some(JsonView::Text(text)) => items.len() == 1 && (items[0] matches JsonView::Object(
                message,
            ) && {
                &&& lookup(message, "role"@) == Some(JsonView::Text("user"@))
                &&& lookup(message, "content"@) matches Some(JsonView::List(parts))
                &&& parts.len() == 1 && is_marked_text(parts[0], "input_text"@, text)
                &&& forall|key: Seq<char>| #[trigger]
                    message.dom().contains(key) ==> key == "role"@ || key == "content"@
            }),
            _ => false,
        },
{
    lemma_request_words();
    lemma_item_words();
    lemma_which_requests_are_accepted(JsonView::Object(given));
    if let Some(JsonView::Text(text)) = lookup(given, "input"@) {
        let message = crate::protocol::user_message(text);
        lemma_history_goes_item_by_item(Seq::empty(), Seq::empty(), message);
        let fields = message->Object_0;
        let part = crate::protocol::text_part("input_text"@, text);
        let after = crate::protocol::normalized_parts("input_text"@, seq![part]);
        assert(after =~= seq![part]);
        let made = history_item(message)->Some_0->Object_0;
        assert(made =~= fields);
    }
}

/// The instructions of an adapted request: those of the request itself, then those
/// in its history, with an empty line between them; where there are none, the one
/// that is always given.
pub proof fn lemma_adapted_instructions(
    given: Map<Seq<char>, JsonView>,
    sent: Map<Seq<char>, JsonView>,
)
    requires
        adapt(JsonView::Object(given)) == Ok::<JsonView, ProtocolErrorView>(JsonView::Object(sent)),
    ensures
        ({
            let own = match lookup(given, "instructions"@) {
                Some(JsonView::Text(text)) => seq![text],
                _ => Seq::empty(),
            };
            let told = match lookup(given, "input"@) {
                Some(JsonView::List(items)) => inline_instructions(items),
                _ => Seq::empty(),
            };
            lookup(sent, "instructions"@) == Some(
                JsonView::Text(
                    if (own + told).len() == 0 {
                        "You are a helpful coding assistant."@
                    } else {
                        joined(own + told, "\n\n"@)
                    },
                ),
            )
        }),
{
    lemma_request_words();
    lemma_item_words();
    lemma_which_requests_are_accepted(JsonView::Object(given));
    if let Some(JsonView::Text(text)) = lookup(given, "input"@) {
        let message = crate::protocol::user_message(text);
        lemma_instructions_go_item_by_item(Seq::empty(), Seq::empty(), message);
    }
    let own = match lookup(given, "instructions"@) {
        Some(JsonView::Text(text)) => seq![text],
        _ => Seq::<Seq<char>>::empty(),
    };
    assert(own + Seq::<Seq<char>>::empty() =~= own);
}

/// The reasoning of an adapted request: an effort and a concise summary, and
/// nothing else. The effort is the one that was asked for, in whatever case it was
/// written; any other word, and none, is a medium effort.
pub proof fn lemma_adapted_reasoning(
    given: Map<Seq<char>, JsonView>,
    sent: Map<Seq<char>, JsonView>,
)
    requires
        adapt(JsonView::Object(given)) == Ok::<JsonView, ProtocolErrorView>(JsonView::Object(sent)),
    ensures
        lookup(sent, "reasoning"@) matches Some(JsonView::Object(reasoning)) && {
            &&& lookup(reasoning, "summary"@) == Some(JsonView::Text("concise"@))
            &&& lookup(reasoning, "effort"@) matches Some(JsonView::Text(effort))
            &&& effort == (match lookup(given, "reasoning"@) {
                Some(JsonView::Object(asked)) => match lookup(asked, "effort"@) {
                    Some(JsonView::Text(word)) => effort_level(lowercase_of(word)),
                    _ => "medium"@,
                },
                _ => "medium"@,
            })
            &&& forall|key: Seq<char>| #[trigger]
                reasoning.dom().contains(key) ==> key == "summary"@ || key == "effort"@
        },
{
    lemma_request_words();
    lemma_which_requests_are_accepted(JsonView::Object(given));
}

/// Which words ask for which effort.
pub proof fn lemma_words_for_an_effort(word: Seq<char>)
    ensures
        effort_level(word) == "none"@ <==> word == "none"@ || word == "off"@,
        effort_level(word) == "low"@ <==> word == "minimal"@ || word == "light"@ || word == "low"@,
        effort_level(word) == "high"@ <==> word == "high"@,
        effort_level(word) == "xhigh"@ <==> word == "extra_high"@ || word == "extrahigh"@ || word
            == "extra-high"@ || word == "xhigh"@ || word == "ultra"@,
        effort_level(word) == "max"@ <==> word == "max"@ || word == "maximum"@,
        effort_level(word) == "none"@ || effort_level(word) == "low"@ || effort_level(word)
            == "medium"@ || effort_level(word) == "high"@ || effort_level(word) == "xhigh"@
            || effort_level(word) == "max"@,
{
    lemma_effort_words();
}

/// A letter has the lowercase letter that stands at the same place of the alphabet; what
/// is no capital letter stays as it is.
pub proof fn lemma_letters_in_lowercase(at: int, ch: char)
    ensures
        0 <= at < 26 ==> ascii_lowercase("ABCDEFGHIJKLMNOPQRSTUVWXYZ"@[at])
            == "abcdefghijklmnopqrstuvwxyz"@[at],
        !"ABCDEFGHIJKLMNOPQRSTUVWXYZ"@.contains(ch) ==> ascii_lowercase(ch) == ch,
{
    reveal_strlit("ABCDEFGHIJKLMNOPQRSTUVWXYZ");
    reveal_strlit("abcdefghijklmnopqrstuvwxyz");
    let capitals = "ABCDEFGHIJKLMNOPQRSTUVWXYZ"@;
    if 'A' <= ch && ch <= 'Z' {
        let place = ch as int - 'A' as int;
        assert(capitals[place] as int == 'A' as int + place);
        assert(capitals[place] == ch);
    }
}

/// What an adapted request includes: all that was asked for, in order, and the
/// encrypted reasoning, once more only where it was not asked for.
pub proof fn lemma_adapted_include(
    given: Map<Seq<char>, JsonView>,
    sent: Map<Seq<char>, JsonView>,
)
    requires
        adapt(JsonView::Object(given)) == Ok::<JsonView, ProtocolErrorView>(JsonView::Object(sent)),
    ensures
        ({
            let asked = match lookup(given, "include"@) {
                Some(JsonView::List(items)) => items,
                _ => Seq::empty(),
            };
            let wanted = JsonView::Text("reasoning.encrypted_content"@);
            lookup(sent, "include"@) matches Some(JsonView::List(items)) && {
                &&& items.contains(wanted)
                &&& items.len() == asked.len() + (if asked.contains(wanted) {
                    0int
                } else {
                    1int
                })
                &&& forall|i: int| 0 <= i < asked.len() ==> items[i] == #[trigger] asked[i]
            }
        }),
{
    lemma_request_words();
    lemma_which_requests_are_accepted(JsonView::Object(given));
    let asked = match lookup(given, "include"@) {
        Some(JsonView::List(items)) => items,
        _ => Seq::<JsonView>::empty(),
    };
    let wanted = JsonView::Text("reasoning.encrypted_content"@);
    assert(asked.push(wanted)[asked.len() as int] == wanted);
}

} // verus!
