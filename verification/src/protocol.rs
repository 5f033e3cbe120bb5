//! Requests: what the client sends, rewritten into what the upstream accepts.
use vstd::prelude::*;
use vstd::utf8::is_ascii_chars;

use crate::json::{
    list_view, lookup, optional_ref, optional_view, pair, text_of, with_default, Json, JsonObject,
    JsonView,
};
use crate::json::{entries_view, json_view, keys_ascend, lemma_entries_view};
use crate::text::{concat, contains_char, is_prefix, is_text, join, joined};
use crate::text::{lemma_text_before_total, lemma_text_before_transitive, optional_text};
use crate::text::{same_text, starts_with, text_before, texts};

verus! {

/// Why a request is refused.
#[derive(Debug, PartialEq, Eq)]
pub enum ProtocolError {
    RootMustBeObject,
    MissingModel,
    UnsupportedModel(String),
    InvalidInput,
    InvalidInstructions,
    UnsupportedField(String),
}

/// What a refusal says.
pub enum ProtocolErrorView {
    RootMustBeObject,
    MissingModel,
    UnsupportedModel(Seq<char>),
    InvalidInput,
    InvalidInstructions,
    UnsupportedField(Seq<char>),
}

impl View for ProtocolError {
    type V = ProtocolErrorView;

    open spec fn view(&self) -> ProtocolErrorView {
        match self {
            ProtocolError::RootMustBeObject => ProtocolErrorView::RootMustBeObject,
            ProtocolError::MissingModel => ProtocolErrorView::MissingModel,
            ProtocolError::UnsupportedModel(model) => ProtocolErrorView::UnsupportedModel(model@),
            ProtocolError::InvalidInput => ProtocolErrorView::InvalidInput,
            ProtocolError::InvalidInstructions => ProtocolErrorView::InvalidInstructions,
            ProtocolError::UnsupportedField(field) => ProtocolErrorView::UnsupportedField(field@),
        }
    }
}

impl ProtocolErrorView {
    /// The sentence that describes the refusal.
    pub open spec fn message(self) -> Seq<char> {
        match self {
            ProtocolErrorView::RootMustBeObject => "request body must be a JSON object"@,
            ProtocolErrorView::MissingModel => "request must include a non-empty model"@,
            ProtocolErrorView::UnsupportedModel(model) => "unsupported model: "@ + model
                + "; only gpt-5.6-sol and gpt-5.6-terra are supported"@,
            ProtocolErrorView::InvalidInput => "request input must be a string or an array"@,
            ProtocolErrorView::InvalidInstructions => "request instructions must be a string"@,
            ProtocolErrorView::UnsupportedField(field) => "unsupported request field: "@ + field,
        }
    }
}

impl ProtocolError {
    /// The sentence that describes the refusal.
    pub fn message(&self) -> (text: String)
        ensures
            text@ == self@.message(),
    {
        match self {
            ProtocolError::RootMustBeObject => "request body must be a JSON object".to_owned(),
            ProtocolError::MissingModel => "request must include a non-empty model".to_owned(),
            ProtocolError::UnsupportedModel(model) => crate::text::concat3(
                "unsupported model: ",
                model.as_str(),
                "; only gpt-5.6-sol and gpt-5.6-terra are supported",
            ),
            ProtocolError::InvalidInput => "request input must be a string or an array".to_owned(),
            ProtocolError::InvalidInstructions => "request instructions must be a string".to_owned(),
            ProtocolError::UnsupportedField(field) => concat(
                "unsupported request field: ",
                field.as_str(),
            ),
        }
    }
}

/// The fields of a request that are dropped without a word.
pub open spec fn dropped_field(key: Seq<char>) -> bool {
    ||| key == "user"@
    ||| key == "service_tier"@
    ||| key == "metadata"@
    ||| key == "background"@
    ||| key == "prompt_cache_key"@
    ||| key == "temperature"@
    ||| key == "max_output_tokens"@
    ||| key == "stream_tool_calls"@
    ||| key == "x_grok_doom_loop_check"@
    ||| key == "x-grok-doom-loop-check"@
}

/// The fields of a request that are supported.
pub open spec fn allowed_field(key: Seq<char>) -> bool {
    ||| key == "model"@
    ||| key == "input"@
    ||| key == "instructions"@
    ||| key == "tools"@
    ||| key == "tool_choice"@
    ||| key == "parallel_tool_calls"@
    ||| key == "reasoning"@
    ||| key == "include"@
    ||| key == "max_tool_calls"@
    ||| key == "text"@
    ||| key == "truncation"@
    ||| key == "stream"@
    ||| key == "store"@
}

fn is_allowed_field(key: &str) -> (r: bool)
    ensures
        r == allowed_field(key@),
{
    same_text(key, "model") || same_text(key, "input") || same_text(key, "instructions")
        || same_text(key, "tools") || same_text(key, "tool_choice") || same_text(
        key,
        "parallel_tool_calls",
    ) || same_text(key, "reasoning") || same_text(key, "include") || same_text(
        key,
        "max_tool_calls",
    ) || same_text(key, "text") || same_text(key, "truncation") || same_text(key, "stream")
        || same_text(key, "store")
}

/// The fields that are left when the dropped ones are gone.
pub open spec fn kept_fields(fields: Map<Seq<char>, JsonView>) -> Map<Seq<char>, JsonView> {
    Map::new(|key: Seq<char>| fields.dom().contains(key) && !dropped_field(key), |key: Seq<char>| fields[key])
}

/// Whether `key` is a field that is not supported.
pub open spec fn unsupported_field(fields: Map<Seq<char>, JsonView>, key: Seq<char>) -> bool {
    fields.dom().contains(key) && !allowed_field(key)
}

/// Whether `key` is the first field, in the order of the keys, that is not
/// supported.
pub open spec fn first_unsupported(fields: Map<Seq<char>, JsonView>, key: Seq<char>) -> bool {
    &&& unsupported_field(fields, key)
    &&& forall|other: Seq<char>| #[trigger]
        unsupported_field(fields, other) && other != key ==> text_before(key, other)
}

/// There is at most one first unsupported field.
pub proof fn lemma_first_unsupported_is_unique(
    fields: Map<Seq<char>, JsonView>,
    one: Seq<char>,
    other: Seq<char>,
)
    requires
        first_unsupported(fields, one),
        first_unsupported(fields, other),
    ensures
        one == other,
{
    if one != other {
        lemma_text_before_transitive(one, other, one);
        lemma_text_before_total(one, one);
    }
}

fn drop_fields(object: &mut JsonObject)
    ensures
        final(object)@ == kept_fields(old(object)@),
{
    let _ = object.remove("user");
    let _ = object.remove("service_tier");
    let _ = object.remove("metadata");
    let _ = object.remove("background");
    let _ = object.remove("prompt_cache_key");
    let _ = object.remove("temperature");
    let _ = object.remove("max_output_tokens");
    let _ = object.remove("stream_tool_calls");
    let _ = object.remove("x_grok_doom_loop_check");
    let _ = object.remove("x-grok-doom-loop-check");
    assert(object@ =~= kept_fields(old(object)@));
}

fn find_unsupported(object: &JsonObject) -> (r: Option<String>)
    ensures
        match r {
            Some(key) => first_unsupported(object@, key@),
            None => forall|key: Seq<char>| !unsupported_field(object@, key),
        },
{
    let entries = object.entries();
    proof {
        lemma_entries_view(entries@);
    }
    let mut i: usize = 0;
    while i < entries.len()
        invariant
            i <= entries@.len(),
            keys_ascend(entries@),
            entries_view(entries@) == object@,
            forall|j: int|
                0 <= j < entries@.len() ==> object@.dom().contains(#[trigger] entries@[j].0@),
            forall|key: Seq<char>| #[trigger]
                object@.dom().contains(key) ==> exists|j: int|
                    0 <= j < entries@.len() && #[trigger] entries@[j].0@ == key,
            forall|j: int| 0 <= j < i ==> allowed_field(#[trigger] entries@[j].0@),
        decreases entries@.len() - i,
    {
        if !is_allowed_field(entries[i].0.as_str()) {
            proof {
                let key = entries@[i as int].0@;
                assert forall|other: Seq<char>| #[trigger] unsupported_field(object@, other)
                    && other != key implies text_before(key, other) by {
                    let j = choose|j: int|
                        0 <= j < entries@.len() && #[trigger] entries@[j].0@ == other;
                    assert(entries@[j].0@ == other);
                    assert(i < j);
                }
            }
            return Some(entries[i].0.clone());
        }
        i = i + 1;
    }
    proof {
        assert forall|key: Seq<char>| !unsupported_field(object@, key) by {
            if object@.dom().contains(key) {
                let j = choose|j: int| 0 <= j < entries@.len() && #[trigger] entries@[j].0@ == key;
                assert(allowed_field(entries@[j].0@));
            }
        }
    }
    None
}

/// What `str::to_lowercase` gives for a text.
pub uninterp spec fn lowercase_of(text: Seq<char>) -> Seq<char>;

/// The lowercase letter of an ASCII uppercase letter; any other character as
/// it is.
pub open spec fn ascii_lowercase(ch: char) -> char {
    if 'A' <= ch && ch <= 'Z' {
        (ch as u32 + 32) as char
    } else {
        ch
    }
}

/// `str::to_lowercase`: the lowercase equivalent of the text as Unicode has
/// it; of an ASCII text, the one with its letters in lowercase.
pub assume_specification[ str::to_lowercase ](text: &str) -> (lower: String)
    ensures
        lower@ == lowercase_of(text@),
        is_ascii_chars(text@) ==> lower@ == text@.map_values(|ch: char| ascii_lowercase(ch)),
;

/// The reasoning effort that the upstream knows for a word in lowercase.
pub open spec fn effort_level(word: Seq<char>) -> Seq<char> {
    if word == "none"@ || word == "off"@ {
        "none"@
    } else if word == "minimal"@ || word == "light"@ || word == "low"@ {
        "low"@
    } else if word == "medium"@ || word == "med"@ {
        "medium"@
    } else if word == "high"@ {
        "high"@
    } else if word == "extra_high"@ || word == "extrahigh"@ || word == "extra-high"@ || word
        == "xhigh"@ || word == "ultra"@ {
        "xhigh"@
    } else if word == "max"@ || word == "maximum"@ {
        "max"@
    } else {
        "medium"@
    }
}

/// The reasoning effort for a word in lowercase.
pub fn effort_of_word(word: &str) -> (level: &'static str)
    ensures
        level@ == effort_level(word@),
{
    if same_text(word, "none") || same_text(word, "off") {
        "none"
    } else if same_text(word, "minimal") || same_text(word, "light") || same_text(word, "low") {
        "low"
    } else if same_text(word, "medium") || same_text(word, "med") {
        "medium"
    } else if same_text(word, "high") {
        "high"
    } else if same_text(word, "extra_high") || same_text(word, "extrahigh") || same_text(
        word,
        "extra-high",
    ) || same_text(word, "xhigh") || same_text(word, "ultra") {
        "xhigh"
    } else if same_text(word, "max") || same_text(word, "maximum") {
        "max"
    } else {
        "medium"
    }
}

/// The reasoning effort for a word in any case.
pub fn map_effort(effort: &str) -> (level: &'static str)
    ensures
        level@ == effort_level(lowercase_of(effort@)),
        is_ascii_chars(effort@) ==> level@ == effort_level(
            effort@.map_values(|ch: char| ascii_lowercase(ch)),
        ),
{
    let word = effort.to_lowercase();
    effort_of_word(word.as_str())
}

/// The effort that a `reasoning` field asks for.
pub open spec fn requested_effort(reasoning: Option<JsonView>) -> Seq<char> {
    match reasoning {
        Some(value) => match value.text_field("effort"@) {
            Some(effort) => effort_level(lowercase_of(effort)),
            None => "medium"@,
        },
        None => "medium"@,
    }
}

/// The `reasoning` field as the upstream gets it.
pub open spec fn normalized_reasoning(reasoning: Option<JsonView>) -> JsonView {
    pair(
        "effort"@,
        JsonView::Text(requested_effort(reasoning)),
        "summary"@,
        JsonView::Text("concise"@),
    )
}

/// Writes the `reasoning` field as the upstream gets it.
pub fn normalize_reasoning(reasoning: Option<Json>) -> (json: Json)
    ensures
        json@ == normalized_reasoning(optional_view(reasoning)),
{
    let effort: &str = match &reasoning {
        Some(value) => match value.text_field("effort") {
            Some(effort) => map_effort(effort),
            None => "medium",
        },
        None => "medium",
    };
    Json::pair("effort", Json::string(effort), "summary", Json::string("concise"))
}

/// The `include` field as the upstream gets it: the list asked for, and in it
/// the encrypted reasoning content.
pub open spec fn normalized_include(asked_for: Option<JsonView>) -> JsonView {
    let asked = match asked_for {
        Some(JsonView::List(items)) => items,
        _ => Seq::empty(),
    };
    let wanted = JsonView::Text("reasoning.encrypted_content"@);
    JsonView::List(
        if asked.contains(wanted) {
            asked
        } else {
            asked.push(wanted)
        },
    )
}

/// Writes the `include` field as the upstream gets it.
pub fn normalize_include(asked_for: Option<Json>) -> (json: Json)
    ensures
        json@ == normalized_include(optional_view(asked_for)),
{
    let mut values: Vec<Json> = match asked_for {
        Some(Json::List(items)) => items,
        _ => Vec::new(),
    };
    let ghost asked = list_view(values@);
    let ghost wanted = JsonView::Text("reasoning.encrypted_content"@);
    proof {
        assert(match optional_view(asked_for) {
            Some(JsonView::List(items)) => items,
            _ => Seq::empty(),
        } =~= asked);
    }
    let mut present = false;
    let mut i: usize = 0;
    while i < values.len()
        invariant
            i <= values@.len(),
            asked == list_view(values@),
            wanted == JsonView::Text("reasoning.encrypted_content"@),
            present == exists|j: int| 0 <= j < i && #[trigger] asked[j] == wanted,
        decreases values@.len() - i,
    {
        assert(asked[i as int] == json_view(values@[i as int]));
        if is_text(values[i].as_str(), "reasoning.encrypted_content") {
            assert(asked[i as int] == wanted);
            present = true;
        }
        i = i + 1;
    }
    if !present {
        values.push(Json::string("reasoning.encrypted_content"));
        assert(list_view(values@) =~= asked.push(wanted));
    }
    Json::List(values)
}

/// A piece of message content: a text of some kind.
pub open spec fn text_part(kind: Seq<char>, text: Seq<char>) -> JsonView {
    pair("type"@, JsonView::Text(kind), "text"@, JsonView::Text(text))
}

fn make_text_part(kind: &str, text: String) -> (json: Json)
    ensures
        json@ == text_part(kind@, text@),
{
    Json::pair("type", Json::string(kind), "text", Json::Text(text))
}

/// The kind of text that a role's messages are made of.
pub open spec fn content_kind(role: Seq<char>) -> Seq<char> {
    if role == "user"@ {
        "input_text"@
    } else {
        "output_text"@
    }
}

/// A piece of message content with its text marked as the given kind.
pub open spec fn normalized_part(kind: Seq<char>, part: JsonView) -> JsonView {
    match part {
        JsonView::Text(text) => text_part(kind, text),
        JsonView::Object(fields) => if text_of(lookup(fields, "type"@)) == Some("text"@) {
            JsonView::Object(fields.insert("type"@, JsonView::Text(kind)))
        } else {
            part
        },
        _ => part,
    }
}

/// The pieces of message content, each marked as the given kind.
pub open spec fn normalized_parts(kind: Seq<char>, parts: Seq<JsonView>) -> Seq<JsonView> {
    parts.map_values(|part: JsonView| normalized_part(kind, part))
}

/// Message content as the upstream gets it.
pub open spec fn normalized_content(role: Seq<char>, content: JsonView) -> JsonView {
    match content {
        JsonView::Text(text) => JsonView::List(seq![text_part(content_kind(role), text)]),
        JsonView::List(parts) => JsonView::List(normalized_parts(content_kind(role), parts)),
        _ => content,
    }
}

fn normalize_part(kind: &str, part: Json) -> (json: Json)
    ensures
        json@ == normalized_part(kind@, part@),
{
    match part {
        Json::Text(text) => make_text_part(kind, text),
        Json::Object(object) => {
            let mut object = object;
            if is_text(object.text_field("type"), "text") {
                object.insert("type", Json::string(kind));
            }
            Json::Object(object)
        },
        other => other,
    }
}

/// Writes message content as the upstream gets it.
pub fn normalize_message_content(role: &str, content: Json) -> (json: Json)
    ensures
        json@ == normalized_content(role@, content@),
{
    let kind: &str = if same_text(role, "user") {
        "input_text"
    } else {
        "output_text"
    };
    match content {
        Json::Text(text) => {
            let mut parts: Vec<Json> = Vec::new();
            parts.push(make_text_part(kind, text));
            assert(list_view(parts@) =~= seq![text_part(kind@, text@)]);
            Json::List(parts)
        },
        Json::List(items) => {
            let ghost parts = list_view(items@);
            let mut out: Vec<Json> = Vec::new();
            for item in it: items
                invariant
                    it.seq() == items@,
                    parts == list_view(items@),
                    out@.len() == it.index(),
                    forall|j: int|
                        0 <= j < out@.len() ==> json_view(#[trigger] out@[j]) == normalized_part(
                            kind@,
                            parts[j],
                        ),
            {
                assert(parts[it.index() as int] == json_view(item));
                out.push(normalize_part(kind, item));
            }
            assert(list_view(out@) =~= normalized_parts(kind@, parts));
            Json::List(out)
        },
        other => other,
    }
}

/// Whether a reasoning item of the history may be sent again: only one that
/// kept its ciphertext and the id that the upstream gave it, which starts with
/// `rs_` and has no dash.
pub open spec fn replayable(item: Map<Seq<char>, JsonView>) -> bool {
    &&& text_of(lookup(item, "encrypted_content"@)) matches Some(content) && content.len() > 0
    &&& text_of(lookup(item, "id"@)) matches Some(id) && is_prefix("rs_"@, id) && !id.contains('-')
}

/// Whether a reasoning item of the history may be sent again.
pub fn replayable_reasoning(item: &JsonObject) -> (r: bool)
    ensures
        r == replayable(item@),
{
    let has_ciphertext = match item.text_field("encrypted_content") {
        Some(content) => !content.is_empty(),
        None => false,
    };
    let has_upstream_id = match item.text_field("id") {
        Some(id) => starts_with(id, "rs_") && !contains_char(id, '-'),
        None => false,
    };
    has_ciphertext && has_upstream_id
}

/// A function call of the history with an id, where its call has one.
pub open spec fn with_call_item_id(item: Map<Seq<char>, JsonView>) -> Map<Seq<char>, JsonView> {
    if item.dom().contains("id"@) {
        item
    } else {
        match text_of(lookup(item, "call_id"@)) {
            Some(call_id) => item.insert("id"@, JsonView::Text("fc_"@ + call_id)),
            None => item,
        }
    }
}

/// An item of the history with the fields that the upstream wants of its type.
pub open spec fn normalized_history(item: Map<Seq<char>, JsonView>) -> Map<Seq<char>, JsonView> {
    let kind = text_of(lookup(item, "type"@));
    if kind == Some("reasoning"@) {
        with_default(item, "summary"@, JsonView::List(Seq::empty()))
    } else if kind == Some("function_call"@) {
        with_default(
            with_default(
                with_call_item_id(item),
                "status"@,
                JsonView::Text("completed"@),
            ),
            "arguments"@,
            JsonView::Text(Seq::empty()),
        )
    } else if kind == Some("function_call_output"@) {
        with_default(item, "output"@, JsonView::Text(Seq::empty()))
    } else {
        item
    }
}

/// An empty JSON array.
pub fn empty_list() -> (json: Json)
    ensures
        json@ == JsonView::List(Seq::empty()),
{
    let items: Vec<Json> = Vec::new();
    assert(list_view(items@) =~= Seq::empty());
    Json::List(items)
}

/// An empty JSON string.
pub fn empty_text() -> (json: Json)
    ensures
        json@ == JsonView::Text(Seq::empty()),
{
    Json::Text(String::new())
}

/// Gives an item of the history the fields that the upstream wants of its
/// type.
pub fn normalize_history_item(item: &mut JsonObject)
    ensures
        final(item)@ == normalized_history(old(item)@),
{
    if is_text(item.text_field("type"), "reasoning") {
        item.insert_missing("summary", empty_list());
    } else if is_text(item.text_field("type"), "function_call") {
        if !item.contains_key("id") {
            let id: Option<String> = match item.text_field("call_id") {
                Some(call_id) => Some(concat("fc_", call_id)),
                None => None,
            };
            if let Some(id) = id {
                item.insert("id", Json::Text(id));
            }
        }
        item.insert_missing("status", Json::string("completed"));
        item.insert_missing("arguments", empty_text());
    } else if is_text(item.text_field("type"), "function_call_output") {
        item.insert_missing("output", empty_text());
    }
}

/// The text of one piece of message content, where it has one.
pub open spec fn part_text(part: JsonView) -> Option<Seq<char>> {
    match part {
        JsonView::Text(text) => Some(text),
        JsonView::Object(fields) => text_of(lookup(fields, "text"@)),
        _ => None,
    }
}

/// The texts of the pieces of message content that have one.
pub open spec fn part_texts(parts: Seq<JsonView>) -> Seq<Seq<char>>
    decreases parts.len(),
{
    if parts.len() == 0 {
        Seq::empty()
    } else {
        match part_text(parts.last()) {
            Some(text) => part_texts(parts.drop_last()).push(text),
            None => part_texts(parts.drop_last()),
        }
    }
}

/// The text of message content, where it has one: the texts of its pieces, a
/// line each.
pub open spec fn content_text(content: Option<JsonView>) -> Option<Seq<char>> {
    match content {
        Some(JsonView::Text(text)) => Some(text),
        Some(JsonView::List(parts)) => Some(joined(part_texts(parts), "\n"@)),
        Some(JsonView::Object(fields)) => text_of(lookup(fields, "text"@)),
        _ => None,
    }
}

/// The text of message content, where it has one.
pub fn extract_text(content: Option<&Json>) -> (text: Option<String>)
    ensures
        optional_text(text) == content_text(optional_ref(content)),
{
    match content {
        None => None,
        Some(Json::Text(text)) => Some(text.clone()),
        Some(Json::List(parts)) => {
            let ghost views = list_view(parts@);
            let mut found: Vec<String> = Vec::new();
            let mut i: usize = 0;
            assert(views.subrange(0, 0) =~= Seq::empty());
            assert(texts(found@) =~= Seq::empty());
            while i < parts.len()
                invariant
                    i <= parts@.len(),
                    views == list_view(parts@),
                    texts(found@) == part_texts(views.subrange(0, i as int)),
                decreases parts@.len() - i,
            {
                let ghost before = found@;
                proof {
                    assert(views.subrange(0, i + 1).drop_last() =~= views.subrange(0, i as int));
                    assert(views.subrange(0, i + 1).last() == json_view(parts@[i as int]));
                }
                let text: Option<&str> = match &parts[i] {
                    Json::Text(text) => Some(text.as_str()),
                    Json::Object(object) => object.text_field("text"),
                    _ => None,
                };
                if let Some(text) = text {
                    found.push(text.to_owned());
                    assert(texts(found@) =~= texts(before).push(text@));
                }
                i = i + 1;
            }
            assert(views.subrange(0, views.len() as int) =~= views);
            Some(join(&found, "\n"))
        },
        Some(Json::Object(object)) => match object.text_field("text") {
            Some(text) => Some(text.to_owned()),
            None => None,
        },
        Some(_) => None,
    }
}

/// The role of a message; empty where it has none.
pub open spec fn role_of(item: Map<Seq<char>, JsonView>) -> Seq<char> {
    match text_of(lookup(item, "role"@)) {
        Some(role) => role,
        None => Seq::empty(),
    }
}

/// Whether messages of this role are instructions, not history.
pub open spec fn instructing_role(role: Seq<char>) -> bool {
    role == "system"@ || role == "developer"@
}

/// A message of the history with its content as the upstream gets it.
pub open spec fn with_normalized_content(item: Map<Seq<char>, JsonView>) -> Map<
    Seq<char>,
    JsonView,
> {
    let role = role_of(item);
    if (role == "user"@ || role == "assistant"@) && item.dom().contains("content"@) {
        item.insert("content"@, normalized_content(role, item["content"@]))
    } else {
        item
    }
}

/// What becomes of one item of the input in the history that the upstream
/// gets; nothing, where it is an instruction or a reasoning item that cannot
/// be sent again.
pub open spec fn history_item(item: JsonView) -> Option<JsonView> {
    match item {
        JsonView::Object(fields) => {
            let message = with_normalized_content(fields);
            if instructing_role(role_of(fields)) {
                None
            } else if text_of(lookup(message, "type"@)) == Some("reasoning"@) && !replayable(
                message,
            ) {
                None
            } else {
                Some(JsonView::Object(normalized_history(message)))
            }
        },
        _ => Some(item),
    }
}

/// The history that the upstream gets for the items of the input.
pub open spec fn history(items: Seq<JsonView>) -> Seq<JsonView>
    decreases items.len(),
{
    if items.len() == 0 {
        Seq::empty()
    } else {
        match history_item(items.last()) {
            Some(item) => history(items.drop_last()).push(item),
            None => history(items.drop_last()),
        }
    }
}

/// The instruction that one item of the input carries.
pub open spec fn inline_instruction(item: JsonView) -> Option<Seq<char>> {
    match item {
        JsonView::Object(fields) => if instructing_role(role_of(fields)) {
            match content_text(lookup(fields, "content"@)) {
                Some(text) => if text.len() > 0 {
                    Some(text)
                } else {
                    None
                },
                None => None,
            }
        } else {
            None
        },
        _ => None,
    }
}

/// The instructions that the items of the input carry.
pub open spec fn inline_instructions(items: Seq<JsonView>) -> Seq<Seq<char>>
    decreases items.len(),
{
    if items.len() == 0 {
        Seq::empty()
    } else {
        match inline_instruction(items.last()) {
            Some(text) => inline_instructions(items.drop_last()).push(text),
            None => inline_instructions(items.drop_last()),
        }
    }
}

/// A message of the user with one text.
pub open spec fn user_message(text: Seq<char>) -> JsonView {
    pair(
        "role"@,
        JsonView::Text("user"@),
        "content"@,
        JsonView::List(seq![text_part("input_text"@, text)]),
    )
}

/// The items of an input: a text stands for one message of the user.
pub open spec fn input_items(input: JsonView) -> Option<Seq<JsonView>> {
    match input {
        JsonView::Text(text) => Some(seq![user_message(text)]),
        JsonView::List(items) => Some(items),
        _ => None,
    }
}

fn role_text(item: &JsonObject) -> (role: String)
    ensures
        role@ == role_of(item@),
{
    match item.text_field("role") {
        Some(role) => role.to_owned(),
        None => String::new(),
    }
}

/// Rewrites one item of the input for the history.
fn normalize_input_item(item: Json) -> (r: Option<Json>)
    requires
        item@ matches JsonView::Object(fields) ==> !instructing_role(role_of(fields)),
    ensures
        optional_view(r) == history_item(item@),
{
    match item {
        Json::Object(object) => {
            let mut object = object;
            let role = role_text(&object);
            if same_text(role.as_str(), "user") || same_text(role.as_str(), "assistant") {
                let content: Option<Json> = match object.get("content") {
                    Some(content) => Some(content.clone()),
                    None => None,
                };
                if let Some(content) = content {
                    object.insert("content", normalize_message_content(role.as_str(), content));
                }
            }
            if is_text(object.text_field("type"), "reasoning") && !replayable_reasoning(&object) {
                return None;
            }
            normalize_history_item(&mut object);
            Some(Json::Object(object))
        },
        other => Some(other),
    }
}

/// Splits an input into the history that the upstream gets and the
/// instructions in it, which are added to `instructions`.
pub fn normalize_input(input: Json, instructions: &mut Vec<String>) -> (r: Result<
    Vec<Json>,
    ProtocolError,
>)
    ensures
        match r {
            Ok(items) => input_items(input@) matches Some(given) && list_view(items@) == history(
                given,
            ) && texts(final(instructions)@) == texts(old(instructions)@) + inline_instructions(
                given,
            ),
            Err(error) => input_items(input@) is None && error@ == ProtocolErrorView::InvalidInput
                && final(instructions)@ == old(instructions)@,
        },
{
    let items: Vec<Json> = match input {
        Json::Text(text) => {
            let mut parts: Vec<Json> = Vec::new();
            parts.push(make_text_part("input_text", text));
            assert(list_view(parts@) =~= seq![text_part("input_text"@, text@)]);
            let mut items: Vec<Json> = Vec::new();
            items.push(
                Json::pair("role", Json::string("user"), "content", Json::List(parts)),
            );
            assert(list_view(items@) =~= seq![user_message(text@)]);
            items
        },
        Json::List(items) => items,
        _ => return Err(ProtocolError::InvalidInput),
    };
    let ghost given = list_view(items@);
    let ghost before = texts(instructions@);
    let mut output: Vec<Json> = Vec::new();
    proof {
        assert(given.subrange(0, 0) =~= Seq::empty());
        assert(list_view(output@) =~= Seq::empty());
        assert(before + Seq::empty() =~= before);
    }
    for item in it: items
        invariant
            it.seq() == items@,
            given == list_view(items@),
            list_view(output@) == history(given.subrange(0, it.index() as int)),
            texts(instructions@) == before + inline_instructions(
                given.subrange(0, it.index() as int),
            ),
    {
        let ghost i = it.index() as int;
        let ghost instructions_before = instructions@;
        let ghost output_before = output@;
        let ghost inlined = inline_instructions(given.subrange(0, i));
        proof {
            assert(given.subrange(0, i + 1).drop_last() =~= given.subrange(0, i));
            assert(given.subrange(0, i + 1).last() == json_view(item));
        }
        let mut instructing = false;
        if let Json::Object(object) = &item {
            let role = role_text(object);
            if same_text(role.as_str(), "system") || same_text(role.as_str(), "developer") {
                instructing = true;
                if let Some(text) = extract_text(object.get("content")) {
                    if !text.as_str().is_empty() {
                        instructions.push(text);
                        proof {
                            assert(texts(instructions@) =~= texts(instructions_before).push(text@));
                            assert(before + inlined.push(text@) =~= (before + inlined).push(text@));
                        }
                    }
                }
            }
        }
        if !instructing {
            if let Some(rewritten) = normalize_input_item(item) {
                output.push(rewritten);
                assert(list_view(output@) =~= list_view(output_before).push(rewritten@));
            }
        }
    }
    assert(given.subrange(0, given.len() as int) =~= given);
    Ok(output)
}

/// Whether a model is supported.
pub open spec fn supported_model(model: Seq<char>) -> bool {
    model == "gpt-5.6-sol"@ || model == "gpt-5.6-terra"@
}

/// The model that a request names; none, where the name is empty.
pub open spec fn requested_model(fields: Map<Seq<char>, JsonView>) -> Option<Seq<char>> {
    match text_of(lookup(fields, "model"@)) {
        Some(model) => if model.len() > 0 {
            Some(model)
        } else {
            None
        },
        None => None,
    }
}

/// The instructions that a request gives in its own field; none at all, where
/// the field is no text.
pub open spec fn own_instructions(fields: Map<Seq<char>, JsonView>) -> Option<Seq<Seq<char>>> {
    match lookup(fields, "instructions"@) {
        Some(JsonView::Text(text)) => Some(seq![text]),
        Some(_) => None,
        None => Some(Seq::empty()),
    }
}

/// The input that a request gives: an empty list, where it gives none.
pub open spec fn given_input(fields: Map<Seq<char>, JsonView>) -> JsonView {
    match lookup(fields, "input"@) {
        Some(input) => input,
        None => JsonView::List(Seq::empty()),
    }
}

/// The instructions as the upstream gets them.
pub open spec fn instructions_text(instructions: Seq<Seq<char>>) -> Seq<char> {
    if instructions.len() == 0 {
        "You are a helpful coding assistant."@
    } else {
        joined(instructions, "\n\n"@)
    }
}

/// The fields of the request that the upstream gets, where the instructions
/// and the items of the input are these.
pub open spec fn adapted_fields(
    fields: Map<Seq<char>, JsonView>,
    instructions: Seq<Seq<char>>,
    items: Seq<JsonView>,
) -> Map<Seq<char>, JsonView> {
    fields.insert("stream"@, JsonView::Bool(true)).insert("store"@, JsonView::Bool(false)).insert(
        "input"@,
        JsonView::List(history(items)),
    ).insert(
        "instructions"@,
        JsonView::Text(instructions_text(instructions + inline_instructions(items))),
    ).insert("reasoning"@, normalized_reasoning(lookup(fields, "reasoning"@))).insert(
        "include"@,
        normalized_include(lookup(fields, "include"@)),
    )
}

/// What becomes of a request once the dropped fields are gone and all others
/// are supported.
pub open spec fn adapt_supported(fields: Map<Seq<char>, JsonView>) -> Result<
    JsonView,
    ProtocolErrorView,
> {
    match requested_model(fields) {
        None => Err(ProtocolErrorView::MissingModel),
        Some(model) => if !supported_model(model) {
            Err(ProtocolErrorView::UnsupportedModel(model))
        } else {
            match own_instructions(fields) {
                None => Err(ProtocolErrorView::InvalidInstructions),
                Some(instructions) => match input_items(given_input(fields)) {
                    None => Err(ProtocolErrorView::InvalidInput),
                    Some(items) => Ok(
                        JsonView::Object(adapted_fields(fields, instructions, items)),
                    ),
                },
            }
        },
    }
}

/// What becomes of a request.
pub open spec fn adapt(request: JsonView) -> Result<JsonView, ProtocolErrorView> {
    match request {
        JsonView::Object(given) => {
            let fields = kept_fields(given);
            if exists|key: Seq<char>| unsupported_field(fields, key) {
                Err(
                    ProtocolErrorView::UnsupportedField(
                        choose|key: Seq<char>| first_unsupported(fields, key),
                    ),
                )
            } else {
                adapt_supported(fields)
            }
        },
        _ => Err(ProtocolErrorView::RootMustBeObject),
    }
}

/// What a rewritten request, or the refusal in its place, holds.
pub open spec fn adapted_view(r: Result<Json, ProtocolError>) -> Result<
    JsonView,
    ProtocolErrorView,
> {
    match r {
        Ok(json) => Ok(json@),
        Err(error) => Err(error@),
    }
}

/// Rewrites a request of the client into the one that the upstream accepts.
pub fn adapt_request(request: Json) -> (r: Result<Json, ProtocolError>)
    ensures
        adapted_view(r) == adapt(request@),
{
    let mut object = match request {
        Json::Object(object) => object,
        _ => return Err(ProtocolError::RootMustBeObject),
    };
    drop_fields(&mut object);
    let ghost fields = object@;
    if let Some(key) = find_unsupported(&object) {
        proof {
            assert(unsupported_field(fields, key@));
            let chosen = choose|key: Seq<char>| first_unsupported(fields, key);
            assert(first_unsupported(fields, key@));
            lemma_first_unsupported_is_unique(fields, chosen, key@);
        }
        return Err(ProtocolError::UnsupportedField(key));
    }
    let model: String = match object.text_field("model") {
        Some(model) => if model.is_empty() {
            return Err(ProtocolError::MissingModel);
        } else {
            model.to_owned()
        },
        None => return Err(ProtocolError::MissingModel),
    };
    if !same_text(model.as_str(), "gpt-5.6-sol") && !same_text(model.as_str(), "gpt-5.6-terra") {
        return Err(ProtocolError::UnsupportedModel(model));
    }
    object.insert("stream", Json::Bool(true));
    object.insert("store", Json::Bool(false));
    let mut instructions: Vec<String> = Vec::new();
    let own = object.remove("instructions");
    let input = object.remove("input");
    let reasoning = object.remove("reasoning");
    let extra = object.remove("include");
    proof {
        lemma_request_keys_differ();
        assert(optional_view(own) == lookup(fields, "instructions"@));
        assert(optional_view(input) == lookup(fields, "input"@));
        assert(optional_view(reasoning) == lookup(fields, "reasoning"@));
        assert(optional_view(extra) == lookup(fields, "include"@));
    }
    match own {
        Some(Json::Text(text)) => {
            instructions.push(text);
            assert(texts(instructions@) =~= seq![text@]);
        },
        Some(_) => return Err(ProtocolError::InvalidInstructions),
        None => {
            assert(texts(instructions@) =~= Seq::empty());
        },
    }
    let given = match input {
        Some(input) => input,
        None => empty_list(),
    };
    let items = normalize_input(given, &mut instructions)?;
    object.insert("input", Json::List(items));
    let text = if instructions.is_empty() {
        "You are a helpful coding assistant.".to_owned()
    } else {
        join(&instructions, "\n\n")
    };
    object.insert("instructions", Json::Text(text));
    object.insert("reasoning", normalize_reasoning(reasoning));
    object.insert("include", normalize_include(extra));
    proof {
        let parts = own_instructions(fields)->Some_0;
        let view = input_items(given_input(fields))->Some_0;
        assert(texts(instructions@).len() == instructions@.len());
        assert(object@ =~= adapted_fields(fields, parts, view));
    }
    Ok(Json::Object(object))
}

/// The fields of a request that get a value of their own all differ.
proof fn lemma_request_keys_differ()
    ensures
        "stream"@ != "store"@,
        "stream"@ != "instructions"@,
        "stream"@ != "input"@,
        "stream"@ != "reasoning"@,
        "stream"@ != "include"@,
        "store"@ != "instructions"@,
        "store"@ != "input"@,
        "store"@ != "reasoning"@,
        "store"@ != "include"@,
        "instructions"@ != "input"@,
        "instructions"@ != "reasoning"@,
        "instructions"@ != "include"@,
        "input"@ != "reasoning"@,
        "input"@ != "include"@,
        "reasoning"@ != "include"@,
{
    reveal_strlit("stream");
    reveal_strlit("store");
    reveal_strlit("instructions");
    reveal_strlit("input");
    reveal_strlit("reasoning");
    reveal_strlit("include");
    assert("stream"@.len() == 6);
    assert("store"@.len() == 5 && "store"@[0] == 's');
    assert("instructions"@.len() == 12);
    assert("input"@.len() == 5 && "input"@[0] == 'i');
    assert("reasoning"@.len() == 9);
    assert("include"@.len() == 7);
}

/// The fields of a request that get a new value.
pub open spec fn rewritten_field(key: Seq<char>) -> bool {
    ||| key == "stream"@
    ||| key == "store"@
    ||| key == "input"@
    ||| key == "instructions"@
    ||| key == "reasoning"@
    ||| key == "include"@
}

/// What the upstream gets is a request for a supported model that is streamed and
/// not stored, and it has no field that is not supported. Every field that is
/// neither dropped nor rewritten is as the client gave it, or as absent.
pub proof fn lemma_adapted_request(given: Map<Seq<char>, JsonView>, key: Seq<char>)
    ensures
        adapt(JsonView::Object(given)) matches Ok(JsonView::Object(fields)) ==> {
            &&& text_of(lookup(fields, "model"@)) matches Some(model)
            &&& supported_model(model)
            &&& lookup(fields, "stream"@) == Some(JsonView::Bool(true))
            &&& lookup(fields, "store"@) == Some(JsonView::Bool(false))
            &&& fields.dom().contains(key) ==> allowed_field(key)
            &&& !dropped_field(key) && !rewritten_field(key) ==> lookup(fields, key) == lookup(
                given,
                key,
            )
        },
{
    lemma_request_keys_differ();
    lemma_model_is_kept();
    if let Ok(JsonView::Object(fields)) = adapt(JsonView::Object(given)) {
        assert(!unsupported_field(kept_fields(given), key));
    }
}

/// The lengths of the keys that are dropped or rewritten, by which other keys are
/// told from them.
proof fn lemma_key_lengths()
    ensures
        "user"@.len() == 4,
        "service_tier"@.len() == 12,
        "metadata"@.len() == 8,
        "background"@.len() == 10,
        "prompt_cache_key"@.len() == 16,
        "temperature"@.len() == 11,
        "max_output_tokens"@.len() == 17,
        "stream_tool_calls"@.len() == 17,
        "x_grok_doom_loop_check"@.len() == 22,
        "x-grok-doom-loop-check"@.len() == 22,
        "stream"@.len() == 6,
        "store"@.len() == 5,
        "input"@.len() == 5,
        "instructions"@.len() == 12,
        "reasoning"@.len() == 9,
        "include"@.len() == 7,
        "store"@[0] == 's',
        "input"@[0] == 'i',
{
    reveal_strlit("user");
    reveal_strlit("service_tier");
    reveal_strlit("metadata");
    reveal_strlit("background");
    reveal_strlit("prompt_cache_key");
    reveal_strlit("temperature");
    reveal_strlit("max_output_tokens");
    reveal_strlit("stream_tool_calls");
    reveal_strlit("x_grok_doom_loop_check");
    reveal_strlit("x-grok-doom-loop-check");
    reveal_strlit("stream");
    reveal_strlit("store");
    reveal_strlit("input");
    reveal_strlit("instructions");
    reveal_strlit("reasoning");
    reveal_strlit("include");
    assert("user"@.len() == 4);
    assert("service_tier"@.len() == 12);
    assert("metadata"@.len() == 8);
    assert("background"@.len() == 10);
    assert("prompt_cache_key"@.len() == 16);
    assert("temperature"@.len() == 11);
    assert("max_output_tokens"@.len() == 17);
    assert("stream_tool_calls"@.len() == 17);
    assert("x_grok_doom_loop_check"@.len() == 22);
    assert("x-grok-doom-loop-check"@.len() == 22);
    assert("stream"@.len() == 6);
    assert("store"@.len() == 5);
    assert("input"@.len() == 5);
    assert("instructions"@.len() == 12);
    assert("reasoning"@.len() == 9);
    assert("include"@.len() == 7);
}

/// Whether tools are called in parallel is left to the client: the field is sent
/// as it was given, and is absent where it was.
pub proof fn lemma_parallel_tool_calls_are_kept(given: Map<Seq<char>, JsonView>)
    ensures
        adapt(JsonView::Object(given)) matches Ok(JsonView::Object(fields)) ==> lookup(
            fields,
            "parallel_tool_calls"@,
        ) == lookup(given, "parallel_tool_calls"@),
{
    reveal_strlit("parallel_tool_calls");
    assert("parallel_tool_calls"@.len() == 19);
    lemma_key_lengths();
    lemma_adapted_request(given, "parallel_tool_calls"@);
}

/// A request with a field that is neither dropped nor supported is refused.
pub proof fn lemma_unknown_fields_are_refused(given: Map<Seq<char>, JsonView>, key: Seq<char>)
    requires
        given.dom().contains(key),
        !dropped_field(key),
        !allowed_field(key),
    ensures
        adapt(JsonView::Object(given)) matches Err(ProtocolErrorView::UnsupportedField(_)),
{
    assert(unsupported_field(kept_fields(given), key));
}

/// Of finitely many texts, one comes before all others.
proof fn lemma_first_text(keys: Set<Seq<char>>) -> (first: Seq<char>)
    requires
        keys.finite(),
        keys.len() > 0,
    ensures
        keys.contains(first),
        forall|other: Seq<char>| #[trigger]
            keys.contains(other) && other != first ==> text_before(first, other),
    decreases keys.len(),
{
    let key = keys.choose();
    let rest = keys.remove(key);
    if rest.len() == 0 {
        assert forall|other: Seq<char>| #[trigger]
            keys.contains(other) && other != key implies text_before(key, other) by {
            assert(rest.contains(other));
        }
        key
    } else {
        let least = lemma_first_text(rest);
        let first = if text_before(key, least) {
            key
        } else {
            least
        };
        lemma_text_before_total(key, least);
        assert forall|other: Seq<char>| #[trigger]
            keys.contains(other) && other != first implies text_before(first, other) by {
            if other != key {
                assert(rest.contains(other));
                if other != least && first == key {
                    lemma_text_before_transitive(key, least, other);
                }
            }
        }
        first
    }
}

/// The refusal of a request with fields that are neither dropped nor supported
/// names the first of them, in the order of the keys.
pub proof fn lemma_first_unknown_field_is_named(given: Map<Seq<char>, JsonView>, key: Seq<char>)
    requires
        given.dom().finite(),
        given.dom().contains(key),
        !dropped_field(key),
        !allowed_field(key),
    ensures
        adapt(JsonView::Object(given)) matches Err(ProtocolErrorView::UnsupportedField(first))
            && first_unsupported(kept_fields(given), first),
{
    let fields = kept_fields(given);
    let unknown = given.dom().filter(|key: Seq<char>| unsupported_field(fields, key));
    given.dom().lemma_len_filter(|key: Seq<char>| unsupported_field(fields, key));
    assert(unsupported_field(fields, key));
    assert(unknown.contains(key));
    let first = lemma_first_text(unknown);
    assert forall|other: Seq<char>| #[trigger]
        unsupported_field(fields, other) && other != first implies text_before(first, other) by {
        assert(unknown.contains(other));
    }
    assert(first_unsupported(fields, first));
}

/// A request for any other model than the two that are supported is refused.
pub proof fn lemma_other_models_are_refused(given: Map<Seq<char>, JsonView>, model: Seq<char>)
    requires
        lookup(given, "model"@) == Some(JsonView::Text(model)),
        !supported_model(model),
    ensures
        adapt(JsonView::Object(given)) is Err,
{
    lemma_model_is_kept();
    lemma_adapted_request(given, "model"@);
}

proof fn lemma_model_is_kept()
    ensures
        !dropped_field("model"@),
        !rewritten_field("model"@),
{
    reveal_strlit("model");
    assert("model"@.len() == 5 && "model"@[0] == 'm');
    lemma_key_lengths();
}

/// Whether an item of a history is well placed there: it is no instruction, and
/// if it is a reasoning item, it may be sent again.
pub open spec fn well_placed(item: JsonView) -> bool {
    match item {
        JsonView::Object(fields) => !instructing_role(role_of(fields)) && (text_of(
            lookup(fields, "type"@),
        ) == Some("reasoning"@) ==> replayable(fields)),
        _ => true,
    }
}

/// No instruction and no reasoning item that the upstream could not read again is
/// sent as history.
pub proof fn lemma_history_is_well_placed(items: Seq<JsonView>, i: int)
    requires
        0 <= i < history(items).len(),
    ensures
        well_placed(history(items)[i]),
    decreases items.len(),
{
    if items.len() > 0 {
        match history_item(items.last()) {
            Some(item) => {
                if i < history(items.drop_last()).len() {
                    lemma_history_is_well_placed(items.drop_last(), i);
                } else {
                    lemma_history_item_is_well_placed(items.last());
                }
            },
            None => lemma_history_is_well_placed(items.drop_last(), i),
        }
    }
}

proof fn lemma_history_item_is_well_placed(item: JsonView)
    ensures
        history_item(item) matches Some(kept) ==> well_placed(kept),
{
    reveal_strlit("role");
    reveal_strlit("type");
    reveal_strlit("content");
    reveal_strlit("encrypted_content");
    reveal_strlit("id");
    reveal_strlit("summary");
    reveal_strlit("status");
    reveal_strlit("arguments");
    reveal_strlit("output");
    assert("role"@.len() == 4 && "role"@[0] == 'r');
    assert("type"@.len() == 4 && "type"@[0] == 't');
    assert("content"@.len() == 7 && "content"@[0] == 'c');
    assert("encrypted_content"@.len() == 17);
    assert("id"@.len() == 2);
    assert("summary"@.len() == 7 && "summary"@[0] == 's');
    assert("status"@.len() == 6);
    assert("arguments"@.len() == 9);
    assert("output"@.len() == 6);
}

} // verus!
