//! JSON text in and out, by way of `serde_json`.
use serde_json::Value;
use vstd::prelude::*;
use vstd::utf8::{decode_utf8, valid_utf8};

use crate::json::{entries_view, json_view, keys_ascend, list_view, number_view};
use crate::json::{Json, JsonObject, JsonView};
use crate::sse::LINE_FEED;
use crate::text::{lemma_text_before_total, text_before};

verus! {

/// `serde_json::Value`: the tree that the crate reads and writes.
#[verifier::external_type_specification]
#[verifier::external_body]
pub struct ExValue(Value);

/// What a `serde_json::Value` holds.
pub uninterp spec fn value_content(value: Value) -> JsonView;

/// What `serde_json::from_str` reads from a text, where it is JSON.
pub uninterp spec fn json_of_text(text: Seq<char>) -> Option<JsonView>;

/// What `serde_json::from_slice` reads from bytes, where they are JSON.
pub uninterp spec fn json_of_bytes(bytes: Seq<u8>) -> Option<JsonView>;

/// The compact text that `serde_json` displays for a value.
pub uninterp spec fn text_of_json(json: JsonView) -> Seq<char>;

/// The bytes that `serde_json::to_vec` writes for a value.
pub uninterp spec fn bytes_of_json(json: JsonView) -> Option<Seq<u8>>;

/// The indented bytes that `serde_json::to_vec_pretty` writes for a value.
pub uninterp spec fn pretty_bytes_of_json(json: JsonView) -> Option<Seq<u8>>;

/// How deep lists and objects may be nested in a text that `serde_json` reads.
pub const NESTING: u8 = 127;

/// The key of an object that `serde_json` may read as the value in its text.
pub const RAW_VALUE: &'static str = "$serde_json::private::RawValue";

/// Whether a value nests at most `levels` deep, holds no number but unsigned
/// integers, and no object with the key that `serde_json` keeps for itself.
pub open spec fn plain(json: JsonView, levels: nat) -> bool
    decreases levels,
{
    match json {
        JsonView::OtherNumber(_) => false,
        JsonView::List(items) => levels > 0 && forall|i: int|
            0 <= i < items.len() ==> plain(#[trigger] items[i], (levels - 1) as nat),
        JsonView::Object(fields) => levels > 0 && !fields.dom().contains(RAW_VALUE@)
            && forall|key: Seq<char>| #[trigger]
            fields.dom().contains(key) ==> plain(fields[key], (levels - 1) as nat),
        _ => true,
    }
}

/// Whether a text is all on one line.
pub open spec fn one_line(text: Seq<char>) -> bool {
    forall|i: int| 0 <= i < text.len() ==> #[trigger] text[i] != '\n' && text[i] != '\r'
}

/// One level of a `serde_json::Value`.
enum Node {
    Null,
    Bool(bool),
    Number(serde_json::Number),
    Text(String),
    List(Vec<Value>),
    Object(Vec<(String, Value)>),
}

/// What the entries of an object hold, by key.
spec fn entries_content(entries: Seq<(String, Value)>) -> Map<Seq<char>, JsonView>
    decreases entries.len(),
{
    if entries.len() == 0 {
        Map::empty()
    } else {
        entries_content(entries.drop_last()).insert(
            entries.last().0@,
            value_content(entries.last().1),
        )
    }
}

/// What one level holds, together with the values in it.
spec fn node_content(node: Node) -> JsonView {
    match node {
        Node::Null => JsonView::Null,
        Node::Bool(value) => JsonView::Bool(value),
        Node::Number(number) => number_view(number),
        Node::Text(text) => JsonView::Text(text@),
        Node::List(items) => JsonView::List(items@.map_values(|item: Value| value_content(item))),
        Node::Object(entries) => JsonView::Object(entries_content(entries@)),
    }
}

/// Whether no two entries have the same key.
spec fn keys_differ(entries: Seq<(String, Value)>) -> bool {
    forall|i: int, j: int|
        0 <= i < j < entries.len() ==> #[trigger] entries[i].0@ != #[trigger] entries[j].0@
}

/// Takes a `serde_json::Value` apart, variant by variant. A `serde_json::Map`
/// hands out each of its keys once.
#[verifier::external_body]
fn open_value(value: Value) -> (node: Node)
    ensures
        node_content(node) == value_content(value),
        node matches Node::Object(entries) ==> keys_differ(entries@),
{
    match value {
        Value::Null => Node::Null,
        Value::Bool(value) => Node::Bool(value),
        Value::Number(number) => Node::Number(number),
        Value::String(text) => Node::Text(text),
        Value::Array(items) => Node::List(items),
        Value::Object(entries) => Node::Object(entries.into_iter().collect()),
    }
}

/// Puts a `serde_json::Value` together, variant by variant. Entries that all have
/// keys of their own are collected into a `serde_json::Map` that holds just them.
#[verifier::external_body]
fn close_value(node: Node) -> (value: Value)
    requires
        node matches Node::Object(entries) ==> keys_differ(entries@),
    ensures
        value_content(value) == node_content(node),
{
    match node {
        Node::Null => Value::Null,
        Node::Bool(value) => Value::Bool(value),
        Node::Number(number) => Value::Number(number),
        Node::Text(text) => Value::String(text),
        Node::List(items) => Value::Array(items),
        Node::Object(entries) => Value::Object(entries.into_iter().collect()),
    }
}

/// `serde_json::from_str` into a `Value`: reads the text whole, or fails.
#[verifier::external_body]
fn value_of_text(text: &str) -> (r: Option<Value>)
    ensures
        match r {
            Some(value) => json_of_text(text@) == Some(value_content(value)),
            None => json_of_text(text@) is None,
        },
{
    serde_json::from_str::<Value>(text).ok()
}

/// `serde_json::from_slice` into a `Value`: reads the bytes whole, or fails.
#[verifier::external_body]
fn value_of_bytes(bytes: &[u8]) -> (r: Option<Value>)
    ensures
        match r {
            Some(value) => json_of_bytes(bytes@) == Some(value_content(value)),
            None => json_of_bytes(bytes@) is None,
        },
{
    serde_json::from_slice::<Value>(bytes).ok()
}

/// `serde_json::Value`'s `Display`: the compact text of the value. No space is
/// put between its parts, and line breaks in strings are escaped. Behind an
/// opening bracket comes the closing one or a value, and no value starts with a
/// capital letter.
#[verifier::external_body]
fn text_of_value(value: &Value) -> (text: String)
    ensures
        text@ == text_of_json(value_content(*value)),
        one_line(text@),
        text@.len() > 1 && text@[0] == '[' ==> !('A' <= text@[1] <= 'Z'),
{
    value.to_string()
}

/// `serde_json::to_vec`: the compact bytes of the value, or a failure.
#[verifier::external_body]
fn bytes_of_value(value: &Value) -> (r: Option<Vec<u8>>)
    ensures
        match r {
            Some(bytes) => bytes_of_json(value_content(*value)) == Some(bytes@),
            None => bytes_of_json(value_content(*value)) is None,
        },
{
    serde_json::to_vec(value).ok()
}

/// `serde_json::to_vec_pretty`: the indented bytes of the value, or a failure.
/// A plain value is written as UTF-8 from which `serde_json::from_str` reads it
/// back, with a line break behind it. Of a value that is not plain nothing is
/// said there: a fraction may be read back with another last digit, deeper
/// nesting is refused, and an object with the private key of the crate may be
/// read as what its text holds.
#[verifier::external_body]
fn pretty_bytes_of_value(value: &Value) -> (r: Option<Vec<u8>>)
    ensures
        match r {
            Some(bytes) => pretty_bytes_of_json(value_content(*value)) == Some(bytes@) && (plain(
                value_content(*value),
                NESTING as nat,
            ) ==> valid_utf8(bytes@) && json_of_text(decode_utf8(bytes@.push(LINE_FEED))) == Some(
                value_content(*value),
            )),
            None => pretty_bytes_of_json(value_content(*value)) is None && !plain(
                value_content(*value),
                NESTING as nat,
            ),
        },
{
    serde_json::to_vec_pretty(value).ok()
}

proof fn lemma_entries_content(entries: Seq<(String, Value)>)
    requires
        keys_differ(entries),
    ensures
        entries_content(entries).dom().finite(),
        forall|i: int|
            0 <= i < entries.len() ==> entries_content(entries).dom().contains(
                #[trigger] entries[i].0@,
            ) && entries_content(entries)[entries[i].0@] == value_content(entries[i].1),
    decreases entries.len(),
{
    if entries.len() > 0 {
        let front = entries.drop_last();
        assert forall|i: int, j: int| 0 <= i < j < front.len() implies #[trigger] front[i].0@
            != #[trigger] front[j].0@ by {
            assert(entries[i].0@ != entries[j].0@);
        }
        lemma_entries_content(front);
        assert forall|i: int| 0 <= i < entries.len() implies entries_content(
            entries,
        ).dom().contains(#[trigger] entries[i].0@) && entries_content(entries)[entries[i].0@]
            == value_content(entries[i].1) by {
            if i < front.len() {
                assert(front[i].0@ == entries[i].0@);
                assert(entries[i].0@ != entries[entries.len() - 1].0@);
            }
        }
    }
}

/// The JSON value that a `serde_json::Value` holds.
fn json_of_value(value: Value) -> (json: Json)
    ensures
        json@ == value_content(value),
    decreases value_content(value),
{
    match open_value(value) {
        Node::Null => Json::Null,
        Node::Bool(value) => Json::Bool(value),
        Node::Number(number) => Json::Number(number),
        Node::Text(text) => Json::Text(text),
        Node::List(items) => {
            let ghost content = items@.map_values(|item: Value| value_content(item));
            let mut list: Vec<Json> = Vec::new();
            for item in it: items
                invariant
                    it.seq() == items@,
                    content == items@.map_values(|item: Value| value_content(item)),
                    value_content(value) == JsonView::List(content),
                    list@.len() == it.index(),
                    forall|j: int| 0 <= j < list@.len() ==> json_view(#[trigger] list@[j]) == content[j],
            {
                proof {
                    assert(value_content(item) == content[it.index() as int]);
                    let whole = value_content(value);
                    assert(decreases_to!(whole => whole->List_0));
                    assert(decreases_to!(whole->List_0 => whole->List_0[it.index() as int]));
                }
                list.push(json_of_value(item));
            }
            assert(list_view(list@) =~= content);
            Json::List(list)
        },
        Node::Object(entries) => {
            proof {
                lemma_entries_content(entries@);
            }
            let ghost whole = entries@;
            let mut object = JsonObject::new();
            for entry in it: entries
                invariant
                    it.seq() == whole,
                    value_content(value) == JsonView::Object(entries_content(whole)),
                    entries_content(whole).dom().finite(),
                    forall|i: int|
                        0 <= i < whole.len() ==> entries_content(whole).dom().contains(
                            #[trigger] whole[i].0@,
                        ) && entries_content(whole)[whole[i].0@] == value_content(whole[i].1),
                    object@ == entries_content(whole.subrange(0, it.index() as int)),
            {
                let ghost i = it.index() as int;
                let (key, inner) = entry;
                proof {
                    assert(whole[i].0@ == key@);
                    let content = value_content(value);
                    assert(decreases_to!(content => content->Object_0));
                    assert(decreases_to!(content->Object_0 => content->Object_0[key@]));
                }
                object.insert(key.as_str(), json_of_value(inner));
                proof {
                    assert(whole.subrange(0, i + 1).drop_last() =~= whole.subrange(0, i));
                }
            }
            proof {
                assert(whole.subrange(0, whole.len() as int) =~= whole);
            }
            Json::Object(object)
        },
    }
}

/// The `serde_json::Value` that holds a JSON value.
fn value_of_json(json: &Json) -> (value: Value)
    ensures
        value_content(value) == json@,
    decreases json,
{
    match json {
        Json::Null => close_value(Node::Null),
        Json::Bool(value) => close_value(Node::Bool(*value)),
        Json::Number(number) => close_value(Node::Number(number.clone())),
        Json::Text(text) => close_value(Node::Text(text.clone())),
        Json::List(items) => close_value(Node::List(values_of_list(items))),
        Json::Object(object) => close_value(Node::Object(values_of_object(object))),
    }
}

fn values_of_list(items: &Vec<Json>) -> (values: Vec<Value>)
    ensures
        values@.map_values(|item: Value| value_content(item)) == list_view(items@),
    decreases items,
{
    let mut values: Vec<Value> = Vec::new();
    let mut i: usize = 0;
    while i < items.len()
        invariant
            i <= items@.len(),
            values@.len() == i,
            forall|j: int|
                0 <= j < i ==> value_content(#[trigger] values@[j]) == json_view(items@[j]),
        decreases items@.len() - i,
    {
        values.push(value_of_json(&items[i]));
        i = i + 1;
    }
    assert(values@.map_values(|item: Value| value_content(item)) =~= list_view(items@));
    values
}

fn values_of_object(object: &JsonObject) -> (values: Vec<(String, Value)>)
    ensures
        entries_content(values@) == object@,
        keys_differ(values@),
    decreases object,
{
    let entries = object.entries();
    let mut values: Vec<(String, Value)> = Vec::new();
    let mut i: usize = 0;
    while i < entries.len()
        invariant
            i <= entries@.len(),
            values@.len() == i,
            keys_ascend(entries@),
            forall|j: int| 0 <= j < i ==> (#[trigger] values@[j]).0@ == entries@[j].0@,
            decreases_to!(object => entries@),
            entries_content(values@) == entries_view(entries@.subrange(0, i as int)),
        decreases entries@.len() - i,
    {
        proof {
            assert(decreases_to!(entries@ => entries@[i as int]));
            assert(decreases_to!(entries@[i as int] => entries@[i as int].1));
        }
        let value = value_of_json(&entries[i].1);
        let ghost before = values@;
        values.push((entries[i].0.clone(), value));
        proof {
            assert(values@.drop_last() =~= before);
            let next = entries@.subrange(0, i + 1);
            assert(next.subrange(0, next.len() - 1) =~= entries@.subrange(0, i as int));
        }
        i = i + 1;
    }
    proof {
        assert(entries@.subrange(0, entries@.len() as int) =~= entries@);
        assert forall|j: int, k: int| 0 <= j < k < values@.len() implies #[trigger] values@[j].0@
            != #[trigger] values@[k].0@ by {
            assert(text_before(entries@[j].0@, entries@[k].0@));
            lemma_text_before_total(entries@[j].0@, entries@[k].0@);
        }
    }
    values
}

/// Reads a JSON text.
pub fn parse_text(text: &str) -> (r: Option<Json>)
    ensures
        crate::json::optional_view(r) == json_of_text(text@),
{
    match value_of_text(text) {
        Some(value) => Some(json_of_value(value)),
        None => None,
    }
}

/// Reads the bytes of a JSON text.
pub fn parse_bytes(bytes: &[u8]) -> (r: Option<Json>)
    ensures
        crate::json::optional_view(r) == json_of_bytes(bytes@),
{
    match value_of_bytes(bytes) {
        Some(value) => Some(json_of_value(value)),
        None => None,
    }
}

/// Writes a value as compact JSON text, on one line. No capital letter follows a
/// bracket at its start.
pub fn render_text(json: &Json) -> (text: String)
    ensures
        text@ == text_of_json(json@),
        one_line(text@),
        text@.len() > 1 && text@[0] == '[' ==> !('A' <= text@[1] <= 'Z'),
{
    text_of_value(&value_of_json(json))
}

/// The bytes that an optional byte string holds.
pub open spec fn optional_bytes(value: Option<Vec<u8>>) -> Option<Seq<u8>> {
    match value {
        Some(bytes) => Some(bytes@),
        None => None,
    }
}

/// Writes a value as compact JSON bytes.
pub fn render_bytes(json: &Json) -> (r: Option<Vec<u8>>)
    ensures
        optional_bytes(r) == bytes_of_json(json@),
{
    bytes_of_value(&value_of_json(json))
}

/// Writes a value as indented JSON bytes. A plain value can be read back from
/// them.
pub fn render_pretty(json: &Json) -> (r: Option<Vec<u8>>)
    ensures
        optional_bytes(r) == pretty_bytes_of_json(json@),
        plain(json@, NESTING as nat) ==> {
            &&& r matches Some(bytes)
            &&& valid_utf8(bytes@)
            &&& json_of_text(decode_utf8(bytes@.push(LINE_FEED))) == Some(json@)
        },
{
    pretty_bytes_of_value(&value_of_json(json))
}

} // verus!
