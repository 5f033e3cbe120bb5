//! TOML settings, read by way of `toml`. A document is held as tables and
//! texts; every other value in it is held as null.
use toml::Value;
use vstd::prelude::*;

use crate::json::{Json, JsonObject, JsonView};

verus! {

/// `toml::Value`: the tree that the crate reads.
#[verifier::external_type_specification]
#[verifier::external_body]
pub struct ExTomlValue(Value);

/// What a `toml::Value` holds, as tables and texts.
pub uninterp spec fn setting_content(value: Value) -> JsonView;

/// What `toml::from_str` reads from a text, as tables and texts; where it fails,
/// the text of its error.
pub uninterp spec fn settings_of_text(text: Seq<char>) -> Result<JsonView, Seq<char>>;

/// One level of a `toml::Value`.
enum Node {
    Text(String),
    Table(Vec<(String, Value)>),
    Other,
}

/// What the entries of a table hold, by key.
spec fn entries_content(entries: Seq<(String, Value)>) -> Map<Seq<char>, JsonView>
    decreases entries.len(),
{
    if entries.len() == 0 {
        Map::empty()
    } else {
        entries_content(entries.drop_last()).insert(
            entries.last().0@,
            setting_content(entries.last().1),
        )
    }
}

/// What one level holds, together with the values in it.
spec fn node_content(node: Node) -> JsonView {
    match node {
        Node::Text(text) => JsonView::Text(text@),
        Node::Table(entries) => JsonView::Object(entries_content(entries@)),
        Node::Other => JsonView::Null,
    }
}

/// Whether no two entries have the same key.
spec fn keys_differ(entries: Seq<(String, Value)>) -> bool {
    forall|i: int, j: int|
        0 <= i < j < entries.len() ==> #[trigger] entries[i].0@ != #[trigger] entries[j].0@
}

/// Takes a `toml::Value` apart, variant by variant. A `toml::Table` hands out
/// each of its keys once.
#[verifier::external_body]
fn open_value(value: Value) -> (node: Node)
    ensures
        node_content(node) == setting_content(value),
        node matches Node::Table(entries) ==> keys_differ(entries@),
{
    match value {
        Value::String(text) => Node::Text(text),
        Value::Table(entries) => Node::Table(entries.into_iter().collect()),
        Value::Integer(_) => Node::Other,
        Value::Float(_) => Node::Other,
        Value::Boolean(_) => Node::Other,
        Value::Datetime(_) => Node::Other,
        Value::Array(_) => Node::Other,
    }
}

/// `toml::from_str` into a `Value`: reads the text as a whole document, or
/// fails with an error text.
#[verifier::external_body]
fn value_of_text(text: &str) -> (r: Result<Value, String>)
    ensures
        match r {
            Ok(value) => settings_of_text(text@) == Ok::<JsonView, Seq<char>>(
                setting_content(value),
            ),
            Err(error) => settings_of_text(text@) == Err::<JsonView, Seq<char>>(error@),
        },
{
    toml::from_str::<Value>(text).map_err(|error| error.to_string())
}

proof fn lemma_entries_content(entries: Seq<(String, Value)>)
    requires
        keys_differ(entries),
    ensures
        forall|i: int|
            0 <= i < entries.len() ==> entries_content(entries).dom().contains(
                #[trigger] entries[i].0@,
            ) && entries_content(entries)[entries[i].0@] == setting_content(entries[i].1),
        entries_content(entries).dom().finite(),
    decreases entries.len(),
{
    if entries.len() > 0 {
        let front = entries.drop_last();
        assert forall|i: int, j: int| 0 <= i < j < front.len() implies #[trigger] front[i].0@
            != #[trigger] front[j].0@ by {
            assert(entries[i].0@ != entries[j].0@);
        }
        lemma_entries_content(front);
        assert forall|i: int| 0 <= i < entries.len() implies entries_content(
            entries,
        ).dom().contains(#[trigger] entries[i].0@) && entries_content(entries)[entries[i].0@]
            == setting_content(entries[i].1) by {
            if i < front.len() {
                assert(front[i].0@ == entries[i].0@);
                assert(entries[i].0@ != entries[entries.len() - 1].0@);
            }
        }
    }
}

/// The tables and texts that a `toml::Value` holds.
fn settings_of_value(value: Value) -> (json: Json)
    ensures
        json@ == setting_content(value),
    decreases setting_content(value),
{
    match open_value(value) {
        Node::Text(text) => Json::Text(text),
        Node::Other => Json::Null,
        Node::Table(entries) => {
            proof {
                lemma_entries_content(entries@);
            }
            let ghost whole = entries@;
            let mut object = JsonObject::new();
            for entry in it: entries
                invariant
                    it.seq() == whole,
                    setting_content(value) == JsonView::Object(entries_content(whole)),
                    entries_content(whole).dom().finite(),
                    forall|i: int|
                        0 <= i < whole.len() ==> entries_content(whole).dom().contains(
                            #[trigger] whole[i].0@,
                        ) && entries_content(whole)[whole[i].0@] == setting_content(whole[i].1),
                    object@ == entries_content(whole.subrange(0, it.index() as int)),
            {
                let ghost i = it.index() as int;
                let (key, inner) = entry;
                proof {
                    assert(whole[i].0@ == key@);
                    let content = setting_content(value);
                    assert(decreases_to!(content => content->Object_0));
                    assert(decreases_to!(content->Object_0 => content->Object_0[key@]));
                }
                object.insert(key.as_str(), settings_of_value(inner));
                proof {
                    assert(whole.subrange(0, i + 1).drop_last() =~= whole.subrange(0, i));
                }
            }
            proof {
                assert(whole.subrange(0, whole.len() as int) =~= whole);
            }
            Json::Object(object)
        },
    }
}

/// What a settings document holds, or why it could not be read.
pub open spec fn settings_view(r: Result<Json, String>) -> Result<JsonView, Seq<char>> {
    match r {
        Ok(json) => Ok(json@),
        Err(error) => Err(error@),
    }
}

/// Reads a settings document.
pub fn parse_settings(text: &str) -> (r: Result<Json, String>)
    ensures
        settings_view(r) == settings_of_text(text@),
{
    match value_of_text(text) {
        Ok(value) => Ok(settings_of_value(value)),
        Err(error) => Err(error),
    }
}

} // verus!
