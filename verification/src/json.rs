//! JSON values as plain data, and the views that contracts speak of.
use vstd::prelude::*;

use crate::text::{
    comes_before, lemma_text_before_total, lemma_text_before_transitive, same_text, text_before,
};

verus! {

/// `serde_json::Number`: a JSON number, carried as it came. Of what is inside,
/// only the unsigned integer is ever asked for.
#[verifier::external_type_specification]
#[verifier::external_body]
pub struct ExNumber(serde_json::Number);

/// What `serde_json::Number::as_u64` answers for a number.
pub uninterp spec fn number_unsigned(number: serde_json::Number) -> Option<u64>;

/// `serde_json::Number::as_u64`: the number, where it is an integer that fits
/// an unsigned 64-bit integer.
pub assume_specification[ serde_json::Number::as_u64 ](number: &serde_json::Number) -> (r: Option<
    u64,
>)
    ensures
        r == number_unsigned(*number),
;

/// `serde_json::Number::from::<u64>`: the JSON number of an unsigned integer,
/// which reads back as that integer.
#[verifier::external_body]
fn number_of(value: u64) -> (number: serde_json::Number)
    ensures
        number_unsigned(number) == Some(value),
{
    serde_json::Number::from(value)
}

/// `serde_json::Number::clone`: the copy is the same number.
pub assume_specification[ <serde_json::Number as Clone>::clone ](
    number: &serde_json::Number,
) -> (copy: serde_json::Number)
    ensures
        copy == *number,
;

/// What a JSON value holds.
pub enum JsonView {
    Null,
    Bool(bool),
    Unsigned(u64),
    OtherNumber(serde_json::Number),
    Text(Seq<char>),
    List(Seq<JsonView>),
    Object(Map<Seq<char>, JsonView>),
}

/// What a JSON number holds.
pub open spec fn number_view(number: serde_json::Number) -> JsonView {
    match number_unsigned(number) {
        Some(value) => JsonView::Unsigned(value),
        None => JsonView::OtherNumber(number),
    }
}

impl JsonView {
    /// The value under `key`, where this is an object that has the key.
    pub open spec fn field(self, key: Seq<char>) -> Option<JsonView> {
        match self {
            JsonView::Object(fields) => lookup(fields, key),
            _ => None,
        }
    }

    /// The characters, where this is a string.
    pub open spec fn text(self) -> Option<Seq<char>> {
        match self {
            JsonView::Text(text) => Some(text),
            _ => None,
        }
    }

    /// The number, where this is an unsigned 64-bit integer.
    pub open spec fn unsigned(self) -> Option<u64> {
        match self {
            JsonView::Unsigned(number) => Some(number),
            _ => None,
        }
    }

    /// The items, where this is an array.
    pub open spec fn list(self) -> Option<Seq<JsonView>> {
        match self {
            JsonView::List(items) => Some(items),
            _ => None,
        }
    }

    /// The fields, where this is an object.
    pub open spec fn object(self) -> Option<Map<Seq<char>, JsonView>> {
        match self {
            JsonView::Object(fields) => Some(fields),
            _ => None,
        }
    }

    /// The string under `key`.
    pub open spec fn text_field(self, key: Seq<char>) -> Option<Seq<char>> {
        text_of(self.field(key))
    }

    /// The unsigned integer under `key`.
    pub open spec fn unsigned_field(self, key: Seq<char>) -> Option<u64> {
        match self.field(key) {
            Some(value) => value.unsigned(),
            None => None,
        }
    }
}

/// The value under `key` in a map of fields.
pub open spec fn lookup(fields: Map<Seq<char>, JsonView>, key: Seq<char>) -> Option<JsonView> {
    if fields.dom().contains(key) {
        Some(fields[key])
    } else {
        None
    }
}

/// The fields with `value` under `key`, where nothing is there yet.
pub open spec fn with_default(
    fields: Map<Seq<char>, JsonView>,
    key: Seq<char>,
    value: JsonView,
) -> Map<Seq<char>, JsonView> {
    if fields.dom().contains(key) {
        fields
    } else {
        fields.insert(key, value)
    }
}

/// The object with two fields.
pub open spec fn pair(
    first: Seq<char>,
    first_value: JsonView,
    second: Seq<char>,
    second_value: JsonView,
) -> JsonView {
    JsonView::Object(
        Map::<Seq<char>, JsonView>::empty().insert(first, first_value).insert(
            second,
            second_value,
        ),
    )
}

/// The characters of an optional value, where it is there and is a string.
pub open spec fn text_of(value: Option<JsonView>) -> Option<Seq<char>> {
    match value {
        Some(value) => value.text(),
        None => None,
    }
}

/// What an optional JSON value holds.
pub open spec fn optional_view(value: Option<Json>) -> Option<JsonView> {
    match value {
        Some(json) => Some(json@),
        None => None,
    }
}

/// What an optional reference to a JSON value holds.
pub open spec fn optional_ref(value: Option<&Json>) -> Option<JsonView> {
    match value {
        Some(json) => Some(json@),
        None => None,
    }
}

/// A JSON value.
#[derive(Debug, PartialEq, Eq)]
pub enum Json {
    Null,
    Bool(bool),
    Number(serde_json::Number),
    Text(String),
    List(Vec<Json>),
    Object(JsonObject),
}

/// The fields of a JSON object, each key once, in the order of the keys.
#[derive(Debug, PartialEq, Eq)]
pub struct JsonObject {
    entries: Vec<(String, Json)>,
}

/// What a JSON value holds.
pub open spec fn json_view(json: Json) -> JsonView
    decreases json,
{
    match json {
        Json::Null => JsonView::Null,
        Json::Bool(value) => JsonView::Bool(value),
        Json::Number(number) => number_view(number),
        Json::Text(text) => JsonView::Text(text@),
        Json::List(items) => JsonView::List(list_view(items@)),
        Json::Object(object) => JsonView::Object(object_view(object)),
    }
}

/// What the items of a JSON array hold.
pub open spec fn list_view(items: Seq<Json>) -> Seq<JsonView>
    decreases items,
{
    Seq::new(
        items.len(),
        |i: int|
            if 0 <= i < items.len() {
                json_view(items[i])
            } else {
                JsonView::Null
            },
    )
}

/// What the entries of a JSON object hold, by key.
pub open spec fn entries_view(entries: Seq<(String, Json)>) -> Map<Seq<char>, JsonView>
    decreases entries,
{
    if entries.len() == 0 {
        Map::empty()
    } else {
        entries_view(entries.subrange(0, entries.len() - 1)).insert(
            entries[entries.len() - 1].0@,
            json_view(entries[entries.len() - 1].1),
        )
    }
}

/// What the fields of a JSON object hold, by key.
pub closed spec fn object_view(object: JsonObject) -> Map<Seq<char>, JsonView>
    decreases object,
{
    entries_view(object.entries@)
}

/// Whether the keys of the entries are in strictly ascending order.
pub open spec fn keys_ascend(entries: Seq<(String, Json)>) -> bool {
    forall|i: int, j: int|
        0 <= i < j < entries.len() ==> text_before(
            #[trigger] entries[i].0@,
            #[trigger] entries[j].0@,
        )
}

impl View for Json {
    type V = JsonView;

    open spec fn view(&self) -> JsonView {
        json_view(*self)
    }
}

impl View for JsonObject {
    type V = Map<Seq<char>, JsonView>;

    open spec fn view(&self) -> Map<Seq<char>, JsonView> {
        object_view(*self)
    }
}

proof fn lemma_ascending_keys_differ(entries: Seq<(String, Json)>, i: int, j: int)
    requires
        keys_ascend(entries),
        0 <= i < entries.len(),
        0 <= j < entries.len(),
        entries[i].0@ == entries[j].0@,
    ensures
        i == j,
{
    lemma_text_before_total(entries[i].0@, entries[i].0@);
}

/// Entries with ascending keys hold exactly their keys, each with its value.
pub proof fn lemma_entries_view(entries: Seq<(String, Json)>)
    requires
        keys_ascend(entries),
    ensures
        entries_view(entries).dom().finite(),
        forall|i: int|
            0 <= i < entries.len() ==> entries_view(entries).dom().contains(
                #[trigger] entries[i].0@,
            ) && entries_view(entries)[entries[i].0@] == json_view(entries[i].1),
        forall|key: Seq<char>| #[trigger]
            entries_view(entries).dom().contains(key) ==> exists|i: int|
                0 <= i < entries.len() && #[trigger] entries[i].0@ == key,
    decreases entries.len(),
{
    if entries.len() > 0 {
        let last = entries.len() - 1;
        let front = entries.subrange(0, last);
        assert forall|i: int, j: int| 0 <= i < j < front.len() implies text_before(
            #[trigger] front[i].0@,
            #[trigger] front[j].0@,
        ) by {
            assert(front[i] == entries[i] && front[j] == entries[j]);
        }
        lemma_entries_view(front);
        assert forall|i: int| 0 <= i < entries.len() implies entries_view(
            entries,
        ).dom().contains(#[trigger] entries[i].0@) && entries_view(entries)[entries[i].0@]
            == json_view(entries[i].1) by {
            if i < last {
                assert(front[i] == entries[i]);
                if entries[i].0@ == entries[last].0@ {
                    lemma_ascending_keys_differ(entries, i, last);
                }
            }
        }
        assert forall|key: Seq<char>| #[trigger] entries_view(entries).dom().contains(
            key,
        ) implies exists|i: int| 0 <= i < entries.len() && #[trigger] entries[i].0@ == key by {
            if key == entries[last].0@ {
                assert(entries[last].0@ == key);
            } else {
                assert(entries_view(front).dom().contains(key));
                let i = choose|i: int| 0 <= i < front.len() && #[trigger] front[i].0@ == key;
                assert(entries[i].0@ == key);
            }
        }
    }
}

impl JsonObject {
    #[verifier::type_invariant]
    spec fn ascending(self) -> bool {
        keys_ascend(self.entries@)
    }

    /// An object without fields.
    pub fn new() -> (object: JsonObject)
        ensures
            object@ == Map::<Seq<char>, JsonView>::empty(),
    {
        JsonObject { entries: Vec::new() }
    }

    /// The fields in the order of their keys.
    pub fn entries(&self) -> (entries: &Vec<(String, Json)>)
        ensures
            keys_ascend(entries@),
            entries_view(entries@) == self@,
            decreases_to!(self => entries@),
    {
        proof {
            use_type_invariant(self);
        }
        &self.entries
    }

    /// The position of the first key that does not come before `key`, and
    /// whether it is `key` itself.
    fn position(&self, key: &str) -> (found: (usize, bool))
        ensures
            found.0 <= self.entries@.len(),
            forall|i: int|
                0 <= i < found.0 ==> text_before(#[trigger] self.entries@[i].0@, key@),
            forall|i: int|
                found.0 <= i < self.entries@.len() ==> !text_before(
                    #[trigger] self.entries@[i].0@,
                    key@,
                ),
            found.1 ==> found.0 < self.entries@.len() && self.entries@[found.0 as int].0@ == key@,
            found.1 == self@.dom().contains(key@),
            found.1 ==> self@[key@] == json_view(self.entries@[found.0 as int].1),
    {
        proof {
            use_type_invariant(self);
            lemma_entries_view(self.entries@);
        }
        let mut at: usize = 0;
        while at < self.entries.len() && comes_before(self.entries[at].0.as_str(), key)
            invariant
                at <= self.entries@.len(),
                forall|i: int| 0 <= i < at ==> text_before(#[trigger] self.entries@[i].0@, key@),
            decreases self.entries@.len() - at,
        {
            at = at + 1;
        }
        proof {
            lemma_text_before_total(key@, key@);
            assert forall|i: int| at <= i < self.entries@.len() implies !text_before(
                #[trigger] self.entries@[i].0@,
                key@,
            ) by {
                if i > at && text_before(self.entries@[i].0@, key@) {
                    lemma_text_before_transitive(
                        self.entries@[at as int].0@,
                        self.entries@[i].0@,
                        key@,
                    );
                }
            }
        }
        if at < self.entries.len() && same_text(self.entries[at].0.as_str(), key) {
            (at, true)
        } else {
            proof {
                if self@.dom().contains(key@) {
                    let i = choose|i: int|
                        0 <= i < self.entries@.len() && #[trigger] self.entries@[i].0@ == key@;
                    assert(self.entries@[i].0@ == key@);
                    assert(at < i);
                    lemma_text_before_total(self.entries@[at as int].0@, key@);
                }
            }
            (at, false)
        }
    }

    /// The value under `key`.
    pub fn get(&self, key: &str) -> (value: Option<&Json>)
        ensures
            optional_ref(value) == lookup(self@, key@),
    {
        let (at, present) = self.position(key);
        if present {
            Some(&self.entries[at].1)
        } else {
            None
        }
    }

    /// Whether the object has the field `key`.
    pub fn contains_key(&self, key: &str) -> (r: bool)
        ensures
            r == self@.dom().contains(key@),
    {
        self.position(key).1
    }

    /// The string under `key`.
    pub fn text_field(&self, key: &str) -> (r: Option<&str>)
        ensures
            crate::text::optional_str(r) == text_of(lookup(self@, key@)),
    {
        match self.get(key) {
            Some(value) => value.as_str(),
            None => None,
        }
    }

    /// Puts `value` under `key`, in place of what was there.
    pub fn insert(&mut self, key: &str, value: Json)
        ensures
            final(self)@ == old(self)@.insert(key@, value@),
    {
        let (at, present) = self.position(key);
        proof {
            use_type_invariant(&*self);
        }
        let ghost before = self.entries@;
        let mut entries: Vec<(String, Json)> = Vec::new();
        std::mem::swap(&mut entries, &mut self.entries);
        if present {
            let _ = entries.remove(at);
        }
        entries.insert(at, (key.to_owned(), value));
        proof {
            lemma_inserted(before, at as int, present, entries@, key@, value@);
        }
        self.entries = entries;
    }

    /// Puts `value` under `key` where nothing is there yet.
    pub fn insert_missing(&mut self, key: &str, value: Json)
        ensures
            final(self)@ == with_default(old(self)@, key@, value@),
    {
        if !self.contains_key(key) {
            self.insert(key, value);
        }
    }

    /// Takes the field `key` out.
    pub fn remove(&mut self, key: &str) -> (removed: Option<Json>)
        ensures
            final(self)@ == old(self)@.remove(key@),
            optional_view(removed) == lookup(old(self)@, key@),
    {
        let (at, present) = self.position(key);
        proof {
            use_type_invariant(&*self);
        }
        if !present {
            proof {
                assert(self@ =~= self@.remove(key@));
            }
            return None;
        }
        let ghost before = self.entries@;
        let mut entries: Vec<(String, Json)> = Vec::new();
        std::mem::swap(&mut entries, &mut self.entries);
        let (_, value) = entries.remove(at);
        proof {
            lemma_removed(before, at as int, entries@);
        }
        self.entries = entries;
        Some(value)
    }
}

proof fn lemma_removed(before: Seq<(String, Json)>, at: int, after: Seq<(String, Json)>)
    requires
        keys_ascend(before),
        0 <= at < before.len(),
        after == before.remove(at),
    ensures
        keys_ascend(after),
        entries_view(after) == entries_view(before).remove(before[at].0@),
{
    assert forall|i: int, j: int| 0 <= i < j < after.len() implies text_before(
        #[trigger] after[i].0@,
        #[trigger] after[j].0@,
    ) by {
        let k = if i < at { i } else { i + 1 };
        let l = if j < at { j } else { j + 1 };
        assert(after[i] == before[k] && after[j] == before[l]);
    }
    lemma_entries_view(before);
    lemma_entries_view(after);
    let key = before[at].0@;
    let expected = entries_view(before).remove(key);
    assert forall|k: Seq<char>| entries_view(after).dom().contains(k)
        == expected.dom().contains(k) by {
        if entries_view(after).dom().contains(k) {
            let i = choose|i: int| 0 <= i < after.len() && #[trigger] after[i].0@ == k;
            let l = if i < at { i } else { i + 1 };
            assert(after[i] == before[l]);
            assert(before[l].0@ == k);
            if k == key {
                lemma_ascending_keys_differ(before, l, at);
            }
        }
        if expected.dom().contains(k) {
            let i = choose|i: int| 0 <= i < before.len() && #[trigger] before[i].0@ == k;
            assert(i != at);
            let l = if i < at { i } else { i - 1 };
            assert(after[l] == before[i]);
            assert(after[l].0@ == k);
        }
    }
    assert forall|k: Seq<char>| expected.dom().contains(k) implies entries_view(after)[k]
        == expected[k] by {
        let i = choose|i: int| 0 <= i < before.len() && #[trigger] before[i].0@ == k;
        let l = if i < at { i } else { i - 1 };
        assert(after[l] == before[i]);
        assert(after[l].0@ == k);
    }
    assert(entries_view(after) =~= expected);
}

proof fn lemma_inserted(
    before: Seq<(String, Json)>,
    at: int,
    present: bool,
    after: Seq<(String, Json)>,
    key: Seq<char>,
    value: JsonView,
)
    requires
        keys_ascend(before),
        0 <= at <= before.len(),
        forall|i: int| 0 <= i < at ==> text_before(#[trigger] before[i].0@, key),
        forall|i: int| at <= i < before.len() ==> !text_before(#[trigger] before[i].0@, key),
        present ==> at < before.len() && before[at].0@ == key,
        present == entries_view(before).dom().contains(key),
        ({
            let rest = if present {
                before.remove(at)
            } else {
                before
            };
            &&& after.len() == rest.len() + 1
            &&& after == rest.insert(at, after[at])
        }),
        after[at].0@ == key,
        json_view(after[at].1) == value,
    ensures
        keys_ascend(after),
        entries_view(after) == entries_view(before).insert(key, value),
{
    let rest = if present {
        before.remove(at)
    } else {
        before
    };
    if present {
        lemma_removed(before, at, rest);
    } else {
        assert(entries_view(before).remove(key) =~= entries_view(before));
    }
    lemma_entries_view(before);
    assert forall|i: int| at <= i < rest.len() implies text_before(key, #[trigger] rest[i].0@) by {
        let l = if present { i + 1 } else { i };
        assert(rest[i] == before[l]);
        lemma_text_before_total(key, before[l].0@);
        if before[l].0@ == key {
            if present {
                lemma_ascending_keys_differ(before, l, at);
            } else {
                assert(entries_view(before).dom().contains(before[l].0@));
            }
        }
    }
    assert forall|i: int, j: int| 0 <= i < j < after.len() implies text_before(
        #[trigger] after[i].0@,
        #[trigger] after[j].0@,
    ) by {
        let k = if i < at { i } else { i - 1 };
        let l = if j < at { j } else { j - 1 };
        if i != at {
            assert(after[i] == rest[k]);
        }
        if j != at {
            assert(after[j] == rest[l]);
        }
        if i < at {
            assert(rest[i] == before[i]);
        }
    }
    lemma_entries_view(rest);
    lemma_entries_view(after);
    let expected = entries_view(rest).insert(key, value);
    assert forall|k: Seq<char>| entries_view(after).dom().contains(k)
        == expected.dom().contains(k) by {
        if entries_view(after).dom().contains(k) {
            let i = choose|i: int| 0 <= i < after.len() && #[trigger] after[i].0@ == k;
            if i != at {
                let l = if i < at { i } else { i - 1 };
                assert(after[i] == rest[l]);
                assert(rest[l].0@ == k);
            }
        }
        if expected.dom().contains(k) {
            if k == key {
                assert(after[at].0@ == k);
            } else {
                let i = choose|i: int| 0 <= i < rest.len() && #[trigger] rest[i].0@ == k;
                let l = if i < at { i } else { i + 1 };
                assert(after[l] == rest[i]);
                assert(after[l].0@ == k);
            }
        }
    }
    assert forall|k: Seq<char>| expected.dom().contains(k) implies entries_view(after)[k]
        == expected[k] by {
        if k == key {
            assert(after[at].0@ == k);
        } else {
            let i = choose|i: int| 0 <= i < rest.len() && #[trigger] rest[i].0@ == k;
            let l = if i < at { i } else { i + 1 };
            assert(after[l] == rest[i]);
            assert(after[l].0@ == k);
        }
    }
    assert(entries_view(after) =~= expected);
    assert(expected =~= entries_view(before).insert(key, value));
}

impl Json {
    /// A JSON number.
    pub fn unsigned(value: u64) -> (json: Json)
        ensures
            json@ == JsonView::Unsigned(value),
    {
        Json::Number(number_of(value))
    }

    /// An object with two fields.
    pub fn pair(
        first: &str,
        first_value: Json,
        second: &str,
        second_value: Json,
    ) -> (json: Json)
        ensures
            json@ == pair(first@, first_value@, second@, second_value@),
    {
        let mut object = JsonObject::new();
        object.insert(first, first_value);
        object.insert(second, second_value);
        Json::Object(object)
    }

    /// A JSON string.
    pub fn string(text: &str) -> (json: Json)
        ensures
            json@ == JsonView::Text(text@),
    {
        Json::Text(text.to_owned())
    }

    /// The value under `key`, where this is an object.
    pub fn get(&self, key: &str) -> (value: Option<&Json>)
        ensures
            optional_ref(value) == self@.field(key@),
    {
        match self {
            Json::Object(object) => object.get(key),
            _ => None,
        }
    }

    /// The characters, where this is a string.
    pub fn as_str(&self) -> (text: Option<&str>)
        ensures
            crate::text::optional_str(text) == self@.text(),
    {
        match self {
            Json::Text(text) => Some(text.as_str()),
            _ => None,
        }
    }

    /// The number, where this is an unsigned 64-bit integer.
    pub fn as_u64(&self) -> (number: Option<u64>)
        ensures
            number == self@.unsigned(),
    {
        match self {
            Json::Number(number) => number.as_u64(),
            _ => None,
        }
    }

    /// The items, where this is an array.
    pub fn as_list(&self) -> (items: Option<&Vec<Json>>)
        ensures
            match items {
                Some(items) => self@ == JsonView::List(list_view(items@)),
                None => self@.list() is None,
            },
    {
        match self {
            Json::List(items) => Some(items),
            _ => None,
        }
    }

    /// The string under `key`.
    pub fn text_field(&self, key: &str) -> (text: Option<&str>)
        ensures
            crate::text::optional_str(text) == self@.text_field(key@),
    {
        match self.get(key) {
            Some(value) => value.as_str(),
            None => None,
        }
    }

    /// The unsigned integer under `key`.
    pub fn unsigned_field(&self, key: &str) -> (number: Option<u64>)
        ensures
            number == self@.unsigned_field(key@),
    {
        match self.get(key) {
            Some(value) => value.as_u64(),
            None => None,
        }
    }
}

fn copy_json(json: &Json) -> (copy: Json)
    ensures
        copy@ == json@,
    decreases json,
{
    match json {
        Json::Null => Json::Null,
        Json::Bool(value) => Json::Bool(*value),
        Json::Number(number) => Json::Number(number.clone()),
        Json::Text(text) => Json::Text(text.clone()),
        Json::List(items) => Json::List(copy_list(items)),
        Json::Object(object) => Json::Object(copy_object(object)),
    }
}

fn copy_list(items: &Vec<Json>) -> (copy: Vec<Json>)
    ensures
        list_view(copy@) == list_view(items@),
    decreases items,
{
    let mut copy: Vec<Json> = Vec::new();
    let mut i: usize = 0;
    while i < items.len()
        invariant
            i <= items@.len(),
            copy@.len() == i,
            forall|j: int| 0 <= j < i ==> json_view(#[trigger] copy@[j]) == json_view(items@[j]),
        decreases items@.len() - i,
    {
        copy.push(copy_json(&items[i]));
        i = i + 1;
    }
    assert(list_view(copy@) =~= list_view(items@));
    copy
}

fn copy_object(object: &JsonObject) -> (copy: JsonObject)
    ensures
        copy@ == object@,
    decreases object,
{
    proof {
        use_type_invariant(object);
    }
    let mut entries: Vec<(String, Json)> = Vec::new();
    let mut i: usize = 0;
    while i < object.entries.len()
        invariant
            i <= object.entries@.len(),
            entries@.len() == i,
            forall|j: int| 0 <= j < i ==> (#[trigger] entries@[j]).0@ == object.entries@[j].0@,
            forall|j: int|
                0 <= j < i ==> json_view(#[trigger] entries@[j].1) == json_view(
                    object.entries@[j].1,
                ),
        decreases object.entries@.len() - i,
    {
        let value = copy_json(&object.entries[i].1);
        entries.push((object.entries[i].0.clone(), value));
        i = i + 1;
    }
    proof {
        assert forall|a: int, b: int| 0 <= a < b < entries@.len() implies text_before(
            #[trigger] entries@[a].0@,
            #[trigger] entries@[b].0@,
        ) by {
            assert(text_before(object.entries@[a].0@, object.entries@[b].0@));
        }
        lemma_same_entries(entries@, object.entries@);
    }
    JsonObject { entries }
}

proof fn lemma_same_entries(left: Seq<(String, Json)>, right: Seq<(String, Json)>)
    requires
        left.len() == right.len(),
        forall|j: int| 0 <= j < left.len() ==> (#[trigger] left[j]).0@ == right[j].0@,
        forall|j: int|
            0 <= j < left.len() ==> json_view(#[trigger] left[j].1) == json_view(right[j].1),
    ensures
        entries_view(left) == entries_view(right),
    decreases left.len(),
{
    if left.len() > 0 {
        let n = left.len() - 1;
        let l = left.subrange(0, n);
        let r = right.subrange(0, n);
        assert forall|j: int| 0 <= j < l.len() implies (#[trigger] l[j]).0@ == r[j].0@ by {
            assert(l[j] == left[j]);
        }
        assert forall|j: int| 0 <= j < l.len() implies json_view(#[trigger] l[j].1) == json_view(
            r[j].1,
        ) by {
            assert(l[j] == left[j]);
        }
        lemma_same_entries(l, r);
        assert(left[n].0@ == right[n].0@);
    }
}

impl Clone for Json {
    fn clone(&self) -> (copy: Json)
        ensures
            copy@ == self@,
    {
        copy_json(self)
    }
}

impl Clone for JsonObject {
    fn clone(&self) -> (copy: JsonObject)
        ensures
            copy@ == self@,
    {
        copy_object(self)
    }
}

} // verus!
