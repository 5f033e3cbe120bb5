//! The header fields of a message.
use vstd::prelude::*;

use crate::text::{optional_str, optional_text, same_text};

verus! {

/// A header field. Its name is in lower case; its value is none where it is not
/// visible ASCII.
#[derive(Debug, PartialEq, Eq)]
pub struct HeaderField {
    pub name: String,
    pub value: Option<String>,
}

/// What a header field holds.
pub struct FieldView {
    pub name: Seq<char>,
    pub value: Option<Seq<char>>,
}

impl View for HeaderField {
    type V = FieldView;

    open spec fn view(&self) -> FieldView {
        FieldView { name: self.name@, value: optional_text(self.value) }
    }
}

/// What a sequence of header fields holds.
pub open spec fn fields_view(fields: Seq<HeaderField>) -> Seq<FieldView> {
    fields.map_values(|field: HeaderField| field@)
}

/// The first field of a name, where there is one.
pub open spec fn field_of(fields: Seq<FieldView>, name: Seq<char>) -> Option<FieldView>
    decreases fields.len(),
{
    if fields.len() == 0 {
        None
    } else if fields[0].name == name {
        Some(fields[0])
    } else {
        field_of(fields.skip(1), name)
    }
}

/// The text of the first field of a name.
pub open spec fn field_text(fields: Seq<FieldView>, name: Seq<char>) -> Option<Seq<char>> {
    match field_of(fields, name) {
        Some(field) => field.value,
        None => None,
    }
}

/// What an optional header field holds.
pub open spec fn optional_field(field: Option<&HeaderField>) -> Option<FieldView> {
    match field {
        Some(field) => Some(field@),
        None => None,
    }
}

/// The first field of a name, where there is one.
pub fn header<'a>(fields: &'a Vec<HeaderField>, name: &str) -> (field: Option<&'a HeaderField>)
    ensures
        optional_field(field) == field_of(fields_view(fields@), name@),
{
    let ghost whole = fields_view(fields@);
    let mut i: usize = 0;
    assert(whole.skip(0) =~= whole);
    while i < fields.len()
        invariant
            i <= fields@.len(),
            whole == fields_view(fields@),
            field_of(whole, name@) == field_of(whole.skip(i as int), name@),
        decreases fields@.len() - i,
    {
        assert(whole.skip(i as int)[0] == fields@[i as int]@);
        assert(whole.skip(i as int).skip(1) =~= whole.skip(i + 1));
        if same_text(fields[i].name.as_str(), name) {
            return Some(&fields[i]);
        }
        i = i + 1;
    }
    None
}

/// The text of the first field of a name.
pub fn header_text<'a>(fields: &'a Vec<HeaderField>, name: &str) -> (text: Option<&'a str>)
    ensures
        optional_str(text) == field_text(fields_view(fields@), name@),
{
    match header(fields, name) {
        Some(field) => match &field.value {
            Some(value) => Some(value.as_str()),
            None => None,
        },
        None => None,
    }
}

} // verus!
