//! JSON values: what the library reads of them.

use vstd::prelude::*;

use crate::text;

verus! {

/// `serde_json::Value`, a JSON value.
#[verifier::external_type_specification]
#[verifier::external_body]
pub struct ExValue(serde_json::Value);

/// The value that a sequence of bytes is the JSON text of, if it is one: what
/// `serde_json::from_slice` returns.
pub uninterp spec fn json_parsed(bytes: Seq<u8>) -> Option<serde_json::Value>;

/// The member of this name of an object: what `serde_json::Value::get` returns.
pub uninterp spec fn json_member(value: serde_json::Value, name: Seq<char>) -> Option<serde_json::Value>;

/// The text of a string: what `serde_json::Value::as_str` returns.
pub uninterp spec fn json_text(value: serde_json::Value) -> Option<Seq<char>>;

/// The items of an array: what `serde_json::Value::as_array` returns.
pub uninterp spec fn json_items(value: serde_json::Value) -> Option<Seq<serde_json::Value>>;

/// `serde_json::from_slice`: the value that the bytes are the JSON text of, if they are one.
#[verifier::external_body]
pub(crate) fn parse(bytes: &[u8]) -> (r: Option<serde_json::Value>)
    ensures
        r == json_parsed(bytes@),
{
    serde_json::from_slice(bytes).ok()
}

/// `serde_json::Value::get` with a name: the member of that name, where the value is an object
/// that has one.
#[verifier::external_body]
pub(crate) fn member<'a>(value: &'a serde_json::Value, name: &str) -> (r: Option<&'a serde_json::Value>)
    ensures
        match r {
            Some(m) => json_member(*value, name@) == Some(*m),
            None => json_member(*value, name@) is None,
        },
{
    value.get(name)
}

/// `serde_json::Value::as_str`: the text of the value, where it is a string.
pub assume_specification[ serde_json::Value::as_str ](value: &serde_json::Value) -> (r: Option<
    &str,
>)
    ensures
        text::opt_str(r) == json_text(*value),
;

/// `serde_json::Value::as_array`: the items of the value, where it is an array.
pub assume_specification[ serde_json::Value::as_array ](value: &serde_json::Value) -> (r: Option<
    &Vec<serde_json::Value>,
>)
    ensures
        match r {
            Some(items) => json_items(*value) == Some(items@),
            None => json_items(*value) is None,
        },
;

/// The text of a member, where it is a string.
pub open spec fn member_text(value: serde_json::Value, name: Seq<char>) -> Option<Seq<char>> {
    match json_member(value, name) {
        Some(m) => json_text(m),
        None => None,
    }
}

/// The text of the member `name`, where there is one and it is a string.
pub fn text_member<'a>(value: &'a serde_json::Value, name: &str) -> (r: Option<&'a str>)
    ensures
        text::opt_str(r) == member_text(*value, name@),
{
    match member(value, name) {
        Some(m) => m.as_str(),
        None => None,
    }
}

/// The value of a member of an object.
#[derive(Debug, PartialEq, Eq)]
pub enum Field {
    Null,
    Bool(bool),
    Text(String),
    Int(i64),
    Texts(Vec<String>),
    /// Any value.
    Value(serde_json::Value),
}

/// The model of a [`Field`].
pub enum FieldView {
    Null,
    Bool(bool),
    Text(Seq<char>),
    Int(int),
    Texts(Seq<Seq<char>>),
    Value(serde_json::Value),
}

impl View for Field {
    type V = FieldView;

    open spec fn view(&self) -> FieldView {
        match self {
            Field::Null => FieldView::Null,
            Field::Bool(b) => FieldView::Bool(*b),
            Field::Text(s) => FieldView::Text(s@),
            Field::Int(n) => FieldView::Int(*n as int),
            Field::Texts(list) => FieldView::Texts(text::texts(list@)),
            Field::Value(value) => FieldView::Value(*value),
        }
    }
}

/// The models of the members of an object.
pub open spec fn members_view(v: Seq<(String, Field)>) -> Seq<(Seq<char>, FieldView)> {
    v.map_values(|p: (String, Field)| (p.0@, p.1@))
}

/// The object with these members, inserted in this order: what a `serde_json::Value` collects them
/// to.
pub uninterp spec fn json_object(members: Seq<(Seq<char>, FieldView)>) -> serde_json::Value;

/// `FromIterator` of `serde_json::Value`: the object with these members.
#[verifier::external_body]
pub(crate) fn object(members: &Vec<(String, Field)>) -> (r: serde_json::Value)
    ensures
        r == json_object(members_view(members@)),
{
    let value = |field: &Field| match field {
        Field::Null => serde_json::Value::Null,
        Field::Bool(b) => (*b).into(),
        Field::Text(s) => s.as_str().into(),
        Field::Int(n) => (*n).into(),
        Field::Texts(list) => list.as_slice().into(),
        Field::Value(value) => value.clone(),
    };
    members.iter().map(|(name, field)| (name.as_str(), value(field))).collect()
}

/// The JSON text of a value: what `to_string` of a `serde_json::Value` returns.
pub uninterp spec fn json_value_text(value: serde_json::Value) -> Seq<char>;

/// `to_string` of `serde_json::Value`: the JSON text of the value.
#[verifier::external_body]
pub(crate) fn value_text(value: &serde_json::Value) -> (r: String)
    ensures
        r@ == json_value_text(*value),
{
    value.to_string()
}

/// The JSON text of an object with these members.
pub open spec fn json_object_text(members: Seq<(Seq<char>, FieldView)>) -> Seq<char> {
    json_value_text(json_object(members))
}

/// The JSON text of an object with these members.
pub fn object_text(members: &Vec<(String, Field)>) -> (r: String)
    ensures
        r@ == json_object_text(members_view(members@)),
{
    value_text(&object(members))
}

/// A member with a text, where there is one.
pub open spec fn text_field(name: Seq<char>, value: Option<Seq<char>>) -> Seq<(Seq<char>, FieldView)> {
    match value {
        Some(s) => seq![(name, FieldView::Text(s))],
        None => Seq::empty(),
    }
}

/// A member with a number, where there is one.
pub open spec fn int_field(name: Seq<char>, value: Option<i64>) -> Seq<(Seq<char>, FieldView)> {
    match value {
        Some(n) => seq![(name, FieldView::Int(n as int))],
        None => Seq::empty(),
    }
}

/// Adds a member.
pub fn put(members: &mut Vec<(String, Field)>, name: &str, field: Field)
    ensures
        members_view(final(members)@) == members_view(old(members)@).push((name@, field@)),
{
    let ghost before = members@;
    members.push((name.to_owned(), field));
    assert(members_view(members@) =~= members_view(before).push((name@, field@)));
}

/// The JSON text of a value: what `serde_json::to_string` returns for it.
pub uninterp spec fn json_serialized(value: serde_json::Value) -> Option<Seq<char>>;

/// `serde_json::to_string`: the JSON text of a value.
#[verifier::external_body]
pub(crate) fn serialized(value: &serde_json::Value) -> (r: Option<String>)
    ensures
        text::opt_text(r) == json_serialized(*value),
{
    serde_json::to_string(value).ok()
}

/// The text of a member is that of the member under this name, and no other; an optional member is
/// there exactly where its value is, under its name and with its value.
pub proof fn law_a_member_is_read_and_written_under_its_name(
    value: serde_json::Value,
    name: Seq<char>,
    text: Seq<char>,
    number: i64,
)
    ensures
        json_member(value, name) matches Some(m) ==> member_text(value, name) == json_text(m),
        json_member(value, name) is None ==> member_text(value, name) is None,
        text_field(name, Some(text)) == seq![(name, FieldView::Text(text))],
        text_field(name, None).len() == 0,
        int_field(name, Some(number)) == seq![(name, FieldView::Int(number as int))],
        int_field(name, None).len() == 0,
{
}

/// The value of a member is written as what it is.
pub proof fn law_a_value_is_written_as_what_it_is(field: Field)
    ensures
        field is Null ==> field@ is Null,
        field matches Field::Bool(b) ==> field@ == FieldView::Bool(b),
        field matches Field::Text(s) ==> field@ == FieldView::Text(s@),
        field matches Field::Int(n) ==> field@ == FieldView::Int(n as int),
        field matches Field::Texts(list) ==> field@ == FieldView::Texts(text::texts(list@)),
        field matches Field::Value(value) ==> field@ == FieldView::Value(value),
{
}

} // verus!
