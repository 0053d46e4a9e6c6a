//! JSON documents: what a value of simd-json holds, and the operations on it.

use simd_json::prelude::{
    ValueAsMutArray, ValueAsMutObject, ValueAsScalar, ValueObjectAccess,
};
use simd_json::{OwnedValue, StaticNode};
use vstd::prelude::*;

verus! {

/// The tree that a JSON document is. The members of an object stand in the order in which its
/// document hands them out; a key can occur more than once. A float is given by its bits.
pub enum Json {
    Null,
    Bool(bool),
    Signed(i64),
    Unsigned(u64),
    Float(u64),
    Text(Seq<char>),
    Array(Seq<Json>),
    Object(Seq<(Seq<char>, Json)>),
}

/// The value of the first member under `key`.
pub open spec fn first_member(members: Seq<(Seq<char>, Json)>, key: Seq<char>) -> Option<Json>
    decreases members.len(),
{
    if members.len() == 0 {
        None
    } else if members[0].0 == key {
        Some(members[0].1)
    } else {
        first_member(members.drop_first(), key)
    }
}

/// The member of a document under `key`: `None` where the document is no object, and where the
/// object has no such member.
pub open spec fn member(document: Json, key: Seq<char>) -> Option<Json> {
    match document {
        Json::Object(members) => first_member(members, key),
        _ => None,
    }
}

/// The text that the member under `key` is: `None` where there is no such member, and where it
/// is no text.
pub open spec fn text_member(document: Json, key: Seq<char>) -> Option<Seq<char>> {
    match member(document, key) {
        Some(Json::Text(text)) => Some(text),
        _ => None,
    }
}

#[verifier::external_type_specification]
#[verifier::external_body]
pub struct ExOwnedValue(simd_json::OwnedValue);

#[verifier::external_type_specification]
#[verifier::external_body]
pub struct ExSerdeValue(serde_json::Value);

/// What a simd-json document holds.
pub uninterp spec fn document(value: simd_json::OwnedValue) -> Json;

/// The documents that some simd-json values hold.
pub open spec fn documents(values: Seq<simd_json::OwnedValue>) -> Seq<Json> {
    values.map_values(|value: simd_json::OwnedValue| document(value))
}

/// The documents that some references to simd-json values lead to.
pub open spec fn items_of(values: Seq<&simd_json::OwnedValue>) -> Seq<Json> {
    values.map_values(|value: &simd_json::OwnedValue| document(*value))
}

/// The members that some keys and simd-json values are.
pub open spec fn members_of(members: Seq<(&str, &simd_json::OwnedValue)>) -> Seq<
    (Seq<char>, Json),
> {
    members.map_values(
        |member: (&str, &simd_json::OwnedValue)| (member.0@, document(*member.1)),
    )
}

/// What a simd-json document is, one level deep. A float is given by its bits.
pub enum ValueNode<'a> {
    Null,
    Bool(bool),
    Signed(i64),
    Unsigned(u64),
    Float(u64),
    Text(&'a str),
    Array(Vec<&'a simd_json::OwnedValue>),
    Object(Vec<(&'a str, &'a simd_json::OwnedValue)>),
}

/// Tells the variants of `OwnedValue` apart. The members of an object stand in the order in which
/// it hands them out.
#[verifier::external_body]
pub(crate) fn open_value(value: &simd_json::OwnedValue) -> (node: ValueNode<'_>)
    ensures
        document(*value) == match node {
            ValueNode::Null => Json::Null,
            ValueNode::Bool(flag) => Json::Bool(flag),
            ValueNode::Signed(number) => Json::Signed(number),
            ValueNode::Unsigned(number) => Json::Unsigned(number),
            ValueNode::Float(bits) => Json::Float(bits),
            ValueNode::Text(text) => Json::Text(text@),
            ValueNode::Array(items) => Json::Array(items_of(items@)),
            ValueNode::Object(members) => Json::Object(members_of(members@)),
        },
{
    match value {
        OwnedValue::Static(StaticNode::Null) => ValueNode::Null,
        OwnedValue::Static(StaticNode::Bool(flag)) => ValueNode::Bool(*flag),
        OwnedValue::Static(StaticNode::I64(number)) => ValueNode::Signed(*number),
        OwnedValue::Static(StaticNode::U64(number)) => ValueNode::Unsigned(*number),
        OwnedValue::Static(StaticNode::F64(number)) => ValueNode::Float(number.to_bits()),
        OwnedValue::String(text) => ValueNode::Text(text),
        OwnedValue::Array(items) => ValueNode::Array(items.iter().collect()),
        OwnedValue::Object(members) => {
            ValueNode::Object(members.iter().map(|(key, inner)| (key.as_str(), inner)).collect())
        },
    }
}

/// The text of a float, which is given by its bits: its digits, without an exponent.
pub uninterp spec fn float_text(bits: u64) -> Seq<char>;

/// The text of a document that is a float, as `ValueAsScalar::as_f64` of simd-json and `Display` of
/// the standard library give it.
#[verifier::external_body]
pub(crate) fn to_float_text(value: &simd_json::OwnedValue) -> (text: Option<String>)
    ensures
        match document(*value) {
            Json::Float(bits) => text matches Some(text) && text@ == float_text(bits),
            _ => text is None,
        },
{
    value.as_f64().map(|number| number.to_string())
}

/// An item of an array, to be changed in place, as `ValueAsMutArray::as_array_mut` of simd-json
/// hands it out.
#[verifier::external_body]
pub(crate) fn item_mut(value: &mut simd_json::OwnedValue, index: usize) -> (item:
    &mut simd_json::OwnedValue)
    requires
        document(*old(value)) is Array,
        index < document(*old(value))->Array_0.len(),
    ensures
        document(*item) == document(*old(value))->Array_0[index as int],
        document(*final(value)) == Json::Array(
            document(*old(value))->Array_0.update(index as int, document(*final(item))),
        ),
{
    &mut value.as_array_mut().unwrap()[index]
}

/// The value of a member of an object, to be changed in place, as
/// `ValueAsMutObject::as_object_mut` of simd-json hands it out. The members keep their order.
#[verifier::external_body]
pub(crate) fn member_mut(value: &mut simd_json::OwnedValue, index: usize) -> (member:
    &mut simd_json::OwnedValue)
    requires
        document(*old(value)) is Object,
        index < document(*old(value))->Object_0.len(),
    ensures
        document(*member) == document(*old(value))->Object_0[index as int].1,
        document(*final(value)) == Json::Object(
            document(*old(value))->Object_0.update(
                index as int,
                (document(*old(value))->Object_0[index as int].0, document(*final(member))),
            ),
        ),
{
    value.as_object_mut().unwrap().values_mut().nth(index).unwrap()
}

/// Replaces a document by a text, as `From<&str>` of simd-json makes it.
#[verifier::external_body]
pub(crate) fn set_text(value: &mut simd_json::OwnedValue, text: &str)
    ensures
        document(*final(value)) == Json::Text(text@),
{
    *value = OwnedValue::from(text);
}

/// Replaces a document by an object with one member, which is null, as `FromIterator` of simd-json
/// makes it.
#[verifier::external_body]
pub(crate) fn set_member(value: &mut simd_json::OwnedValue, key: &str)
    ensures
        document(*final(value)) == Json::Object(seq![(key@, Json::Null)]),
{
    *value = OwnedValue::from_iter([(key, StaticNode::Null)]);
}

/// What a serde_json document holds.
pub uninterp spec fn serde_document(value: serde_json::Value) -> Json;

/// What `simd_json::to_vec` makes of a document: its bytes, or the text of the error.
pub uninterp spec fn serialized(document: Json) -> Result<Seq<u8>, Seq<char>>;

/// What `simd_json::serde::from_refowned_value` makes of a document when it is asked for a
/// serde_json document: that document, or the text of the error.
pub uninterp spec fn converted(document: Json) -> Result<Json, Seq<char>>;

/// `ValueObjectAccess::get` of simd-json: the member of an object under a key, the first one
/// where the object holds the key more than once; nothing of any other document.
#[verifier::external_body]
pub(crate) fn get_member<'a>(value: &'a simd_json::OwnedValue, key: &str) -> (found: Option<
    &'a simd_json::OwnedValue,
>)
    ensures
        match found {
            Some(inner) => member(document(*value), key@) == Some(document(*inner)),
            None => member(document(*value), key@) is None,
        },
{
    value.get(key)
}

/// `ValueAsScalar::as_str` of simd-json: the text of a document that is a text.
#[verifier::external_body]
pub(crate) fn as_text(value: &simd_json::OwnedValue) -> (text: Option<&str>)
    ensures
        match text {
            Some(text) => document(*value) == Json::Text(text@),
            None => !(document(*value) is Text),
        },
{
    value.as_str()
}

/// `simd_json::to_vec`: serializes a document. The bytes depend on the document alone, its
/// members taken in their order.
#[verifier::external_body]
pub(crate) fn to_bytes(value: &simd_json::OwnedValue) -> (bytes: Result<Vec<u8>, String>)
    ensures
        match bytes {
            Ok(bytes) => serialized(document(*value)) == Ok::<Seq<u8>, Seq<char>>(bytes@),
            Err(error) => serialized(document(*value)) == Err::<Seq<u8>, Seq<char>>(error@),
        },
{
    simd_json::to_vec(value).map_err(|error| error.to_string())
}

/// `simd_json::serde::from_refowned_value`: turns a simd-json document into one of serde_json.
#[verifier::external_body]
pub(crate) fn to_serde(value: &simd_json::OwnedValue) -> (converted_value: Result<
    serde_json::Value,
    String,
>)
    ensures
        match converted_value {
            Ok(result) => converted(document(*value)) == Ok::<Json, Seq<char>>(
                serde_document(result),
            ),
            Err(error) => converted(document(*value)) == Err::<Json, Seq<char>>(error@),
        },
{
    simd_json::serde::from_refowned_value::<serde_json::Value>(value).map_err(
        |error| error.to_string(),
    )
}

/// The text that the member of `value` under `key` is.
pub fn get_text(value: &simd_json::OwnedValue, key: &str) -> (text: Option<String>)
    ensures
        match text {
            Some(text) => text_member(document(*value), key@) == Some(text@),
            None => text_member(document(*value), key@) is None,
        },
{
    match get_member(value, key) {
        Some(inner) => match as_text(inner) {
            Some(text) => Some(text.to_owned()),
            None => None,
        },
        None => None,
    }
}

} // verus!
