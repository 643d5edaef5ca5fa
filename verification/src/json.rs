//! The structured result of a form, as a JSON object of `serde_json`.

use vstd::prelude::*;
use crate::validators::{Answer, AnswerView};

verus! {

/// `serde_json::Value`, any JSON value. Nothing here looks inside one.
#[verifier::external_type_specification]
#[verifier::external_body]
pub struct ExJsonValue(serde_json::Value);

/// `serde_json::Map`, the key/value collection of a JSON object.
#[verifier::external_type_specification]
#[verifier::external_body]
#[verifier::reject_recursive_types(K)]
#[verifier::reject_recursive_types(V)]
pub struct ExJsonMap<K, V>(serde_json::Map<K, V>);

/// What a JSON object of form values holds: under each key the value
/// there, a JSON string as a text and a JSON boolean as a flag.
pub uninterp spec fn object_fields(object: serde_json::Map<String, serde_json::Value>) -> Map<
    Seq<char>,
    AnswerView,
>;

/// The contents of an object that holds nothing.
pub open spec fn no_fields() -> Map<Seq<char>, AnswerView> {
    Map::empty()
}

/// `serde_json::Map::new`: an object that holds nothing.
#[verifier::external_body]
pub(crate) fn new_object() -> (object: serde_json::Map<String, serde_json::Value>)
    ensures
        object_fields(object) == no_fields(),
{
    serde_json::Map::new()
}

/// `serde_json::Map::insert` of a JSON string: afterwards the object
/// holds the text under `label`, in place of what it held there before;
/// every other key keeps its value.
#[verifier::external_body]
pub(crate) fn put_text(
    object: &mut serde_json::Map<String, serde_json::Value>,
    label: String,
    text: String,
)
    ensures
        object_fields(*final(object)) == object_fields(*old(object)).insert(
            label@,
            AnswerView::Text(text@),
        ),
{
    object.insert(label, serde_json::Value::String(text));
}

/// `serde_json::Map::insert` of a JSON boolean: afterwards the object
/// holds the flag under `label`, in place of what it held there before;
/// every other key keeps its value.
#[verifier::external_body]
pub(crate) fn put_flag(
    object: &mut serde_json::Map<String, serde_json::Value>,
    label: String,
    flag: bool,
)
    ensures
        object_fields(*final(object)) == object_fields(*old(object)).insert(
            label@,
            AnswerView::Flag(flag),
        ),
{
    object.insert(label, serde_json::Value::Bool(flag));
}

/// Puts the value of a field into the object, under the field's label.
pub(crate) fn put(
    object: &mut serde_json::Map<String, serde_json::Value>,
    label: String,
    value: Answer,
)
    ensures
        object_fields(*final(object)) == object_fields(*old(object)).insert(label@, value@),
{
    match value {
        Answer::Text(text) => put_text(object, label, text),
        Answer::Flag(flag) => put_flag(object, label, flag),
    }
}

} // verus!
