//! JSON values: the tree that a `serde_json::Value` holds, and the calls into
//! `serde_json` that read one, take it apart and print it.
use crate::text::{decimal, signed_decimal};
use vstd::prelude::*;
use vstd::string::*;

verus! {

/// The mathematical form of a JSON value. A number is its printed form; an
/// object is the list of its fields, in the order of the map.
#[verifier::ext_equal]
pub enum JsonTree {
    Null,
    Bool(bool),
    Number(Seq<char>),
    Text(Seq<char>),
    Array(Seq<JsonTree>),
    Object(Seq<(Seq<char>, JsonTree)>),
}

/// The value of the first of `fields` that is named `key`.
pub open spec fn first_field(fields: Seq<(Seq<char>, JsonTree)>, key: Seq<char>) -> Option<JsonTree>
    decreases fields.len(),
{
    if fields.len() == 0 {
        None
    } else if fields[0].0 == key {
        Some(fields[0].1)
    } else {
        first_field(fields.drop_first(), key)
    }
}

impl JsonTree {
    /// The value of the field `key` of an object; nothing for any other value.
    pub open spec fn field(self, key: Seq<char>) -> Option<JsonTree> {
        match self {
            JsonTree::Object(fields) => first_field(fields, key),
            _ => None,
        }
    }

    /// The text of the field `key`, where it is there and is a text.
    pub open spec fn text_field(self, key: Seq<char>) -> Option<Seq<char>> {
        match self.field(key) {
            Some(JsonTree::Text(text)) => Some(text),
            _ => None,
        }
    }

    /// The items of the field `key`, where it is there and is an array.
    pub open spec fn array_field(self, key: Seq<char>) -> Option<Seq<JsonTree>> {
        match self.field(key) {
            Some(JsonTree::Array(items)) => Some(items),
            _ => None,
        }
    }
}

/// A JSON value of `serde_json`.
#[verifier::external_type_specification]
#[verifier::external_body]
pub struct ExValue(serde_json::Value);

/// The tree that a `serde_json::Value` holds.
pub uninterp spec fn value_tree(value: serde_json::Value) -> JsonTree;

/// The tree that `serde_json::from_str::<Value>` reads out of a text, where it
/// accepts the text.
pub uninterp spec fn parsed_json(text: Seq<char>) -> Option<JsonTree>;

/// What `serde_json::to_string` prints for a tree.
pub uninterp spec fn compact_json(tree: JsonTree) -> Option<Seq<char>>;

/// What `serde_json::to_string_pretty` prints for a tree.
pub uninterp spec fn pretty_json(tree: JsonTree) -> Option<Seq<char>>;

/// The trees of a sequence of values.
pub open spec fn trees_of(values: Seq<serde_json::Value>) -> Seq<JsonTree> {
    values.map_values(|value: serde_json::Value| value_tree(value))
}

/// `serde_json::from_str::<Value>`: reads JSON text. Whether it is accepted,
/// and the tree read, depend on the text alone.
#[verifier::external_body]
pub(crate) fn parse_value(text: &str) -> (r: Option<serde_json::Value>)
    ensures
        match r {
            Some(value) => parsed_json(text@) == Some(value_tree(value)),
            None => parsed_json(text@) is None,
        },
{
    serde_json::from_str(text).ok()
}

/// `serde_json::to_string` of a value, `None` where it reports an error. The
/// result depends on the tree alone.
#[verifier::external_body]
pub(crate) fn print_value(value: &serde_json::Value) -> (r: Option<String>)
    ensures
        r.deep_view() == compact_json(value_tree(*value)),
{
    serde_json::to_string(value).ok()
}

/// `serde_json::to_string_pretty` of a value, `None` where it reports an
/// error. The result depends on the tree alone.
#[verifier::external_body]
pub(crate) fn print_value_pretty(value: &serde_json::Value) -> (r: Option<String>)
    ensures
        r.deep_view() == pretty_json(value_tree(*value)),
{
    serde_json::to_string_pretty(value).ok()
}

/// `Value::clone`: a value with the same tree.
#[verifier::external_body]
pub(crate) fn clone_value(value: &serde_json::Value) -> (r: serde_json::Value)
    ensures
        value_tree(r) == value_tree(*value),
{
    value.clone()
}

/// `Value::get` with a string key: the value of that field of an object;
/// nothing where the field is missing or the value is no object.
#[verifier::external_body]
pub(crate) fn value_get<'a>(value: &'a serde_json::Value, key: &str) -> (r: Option<&'a serde_json::Value>)
    ensures
        match r {
            Some(found) => value_tree(*value).field(key@) == Some(value_tree(*found)),
            None => value_tree(*value).field(key@) is None,
        },
{
    value.get(key)
}

/// `Value::as_str`: the text of a string value.
#[verifier::external_body]
pub(crate) fn value_as_str(value: &serde_json::Value) -> (r: Option<&str>)
    ensures
        match r {
            Some(text) => value_tree(*value) == JsonTree::Text(text@),
            None => !(value_tree(*value) is Text),
        },
{
    value.as_str()
}

/// `Value::as_bool`: the truth value of a boolean value.
#[verifier::external_body]
pub(crate) fn value_as_bool(value: &serde_json::Value) -> (r: Option<bool>)
    ensures
        match r {
            Some(b) => value_tree(*value) == JsonTree::Bool(b),
            None => !(value_tree(*value) is Bool),
        },
{
    value.as_bool()
}

/// `Value::as_number`: the printed form of a number value.
#[verifier::external_body]
pub(crate) fn value_as_number(value: &serde_json::Value) -> (r: Option<String>)
    ensures
        match r {
            Some(text) => value_tree(*value) == JsonTree::Number(text@),
            None => !(value_tree(*value) is Number),
        },
{
    value.as_number().map(|number| number.to_string())
}

/// `Value::is_null`.
#[verifier::external_body]
pub(crate) fn value_is_null(value: &serde_json::Value) -> (r: bool)
    ensures
        r == (value_tree(*value) is Null),
{
    value.is_null()
}

/// `Value::as_array`: the items of an array value.
#[verifier::external_body]
pub(crate) fn value_as_array(value: &serde_json::Value) -> (r: Option<&Vec<serde_json::Value>>)
    ensures
        match r {
            Some(items) => value_tree(*value) == JsonTree::Array(trees_of(items@)),
            None => !(value_tree(*value) is Array),
        },
{
    value.as_array()
}

/// `Value::as_object`: the values of an object's fields, in the order of the
/// map.
#[verifier::external_body]
pub(crate) fn value_field_values(value: &serde_json::Value) -> (r: Option<Vec<&serde_json::Value>>)
    ensures
        match r {
            Some(values) => {
                &&& value_tree(*value) matches JsonTree::Object(fields)
                &&& values@.len() == fields.len()
                &&& forall|i: int|
                    0 <= i < fields.len() ==> value_tree(*#[trigger] values@[i]) == fields[i].1
            },
            None => !(value_tree(*value) is Object),
        },
{
    value.as_object().map(|fields| fields.values().collect())
}

/// The text of the field `key`, where it is there and is a text.
pub fn text_field<'a>(value: &'a serde_json::Value, key: &str) -> (r: Option<&'a str>)
    ensures
        match r {
            Some(text) => value_tree(*value).text_field(key@) == Some(text@),
            None => value_tree(*value).text_field(key@) is None,
        },
{
    match value_get(value, key) {
        Some(found) => value_as_str(found),
        None => None,
    }
}

/// The items of the field `key`, where it is there and is an array.
pub fn array_field<'a>(value: &'a serde_json::Value, key: &str) -> (r: Option<
    &'a Vec<serde_json::Value>,
>)
    ensures
        match r {
            Some(items) => value_tree(*value).array_field(key@) == Some(trees_of(items@)),
            None => value_tree(*value).array_field(key@) is None,
        },
{
    match value_get(value, key) {
        Some(found) => value_as_array(found),
        None => None,
    }
}

/// `Value::from(String)`: a text.
#[verifier::external_body]
pub(crate) fn text_value(text: String) -> (r: serde_json::Value)
    ensures
        value_tree(r) == JsonTree::Text(text@),
{
    serde_json::Value::from(text)
}

/// `Value::from(u64)`: a number, which prints as its decimal digits.
#[verifier::external_body]
pub(crate) fn number_value(n: u64) -> (r: serde_json::Value)
    ensures
        value_tree(r) == JsonTree::Number(decimal(n as nat)),
{
    serde_json::Value::from(n)
}

/// `Value::from(i64)`: a number, which prints as its decimal digits, behind a
/// minus sign if it is negative.
#[verifier::external_body]
pub(crate) fn signed_value(n: i64) -> (r: serde_json::Value)
    ensures
        value_tree(r) == JsonTree::Number(signed_decimal(n as int)),
{
    serde_json::Value::from(n)
}

/// `Value::from(())`: the null value.
#[verifier::external_body]
pub(crate) fn null_value() -> (r: serde_json::Value)
    ensures
        value_tree(r) == JsonTree::Null,
{
    serde_json::Value::from(())
}

/// `Value::from(Vec<Value>)`: an array of the given items.
#[verifier::external_body]
pub(crate) fn array_value(items: Vec<serde_json::Value>) -> (r: serde_json::Value)
    ensures
        value_tree(r) == JsonTree::Array(trees_of(items@)),
{
    serde_json::Value::from(items)
}

/// The fields of an object, with what their values hold.
pub open spec fn fields_of(fields: Seq<(String, serde_json::Value)>) -> Seq<(Seq<char>, JsonTree)> {
    fields.map_values(|field: (String, serde_json::Value)| (field.0@, value_tree(field.1)))
}

/// Whether no two fields have the same key.
pub open spec fn has_distinct_keys(fields: Seq<(Seq<char>, JsonTree)>) -> bool {
    forall|i: int, j: int|
        0 <= i < j < fields.len() ==> (#[trigger] fields[i]).0 != (#[trigger] fields[j]).0
}

/// `Map::from_iter`: an object with the given fields, in the given order.
#[verifier::external_body]
pub(crate) fn object_value(fields: Vec<(String, serde_json::Value)>) -> (r: serde_json::Value)
    requires
        has_distinct_keys(fields_of(fields@)),
    ensures
        value_tree(r) == JsonTree::Object(fields_of(fields@)),
{
    serde_json::Value::Object(serde_json::Map::from_iter(fields))
}

/// Appends a field.
pub(crate) fn push_field(
    fields: &mut Vec<(String, serde_json::Value)>,
    key: &str,
    value: serde_json::Value,
)
    ensures
        fields_of(final(fields)@) == fields_of(old(fields)@).push((key@, value_tree(value))),
{
    let ghost before = fields@;
    fields.push((key.to_owned(), value));
    assert(fields_of(fields@) =~= fields_of(before).push((key@, value_tree(value))));
}

/// Appends an item.
pub(crate) fn push_item(items: &mut Vec<serde_json::Value>, item: serde_json::Value)
    ensures
        trees_of(final(items)@) == trees_of(old(items)@).push(value_tree(item)),
{
    let ghost before = items@;
    items.push(item);
    assert(trees_of(items@) =~= trees_of(before).push(value_tree(item)));
}

} // verus!
