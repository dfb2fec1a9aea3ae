//! Reading a configuration document: the items of a TOML table as plain
//! values.

use vstd::prelude::*;

verus! {

/// A table of a TOML document, from keys to values.
#[verifier::external_type_specification]
#[verifier::external_body]
#[verifier::reject_recursive_types(K)]
#[verifier::reject_recursive_types(V)]
pub struct ExMap<K, V>(toml::map::Map<K, V>);

/// A value of a TOML document.
#[verifier::external_type_specification]
#[verifier::external_body]
pub struct ExValue(toml::Value);

/// Why a text is no TOML document.
#[verifier::external_type_specification]
#[verifier::external_body]
pub struct ExError(toml::de::Error);

/// A value of a document as plain data: an integer, a float given by the
/// bits of its double-precision representation, an array of values, or
/// anything else.
pub enum Item {
    Integer(i64),
    Float(u64),
    Array(Seq<Item>),
    Other,
}

/// The top-level table that `text` holds when read as a TOML document, from
/// keys to items; nothing when `text` is no TOML document.
pub uninterp spec fn parsed_items(text: Seq<char>) -> Option<Map<Seq<char>, Item>>;

/// What a table holds, from keys to items.
pub uninterp spec fn table_items(table: toml::Table) -> Map<Seq<char>, Item>;

/// What a value holds.
pub uninterp spec fn value_item(value: toml::Value) -> Item;

/// The items of an array of values, one for one.
pub open spec fn array_items(values: Seq<toml::Value>) -> Seq<Item> {
    Seq::new(values.len(), |i: int| value_item(values[i]))
}

/// Reads `text` as a TOML document with `str::parse` for `toml::Table`.
/// The table that comes back holds what the document holds at top level; an
/// error comes back exactly when the text is no TOML document.
#[verifier::external_body]
pub(crate) fn parse_table(text: &str) -> (parsed: Result<toml::Table, toml::de::Error>)
    ensures
        match parsed {
            Ok(table) => parsed_items(text@) == Some(table_items(table)),
            Err(_) => parsed_items(text@) is None,
        },
{
    text.parse::<toml::Table>()
}

/// Looks `key` up with `toml::map::Map::get`: the value stored under the key
/// comes back, or nothing when the table has no such key.
#[verifier::external_body]
pub(crate) fn table_get<'a>(table: &'a toml::Table, key: &str) -> (found: Option<&'a toml::Value>)
    ensures
        match found {
            Some(value) => table_items(*table).contains_key(key@) && table_items(*table)[key@]
                == value_item(*value),
            None => !table_items(*table).contains_key(key@),
        },
{
    table.get(key)
}

/// Asks `toml::Value::as_array` for the members of an array: they come back
/// exactly when the value is an array.
#[verifier::external_body]
pub(crate) fn value_as_array(value: &toml::Value) -> (members: Option<&Vec<toml::Value>>)
    ensures
        match members {
            Some(values) => value_item(*value) == Item::Array(array_items(values@)),
            None => !(value_item(*value) is Array),
        },
{
    value.as_array()
}

/// Asks `toml::Value::as_integer` for an integer: it comes back exactly when
/// the value is an integer.
#[verifier::external_body]
pub(crate) fn value_as_integer(value: &toml::Value) -> (integer: Option<i64>)
    ensures
        match integer {
            Some(i) => value_item(*value) == Item::Integer(i),
            None => !(value_item(*value) is Integer),
        },
{
    value.as_integer()
}

/// Asks `toml::Value::as_float` for a float and hands its bits on: they come
/// back exactly when the value is a float.
#[verifier::external_body]
pub(crate) fn value_as_float_bits(value: &toml::Value) -> (bits: Option<u64>)
    ensures
        match bits {
            Some(b) => value_item(*value) == Item::Float(b),
            None => !(value_item(*value) is Float),
        },
{
    match value.as_float() {
        Some(float) => Some(float.to_bits()),
        None => None,
    }
}

} // verus!
