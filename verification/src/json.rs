//! A plain-value model of a JSON document, and navigation over it.
//!
//! The provider's payload is parsed by serde_json; the resulting document is
//! moved field by field into [`JsonValue`], whose contents the rest of the
//! library reads under full verification. A number is carried as the decimal
//! text that serde_json renders for the parsed value, so that the display
//! formatting downstream works on an exact decimal.

use vstd::prelude::*;

verus! {

/// A JSON document as plain values. A number holds its decimal text.
#[derive(Debug)]
pub enum JsonValue {
    Null,
    Bool(bool),
    Num(String),
    Text(String),
    List(Vec<JsonValue>),
    Dict(Vec<(String, JsonValue)>),
}

/// The value under the first entry of `entries` whose key reads `key`.
pub open spec fn dict_lookup(entries: Seq<(String, JsonValue)>, key: Seq<char>) -> Option<
    JsonValue,
>
    decreases entries.len(),
{
    if entries.len() == 0 {
        None
    } else if entries[0].0@ == key {
        Some(entries[0].1)
    } else {
        dict_lookup(entries.drop_first(), key)
    }
}

/// The member named `key` of an object, if `v` is an object holding one.
pub open spec fn member_of(v: JsonValue, key: Seq<char>) -> Option<JsonValue> {
    match v {
        JsonValue::Dict(entries) => dict_lookup(entries@, key),
        _ => None,
    }
}

/// The element at index `i`, if `v` is an array long enough.
pub open spec fn elem_of(v: JsonValue, i: int) -> Option<JsonValue> {
    match v {
        JsonValue::List(items) => if 0 <= i < items@.len() {
            Some(items@[i])
        } else {
            None
        },
        _ => None,
    }
}

/// Looks a member up, as `member_of` describes.
#[verifier::loop_isolation(false)]
pub fn get_member<'a>(v: &'a JsonValue, key: &str) -> (r: Option<&'a JsonValue>)
    ensures
        match r {
            Some(j) => member_of(*v, key@) == Some(*j),
            None => member_of(*v, key@) is None,
        },
{
    match v {
        JsonValue::Dict(entries) => {
            let key_string: String = key.to_owned();
            assert(entries@.skip(0) =~= entries@);
            let mut i: usize = 0;
            while i < entries.len()
                invariant
                    i <= entries@.len(),
                    key_string@ == key@,
                    dict_lookup(entries@, key@) == dict_lookup(
                        entries@.skip(i as int),
                        key@,
                    ),
                decreases entries@.len() - i,
            {
                assert(entries@.skip(i as int)[0] == entries@[i as int]);
                if entries[i].0.eq(&key_string) {
                    assert(dict_lookup(entries@.skip(i as int), key@) == Some(
                        entries@[i as int].1,
                    ));
                    assert(member_of(*v, key@) == dict_lookup(entries@, key@));
                    return Some(&entries[i].1);
                }
                assert(entries@.skip(i as int).drop_first() =~= entries@.skip(i + 1));
                i = i + 1;
            }
            assert(entries@.skip(entries@.len() as int).len() == 0);
            None
        },
        _ => None,
    }
}

/// Indexes an array, as `elem_of` describes.
pub fn get_element<'a>(v: &'a JsonValue, i: usize) -> (r: Option<&'a JsonValue>)
    ensures
        match r {
            Some(j) => elem_of(*v, i as int) == Some(*j),
            None => elem_of(*v, i as int) is None,
        },
{
    match v {
        JsonValue::List(items) => {
            if i < items.len() {
                Some(&items[i])
            } else {
                None
            }
        },
        _ => None,
    }
}

} // verus!

verus! {

/// serde_json's document type, declared so that the conversion below may
/// take it; the library never reads inside a value of it.
#[verifier::external_type_specification]
#[verifier::external_body]
pub struct ExSerdeValue(serde_json::Value);

/// The document that the text denotes under serde_json's JSON grammar,
/// moved into the library's model: `None` exactly on text that does not
/// parse. A function of the text alone.
pub uninterp spec fn json_document_of(text: Seq<char>) -> Option<JsonValue>;

/// Relies on `serde_json::from_str::<serde_json::Value>`: whether the text
/// parses, and what document it denotes, depend on the text alone.
#[verifier::external_body]
pub(crate) fn parse_json_document(text: &str) -> (r: Option<JsonValue>)
    ensures
        match r {
            Some(v) => json_document_of(text@) == Some(v),
            None => json_document_of(text@) is None,
        },
{
    serde_json::from_str::<serde_json::Value>(text).ok().map(value_into_model)
}

/// Relies on `serde_json::Value`'s public enum shape: each variant is moved,
/// one arm each, into the library's model; a number is carried as the decimal
/// text that `serde_json` renders for it. Called only by
/// `parse_json_document`.
#[verifier::external_body]
fn value_into_model(v: serde_json::Value) -> JsonValue {
    match v {
        serde_json::Value::Null => JsonValue::Null,
        serde_json::Value::Bool(b) => JsonValue::Bool(b),
        serde_json::Value::Number(n) => JsonValue::Num(n.to_string()),
        serde_json::Value::String(s) => JsonValue::Text(s),
        serde_json::Value::Array(items) => JsonValue::List(
            items.into_iter().map(value_into_model).collect(),
        ),
        serde_json::Value::Object(entries) => JsonValue::Dict(
            entries.into_iter().map(|(k, w)| (k, value_into_model(w))).collect(),
        ),
    }
}

} // verus!
