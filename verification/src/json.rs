//! What the core takes from `serde_json`: parsing a payload into a document
//! and reading the members of that document. Nothing in this file is proved;
//! each contract says what the named function of `serde_json` does.

use vstd::prelude::*;

verus! {

/// `serde_json::Value`, carried as an opaque document.
#[verifier::external_type_specification]
#[verifier::external_body]
pub struct ExJsonValue(serde_json::Value);

/// `serde_json::Error`, carried as an opaque error.
#[verifier::external_type_specification]
#[verifier::external_body]
pub struct ExJsonError(serde_json::Error);

/// The document that `serde_json::from_str` makes of `text`, `None` where it
/// reports an error.
pub uninterp spec fn json_document(text: Seq<char>) -> Option<serde_json::Value>;

/// The members of `doc` that `Value::as_i64` reads as an integer, by key.
/// Empty where `doc` is no object.
pub uninterp spec fn json_integers(doc: serde_json::Value) -> Map<Seq<char>, i64>;

/// The members of `doc` that `Value::as_str` reads as a string, by key.
/// Empty where `doc` is no object.
pub uninterp spec fn json_texts(doc: serde_json::Value) -> Map<Seq<char>, Seq<char>>;

/// The members of `doc` that `Value::as_bool` reads as a boolean, by key.
/// Empty where `doc` is no object.
pub uninterp spec fn json_flags(doc: serde_json::Value) -> Map<Seq<char>, bool>;

/// The members of `doc` that `Value::as_f64` reads as a number, by key, each
/// as the bit pattern of the `f64` it returns. Empty where `doc` is no object.
pub uninterp spec fn json_numbers(doc: serde_json::Value) -> Map<Seq<char>, u64>;

/// What a map holds under `key`, if anything.
pub open spec fn lookup<V>(members: Map<Seq<char>, V>, key: Seq<char>) -> Option<V> {
    if members.dom().contains(key) {
        Some(members[key])
    } else {
        None
    }
}

/// `serde_json::from_str` at type `Value`: the same text always gives the
/// same outcome, which `json_document` names.
#[verifier::external_body]
pub(crate) fn parse_document(text: &str) -> (parsed: Result<serde_json::Value, serde_json::Error>)
    ensures
        match parsed {
            Ok(doc) => json_document(text@) == Some(doc),
            Err(_) => json_document(text@) is None,
        },
{
    serde_json::from_str::<serde_json::Value>(text)
}

/// `doc[key].as_i64()`: the member under `key` where `doc` is an object that
/// has one and it is an integer that fits `i64`; `None` in every other case.
#[verifier::external_body]
pub(crate) fn integer_member(doc: &serde_json::Value, key: &str) -> (member: Option<i64>)
    ensures
        member == lookup(json_integers(*doc), key@),
{
    doc[key].as_i64()
}

/// `doc[key].as_str()`, copied: the member under `key` where `doc` is an
/// object that has one and it is a string; `None` in every other case.
#[verifier::external_body]
pub(crate) fn text_member(doc: &serde_json::Value, key: &str) -> (member: Option<String>)
    ensures
        match member {
            Some(text) => lookup(json_texts(*doc), key@) == Some(text@),
            None => lookup(json_texts(*doc), key@) is None,
        },
{
    doc[key].as_str().map(|text| text.to_owned())
}

/// `doc[key].as_bool()`: the member under `key` where `doc` is an object that
/// has one and it is a boolean; `None` in every other case.
#[verifier::external_body]
pub(crate) fn flag_member(doc: &serde_json::Value, key: &str) -> (member: Option<bool>)
    ensures
        member == lookup(json_flags(*doc), key@),
{
    doc[key].as_bool()
}

/// `doc[key].as_f64()`, as bits: the member under `key` where `doc` is an
/// object that has one and it is a number; `None` in every other case.
#[verifier::external_body]
pub(crate) fn number_member(doc: &serde_json::Value, key: &str) -> (member: Option<u64>)
    ensures
        member == lookup(json_numbers(*doc), key@),
{
    doc[key].as_f64().map(|number| number.to_bits())
}

} // verus!
