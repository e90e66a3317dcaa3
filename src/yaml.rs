//! The YAML payload of a block, read through `serde_yaml`.

use crate::lines::opt_view;
use vstd::prelude::*;

verus! {

#[verifier::external_type_specification]
#[verifier::external_body]
pub struct ExYamlValue(serde_yaml::Value);

#[verifier::external_type_specification]
#[verifier::external_body]
pub struct ExYamlError(serde_yaml::Error);

/// Whether `doc` is accepted as one YAML document.
pub uninterp spec fn yaml_accepts(doc: Seq<char>) -> bool;

/// The string stored under `key` in the YAML document `doc`, if there is one.
pub uninterp spec fn yaml_str_at(doc: Seq<char>, key: Seq<char>) -> Option<Seq<char>>;

/// The unsigned integer stored under `key` in the YAML document `doc`, if there is one.
pub uninterp spec fn yaml_u64_at(doc: Seq<char>, key: Seq<char>) -> Option<u64>;

/// The sequence stored under `key` in the YAML document `doc`, if there is
/// one, with each item's string (`None` for an item that is not a string).
pub uninterp spec fn yaml_seq_at(doc: Seq<char>, key: Seq<char>) -> Option<Seq<Option<Seq<char>>>>;

/// A parsed YAML document together with the text it was parsed from.
pub struct YamlDoc {
    source: String,
    value: serde_yaml::Value,
}

impl View for YamlDoc {
    type V = Seq<char>;

    closed spec fn view(&self) -> Seq<char> {
        self.source@
    }
}

/// Relies on `serde_yaml::from_str::<serde_yaml::Value>`: parses `content` as
/// one YAML document, or fails with the parser's error.
#[verifier::external_body]
pub(crate) fn parse_yaml(content: &str) -> (r: Result<YamlDoc, serde_yaml::Error>)
    ensures
        r is Ok == yaml_accepts(content@),
        r is Ok ==> r->Ok_0@ == content@,
{
    match serde_yaml::from_str::<serde_yaml::Value>(content) {
        Ok(value) => Ok(YamlDoc { source: content.to_string(), value }),
        Err(e) => Err(e),
    }
}

/// Relies on `serde_yaml::Value::get` with a string key and
/// `Value::as_str`: the string under `key`.
#[verifier::external_body]
pub(crate) fn yaml_str(doc: &YamlDoc, key: &str) -> (r: Option<String>)
    ensures
        opt_view(r) == yaml_str_at(doc@, key@),
{
    doc.value.get(key).and_then(|v| v.as_str()).map(|s| s.to_string())
}

/// Relies on `serde_yaml::Value::get` with a string key and
/// `Value::as_u64`: the unsigned integer under `key`.
#[verifier::external_body]
pub(crate) fn yaml_u64(doc: &YamlDoc, key: &str) -> (r: Option<u64>)
    ensures
        r == yaml_u64_at(doc@, key@),
{
    doc.value.get(key).and_then(|v| v.as_u64())
}

pub open spec fn opt_strings(v: Seq<Option<String>>) -> Seq<Option<Seq<char>>> {
    v.map_values(|o: Option<String>| opt_view(o))
}

/// Relies on `serde_yaml::Value::get` with a string key,
/// `Value::as_sequence` and `Value::as_str`: the items of the sequence under
/// `key`, each as its string.
#[verifier::external_body]
pub(crate) fn yaml_seq(doc: &YamlDoc, key: &str) -> (r: Option<Vec<Option<String>>>)
    ensures
        match r {
            Some(v) => yaml_seq_at(doc@, key@) == Some(opt_strings(v@)),
            None => yaml_seq_at(doc@, key@) is None,
        },
{
    match doc.value.get(key).and_then(|v| v.as_sequence()) {
        Some(items) => {
            let mut out = Vec::new();
            for item in items {
                out.push(item.as_str().map(|s| s.to_string()));
            }
            Some(out)
        },
        None => None,
    }
}

#[verifier::external_type_specification]
#[verifier::external_body]
pub struct ExYamlNumber(serde_yaml::Number);

/// Whether the value under `key` in the YAML document `doc` is a number.
pub uninterp spec fn yaml_number_at(doc: Seq<char>, key: Seq<char>) -> bool;

/// Relies on `serde_yaml::Value::get` with a string key: the number under
/// `key`, if the value there is one.
#[verifier::external_body]
pub(crate) fn yaml_number(doc: &YamlDoc, key: &str) -> (r: Option<serde_yaml::Number>)
    ensures
        r is Some == yaml_number_at(doc@, key@),
{
    match doc.value.get(key) {
        Some(serde_yaml::Value::Number(n)) => Some(n.clone()),
        _ => None,
    }
}

/// For the sequence under `key` in the YAML document `doc`, if there is one,
/// the string under `field` in each item.
pub uninterp spec fn yaml_seq_field_at(doc: Seq<char>, key: Seq<char>, field: Seq<char>) -> Option<Seq<Option<Seq<char>>>>;

/// Relies on `serde_yaml::Value::get` with string keys, `Value::as_sequence`
/// and `Value::as_str`: the string under `field` in each item of the
/// sequence under `key`.
#[verifier::external_body]
pub(crate) fn yaml_seq_field(doc: &YamlDoc, key: &str, field: &str) -> (r: Option<Vec<Option<String>>>)
    ensures
        match r {
            Some(v) => yaml_seq_field_at(doc@, key@, field@) == Some(opt_strings(v@)),
            None => yaml_seq_field_at(doc@, key@, field@) is None,
        },
{
    match doc.value.get(key).and_then(|v| v.as_sequence()) {
        Some(items) => {
            let mut out = Vec::new();
            for item in items {
                out.push(item.get(field).and_then(|v| v.as_str()).map(|s| s.to_string()));
            }
            Some(out)
        },
        None => None,
    }
}

/// For the sequence under `key` in the YAML document `doc`, if there is one,
/// whether the value under `field` in each item is a number.
pub uninterp spec fn yaml_seq_number_at(doc: Seq<char>, key: Seq<char>, field: Seq<char>) -> Option<Seq<bool>>;

pub open spec fn present(v: Seq<Option<serde_yaml::Number>>) -> Seq<bool> {
    v.map_values(|o: Option<serde_yaml::Number>| o is Some)
}

/// Relies on `serde_yaml::Value::get` with string keys and
/// `Value::as_sequence`: the number under `field` in each item of the
/// sequence under `key`.
#[verifier::external_body]
pub(crate) fn yaml_seq_number(doc: &YamlDoc, key: &str, field: &str) -> (r: Option<Vec<Option<serde_yaml::Number>>>)
    ensures
        match r {
            Some(v) => yaml_seq_number_at(doc@, key@, field@) == Some(present(v@)),
            None => yaml_seq_number_at(doc@, key@, field@) is None,
        },
{
    match doc.value.get(key).and_then(|v| v.as_sequence()) {
        Some(items) => {
            let mut out = Vec::new();
            for item in items {
                out.push(match item.get(field) {
                    Some(serde_yaml::Value::Number(n)) => Some(n.clone()),
                    _ => None,
                });
            }
            Some(out)
        },
        None => None,
    }
}

/// Whether `text` reads as a YAML number.
pub uninterp spec fn number_parses(text: Seq<char>) -> bool;

/// Relies on `serde_yaml::Number: FromStr`: the number that `text` writes.
#[verifier::external_body]
pub(crate) fn parse_number(text: &str) -> (r: Option<serde_yaml::Number>)
    ensures
        r is Some == number_parses(text@),
{
    text.parse::<serde_yaml::Number>().ok()
}

} // verus!
