//! What the library reads of a YAML value: the text entries of a mapping.

use vstd::prelude::*;

verus! {

/// `serde_yaml::Value`, held as it is: the library reads it only through
/// `yaml_str`.
#[verifier::external_type_specification]
#[verifier::external_body]
pub struct ExYamlValue(serde_yaml::Value);

/// The text entries of a YAML value: if the value is a mapping, each text key
/// whose entry is itself a text, with that text; of any other value, nothing.
pub uninterp spec fn yaml_strings(value: serde_yaml::Value) -> Map<Seq<char>, Seq<char>>;

/// The text entries of the value that a YAML text parses to, or `None` where
/// the text does not parse.
pub uninterp spec fn yaml_document(text: Seq<char>) -> Option<Map<Seq<char>, Seq<char>>>;

/// The entries of a value that holds none.
pub open spec fn no_entries() -> Map<Seq<char>, Seq<char>> {
    Map::empty()
}

/// The text entry under `key`, if the value has one.
///
/// Trusted: this is `value[key].as_str()` of serde_yaml. Indexing by a text
/// gives the entry of a mapping under that key and the null value in every
/// other case, and `as_str` gives a text for a text value alone; the contract
/// says that the result is the entry of `yaml_strings` under `key`.
#[verifier::external_body]
pub(crate) fn yaml_str(value: &serde_yaml::Value, key: &str) -> (out: Option<String>)
    ensures
        out is Some <==> yaml_strings(*value).contains_key(key@),
        out matches Some(s) ==> s@ == yaml_strings(*value)[key@],
{
    value[key].as_str().map(String::from)
}

/// Parses a YAML text.
///
/// Trusted: this is `serde_yaml::from_str` at `serde_yaml::Value`. What it
/// returns depends on the text alone; the contract names it `yaml_document`.
#[verifier::external_body]
pub(crate) fn parse_yaml(text: &str) -> (out: Option<serde_yaml::Value>)
    ensures
        out is Some <==> yaml_document(text@) is Some,
        out matches Some(v) ==> yaml_document(text@) == Some(yaml_strings(v)),
{
    serde_yaml::from_str::<serde_yaml::Value>(text).ok()
}

/// The null value.
///
/// Trusted: this is `serde_yaml::Value::default()`, which is the null value;
/// a null value has no entries.
#[verifier::external_body]
pub(crate) fn yaml_null() -> (out: serde_yaml::Value)
    ensures
        yaml_strings(out) == no_entries(),
{
    serde_yaml::Value::default()
}

} // verus!
