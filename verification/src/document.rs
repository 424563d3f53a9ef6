//! TOML documents, by way of the `toml` crate.
//!
//! A value of the crate is opaque to the verifier. What it holds is
//! modelled by [`Toml`], and each function of the crate that is called has
//! a contract over that model, taken on trust. Two things are not spelled
//! out, only named: which document a text is ([`toml_document`]) and how a
//! value is written out ([`toml_rendering`]). The model holds whatever the
//! written form depends on: two values with one model are written alike.

use crate::text::{optional_str, optional_text};
use vstd::prelude::*;
use vstd::string::*;

verus! {

#[verifier::external_type_specification]
#[verifier::external_body]
pub struct ExTomlValue(toml::Value);

/// What a TOML value holds. Strings, booleans, arrays and tables are told
/// apart. An integer, a float or a date is held as the text that the crate
/// writes for it, which is all that is ever asked of one.
pub enum Toml {
    Str(Seq<char>),
    Bool(bool),
    Array(Seq<Toml>),
    Table(Map<Seq<char>, Toml>),
    Other(Seq<char>),
}

/// What `value` holds.
pub uninterp spec fn toml_model(value: toml::Value) -> Toml;

/// What the `toml` crate reads from `text` taken as a document: the root
/// table, or `None` where `text` is not a document.
pub uninterp spec fn toml_document(text: Seq<char>) -> Option<Toml>;

/// A value written out in TOML syntax, as the `toml` crate displays it.
pub uninterp spec fn toml_rendering(node: Toml) -> Seq<char>;

/// What a table holds under `key`; `None` for what is no table and for a
/// table without the key.
pub open spec fn member_of(node: Toml, key: Seq<char>) -> Option<Toml> {
    match node {
        Toml::Table(entries) => if entries.contains_key(key) {
            Some(entries[key])
        } else {
            None
        },
        _ => None,
    }
}

/// The elements of an array; `None` for what is no array.
pub open spec fn items_of(node: Toml) -> Option<Seq<Toml>> {
    match node {
        Toml::Array(elements) => Some(elements),
        _ => None,
    }
}

/// The boolean that a value is; `None` for what is no boolean.
pub open spec fn flag_of(node: Toml) -> Option<bool> {
    match node {
        Toml::Bool(b) => Some(b),
        _ => None,
    }
}

/// The string that a value is; `None` for what is no string.
pub open spec fn text_of(node: Toml) -> Option<Seq<char>> {
    match node {
        Toml::Str(s) => Some(s),
        _ => None,
    }
}

/// The models of a sequence of values.
pub open spec fn toml_models(values: Seq<toml::Value>) -> Seq<Toml> {
    values.map_values(|v: toml::Value| toml_model(v))
}

/// The boolean under `key`, if there is one.
pub open spec fn flag_under(table: Toml, key: Seq<char>) -> Option<bool> {
    match member_of(table, key) {
        Some(value) => flag_of(value),
        None => None,
    }
}

/// The string under `key`, if there is one.
pub open spec fn text_under(table: Toml, key: Seq<char>) -> Option<Seq<char>> {
    match member_of(table, key) {
        Some(value) => text_of(value),
        None => None,
    }
}

/// Trusted: `<toml::Table as FromStr>::from_str`, which reads a whole
/// document. The contract names the outcome as a function of the text: a
/// text the crate rejects gives `None`, any other the root table.
#[verifier::external_body]
pub(crate) fn parse_document(text: &str) -> (root: Option<toml::Value>)
    ensures
        root matches Some(v) ==> toml_document(text@) == Some(toml_model(v)),
        root is None ==> toml_document(text@) is None,
{
    text.parse::<toml::Table>().ok().map(toml::Value::Table)
}

/// Trusted: `toml::Value::get` with a string index. It looks the key up
/// in a table and gives `None` for every other value.
#[verifier::external_body]
pub(crate) fn member<'a>(value: &'a toml::Value, key: &str) -> (found: Option<&'a toml::Value>)
    ensures
        found matches Some(v) ==> member_of(toml_model(*value), key@) == Some(toml_model(*v)),
        found is None ==> member_of(toml_model(*value), key@) is None,
{
    value.get(key)
}

/// Trusted: `toml::Value::as_array`. It gives the elements of an array and
/// `None` for every other value.
#[verifier::external_body]
pub(crate) fn items(value: &toml::Value) -> (list: Option<&Vec<toml::Value>>)
    ensures
        list matches Some(v) ==> items_of(toml_model(*value)) == Some(toml_models(v@)),
        list is None ==> items_of(toml_model(*value)) is None,
{
    value.as_array()
}

/// Trusted: `toml::Value::as_bool`. It gives the boolean that the value is
/// and `None` for every other value.
#[verifier::external_body]
pub(crate) fn flag(value: &toml::Value) -> (b: Option<bool>)
    ensures
        b == flag_of(toml_model(*value)),
{
    value.as_bool()
}

/// Trusted: `toml::Value::as_str`. It gives the string that the value is
/// and `None` for every other value.
#[verifier::external_body]
pub(crate) fn text<'a>(value: &'a toml::Value) -> (s: Option<&'a str>)
    ensures
        optional_str(s) == text_of(toml_model(*value)),
{
    value.as_str()
}

/// Trusted: `toml::Value`'s `Display`, through `to_string`. The contract
/// names the outcome as a function of what the value holds; for an integer,
/// a float or a date that is the text the model holds.
#[verifier::external_body]
pub(crate) fn render(value: &toml::Value) -> (shown: String)
    ensures
        shown@ == toml_rendering(toml_model(*value)),
        toml_model(*value) matches Toml::Other(written) ==> shown@ == written,
{
    value.to_string()
}

/// Trusted: `toml::Value::String`, the value that is a string. It holds the
/// string it was made from.
#[verifier::external_body]
pub(crate) fn string_value(text: &str) -> (value: toml::Value)
    ensures
        toml_model(value) == Toml::Str(text@),
{
    toml::Value::String(text.to_owned())
}

/// Reads the boolean under `key`.
pub(crate) fn read_flag(table: &toml::Value, key: &str) -> (b: Option<bool>)
    ensures
        b == flag_under(toml_model(*table), key@),
{
    match member(table, key) {
        Some(value) => flag(value),
        None => None,
    }
}

/// Reads the string under `key`.
pub(crate) fn read_text(table: &toml::Value, key: &str) -> (s: Option<String>)
    ensures
        optional_text(s) == text_under(toml_model(*table), key@),
{
    match member(table, key) {
        Some(value) => match text(value) {
            Some(t) => Some(t.to_owned()),
            None => None,
        },
        None => None,
    }
}

/// Writes `text` out as a TOML string, with quotes and escapes.
pub(crate) fn render_string(text: &str) -> (shown: String)
    ensures
        shown@ == toml_rendering(Toml::Str(text@)),
{
    let value = string_value(text);
    render(&value)
}

} // verus!
