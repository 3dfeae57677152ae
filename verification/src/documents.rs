//! What the structured manifests hold, read with the `regex`, `toml` and
//! `serde_yaml` crates and handed on as plain texts.
use vstd::prelude::*;
use crate::model::text_of;

verus! {

/// An entry of a table: its key, and its value where the value is a text.
#[derive(Debug)]
pub struct TableEntry {
    pub key: String,
    pub text: Option<String>,
}

/// What a `TableEntry` stands for.
pub struct TableEntryView {
    pub key: Seq<char>,
    pub text: Option<Seq<char>>,
}

impl View for TableEntry {
    type V = TableEntryView;

    open spec fn view(&self) -> TableEntryView {
        TableEntryView { key: self.key@, text: text_of(self.text) }
    }
}

/// The views of the entries of a table.
pub open spec fn table_view(entries: Seq<TableEntry>) -> Seq<TableEntryView> {
    Seq::new(entries.len(), |i: int| entries[i]@)
}

/// The views of the items of a list: each item's text, where it is a text.
pub open spec fn items_view(items: Seq<Option<String>>) -> Seq<Option<Seq<char>>> {
    Seq::new(items.len(), |i: int| text_of(items[i]))
}

/// What a search for a group gave, as plain texts.
pub open spec fn group_found(r: Result<Option<String>, String>) -> Result<Option<Seq<char>>, Seq<char>> {
    match r {
        Ok(group) => Ok(text_of(group)),
        Err(message) => Err(message@),
    }
}

/// What a search for a table gave, as plain texts.
pub open spec fn table_found(r: Result<Option<Vec<TableEntry>>, String>) -> Result<
    Option<Seq<TableEntryView>>,
    Seq<char>,
> {
    match r {
        Ok(Some(entries)) => Ok(Some(table_view(entries@))),
        Ok(None) => Ok(None),
        Err(message) => Err(message@),
    }
}

/// What a search for a list gave, as plain texts.
pub open spec fn items_found(r: Result<Option<Vec<Option<String>>>, String>) -> Result<
    Option<Seq<Option<Seq<char>>>>,
    Seq<char>,
> {
    match r {
        Ok(Some(items)) => Ok(Some(items_view(items@))),
        Ok(None) => Ok(None),
        Err(message) => Err(message@),
    }
}

/// What the first capture group holds in the leftmost match of `pattern` in
/// `text`, and nothing where no part of `text` matches or the group took no
/// part in the match. Where `pattern` is no regular expression, the result
/// is the message with which it is refused.
pub uninterp spec fn regex_first_group(pattern: Seq<char>, text: Seq<char>) -> Result<
    Option<Seq<char>>,
    Seq<char>,
>;

/// The entries, in the order in which the table hands them out, of the table
/// that the TOML document `text` holds under `key` at its top level, and
/// nothing where the document holds no table under `key`. Where `text` is
/// no TOML document, the result is the message with which it is refused.
pub uninterp spec fn toml_table(text: Seq<char>, key: Seq<char>) -> Result<
    Option<Seq<TableEntryView>>,
    Seq<char>,
>;

/// The items of the array that the TOML document `text` holds under `inner`
/// in what it holds under `outer` at its top level, and nothing where the
/// document holds no such array. Where `text` is no TOML document, the
/// result is the message with which it is refused.
pub uninterp spec fn toml_array(text: Seq<char>, outer: Seq<char>, inner: Seq<char>) -> Result<
    Option<Seq<Option<Seq<char>>>>,
    Seq<char>,
>;

/// The items of the sequence that the YAML document `text` holds under `key`
/// at its top level. The outer level is empty where `text` is no YAML
/// document, the inner one where the document holds no sequence under `key`.
pub uninterp spec fn yaml_sequence(text: Seq<char>, key: Seq<char>) -> Option<
    Option<Seq<Option<Seq<char>>>>,
>;

/// `Regex::new`, `Regex::captures` and `Captures::get(1)`: the text of the
/// first capture group in the leftmost match of `pattern` in `text`. A
/// pattern that `Regex::new` refuses gives the refusal as its `Display`
/// writes it.
#[verifier::external_body]
pub(crate) fn first_group(pattern: &str, text: &str) -> (r: Result<Option<String>, String>)
    ensures
        group_found(r) == regex_first_group(pattern@, text@),
{
    match regex::Regex::new(pattern) {
        Ok(expression) => Ok(
            match expression.captures(text) {
                Some(found) => match found.get(1) {
                    Some(group) => Some(group.as_str().to_string()),
                    None => None,
                },
                None => None,
            },
        ),
        Err(error) => Err(error.to_string()),
    }
}

/// `toml::from_str` into a `toml::Value`, then `Value::get` with `key`,
/// `Value::as_table` and the table's `iter`, each value being read with
/// `Value::as_str`. A text that `toml::from_str` refuses gives the refusal
/// as its `Display` writes it.
#[verifier::external_body]
pub(crate) fn table_under(content: &str, key: &str) -> (r: Result<Option<Vec<TableEntry>>, String>)
    ensures
        table_found(r) == toml_table(content@, key@),
{
    let document: toml::Value = toml::from_str(content).map_err(|error: toml::de::Error| error.to_string())?;
    Ok(
        document.get(key).and_then(|value| value.as_table()).map(
            |table|
                table.iter().map(
                    |(key, value)|
                        TableEntry { key: key.clone(), text: value.as_str().map(|text| text.to_string()) },
                ).collect(),
        ),
    )
}

/// `toml::from_str` into a `toml::Value`, then `Value::get` with `outer`,
/// `Value::get` with `inner` and `Value::as_array`, each item being read
/// with `Value::as_str`. A text that `toml::from_str` refuses gives the
/// refusal as its `Display` writes it.
#[verifier::external_body]
pub(crate) fn array_under(content: &str, outer: &str, inner: &str) -> (r: Result<
    Option<Vec<Option<String>>>,
    String,
>)
    ensures
        items_found(r) == toml_array(content@, outer@, inner@),
{
    let document: toml::Value = toml::from_str(content).map_err(|error: toml::de::Error| error.to_string())?;
    Ok(
        document.get(outer).and_then(|section| section.get(inner)).and_then(
            |value| value.as_array(),
        ).map(|items| items.iter().map(|item| item.as_str().map(|text| text.to_string())).collect()),
    )
}

/// `serde_yaml::from_str` into a `serde_yaml::Value`, then `Value::get` with
/// `key` and `Value::as_sequence`, each item being read with
/// `Value::as_str`.
#[verifier::external_body]
pub(crate) fn sequence_under(content: &str, key: &str) -> (r: Option<Option<Vec<Option<String>>>>)
    ensures
        r is Some <==> yaml_sequence(content@, key@) is Some,
        r matches Some(Some(items)) ==> yaml_sequence(content@, key@) == Some(Some(items_view(items@))),
        r matches Some(None) ==> yaml_sequence(content@, key@) == Some(None::<Seq<Option<Seq<char>>>>),
{
    match serde_yaml::from_str::<serde_yaml::Value>(content) {
        Ok(document) => Some(
            document.get(key).and_then(|value| value.as_sequence()).map(
                |items| items.iter().map(|item| item.as_str().map(|text| text.to_string())).collect(),
            ),
        ),
        Err(_) => None,
    }
}

} // verus!
