//! TOML documents as the `toml` crate holds them, and what this library
//! assumes of that crate.
//!
//! Verus sees nothing inside a `toml::Table` or a `toml::Value`. What such a
//! value holds is named by [`table_nodes`] and [`value_node`], as a tree of
//! [`Node`]s, and every function of this module states over these names what
//! the one call in its body does. None of these statements is proved.

use vstd::prelude::*;

verus! {

/// A TOML value, as far as a configuration is concerned: text, a table, or
/// anything else (a number, a boolean, a date, an array).
pub enum Node {
    Text(Seq<char>),
    Table(Map<Seq<char>, Node>),
    Other,
}

/// Whether a value is made of text and tables alone.
pub open spec fn plain(node: Node) -> bool
    decreases node,
{
    match node {
        Node::Text(_) => true,
        Node::Table(entries) => forall|key: Seq<char>|
            entries.contains_key(key) ==> plain(#[trigger] entries[key]),
        Node::Other => false,
    }
}

/// `toml::map::Map`, of which `toml::Table` is the instance with `String`
/// keys and `toml::Value` values.
#[verifier::external_type_specification]
#[verifier::external_body]
#[verifier::reject_recursive_types(K)]
#[verifier::reject_recursive_types(V)]
pub struct ExTomlMap<K, V>(toml::map::Map<K, V>);

/// `toml::Value`.
#[verifier::external_type_specification]
#[verifier::external_body]
pub struct ExTomlValue(toml::Value);

/// `toml::de::Error`, the error of parsing.
#[verifier::external_type_specification]
#[verifier::external_body]
pub struct ExTomlDeError(toml::de::Error);

/// `toml::ser::Error`, the error of rendering.
#[verifier::external_type_specification]
#[verifier::external_body]
pub struct ExTomlSerError(toml::ser::Error);

/// The entries of a table: each key with the value that stands at it.
pub uninterp spec fn table_nodes(table: toml::map::Map<String, toml::Value>) -> Map<Seq<char>, Node>;

/// What a value is: `Text` for `Value::String`, `Table` for `Value::Table`,
/// `Other` for every other variant.
pub uninterp spec fn value_node(value: toml::Value) -> Node;

/// The entries of the table that `toml::from_str` reads from a text, or
/// `None` where it reports an error.
pub uninterp spec fn toml_document(text: Seq<char>) -> Option<Map<Seq<char>, Node>>;

/// The text that `toml::to_string` writes for a table of text and tables
/// with the given entries, or `None` where it reports an error.
pub uninterp spec fn toml_text(entries: Map<Seq<char>, Node>) -> Option<Seq<char>>;

/// Calls `toml::from_str` to read a text as a TOML document. The result is
/// taken to depend on the text alone: a table whose entries are
/// `toml_document` of the text, or an error where that is `None`.
#[verifier::external_body]
pub(crate) fn parse_table(text: &str) -> (r: Result<
    toml::map::Map<String, toml::Value>,
    toml::de::Error,
>)
    ensures
        match r {
            Ok(table) => toml_document(text@) == Some(table_nodes(table)),
            Err(_) => toml_document(text@) is None,
        },
{
    toml::from_str::<toml::Table>(text)
}

/// Calls `toml::to_string` on a table. A table keeps its keys in sorted
/// order, so a table of text and tables is determined by its entries, and
/// the result is taken to depend on them alone: the text that `toml_text`
/// names, or an error where that is `None`.
#[verifier::external_body]
pub(crate) fn render_table(table: &toml::map::Map<String, toml::Value>) -> (r: Result<
    String,
    toml::ser::Error,
>)
    requires
        plain(Node::Table(table_nodes(*table))),
    ensures
        match r {
            Ok(text) => toml_text(table_nodes(*table)) == Some(text@),
            Err(_) => toml_text(table_nodes(*table)) is None,
        },
{
    toml::to_string(table)
}

/// Calls `Map::new`: a table without entries.
#[verifier::external_body]
pub(crate) fn table_new() -> (r: toml::map::Map<String, toml::Value>)
    ensures
        table_nodes(r) =~= Map::empty(),
{
    toml::map::Map::new()
}

/// Calls `Map::insert`: afterwards `value` stands at `key`, in place of what
/// stood there, and the other entries are as before.
#[verifier::external_body]
pub(crate) fn table_insert(
    table: &mut toml::map::Map<String, toml::Value>,
    key: String,
    value: toml::Value,
)
    ensures
        table_nodes(*final(table)) == table_nodes(*old(table)).insert(key@, value_node(value)),
{
    table.insert(key, value);
}

/// Calls `Map::get`: the value at `key`, or `None` where the table has no
/// such key.
#[verifier::external_body]
pub(crate) fn table_get<'a>(table: &'a toml::map::Map<String, toml::Value>, key: &str) -> (r:
    Option<&'a toml::Value>)
    ensures
        match r {
            Some(value) => table_nodes(*table).contains_key(key@) && table_nodes(*table)[key@]
                == value_node(*value),
            None => !table_nodes(*table).contains_key(key@),
        },
{
    table.get(key)
}

/// Calls `Map::keys` and collects what it yields: every key of the table,
/// each once. Nothing is said of their order.
#[verifier::external_body]
pub(crate) fn table_keys(table: &toml::map::Map<String, toml::Value>) -> (r: Vec<String>)
    ensures
        forall|i: int, j: int| 0 <= i < j < r@.len() ==> (#[trigger] r@[i])@ != (#[trigger] r@[j])@,
        forall|i: int| 0 <= i < r@.len() ==> table_nodes(*table).contains_key((#[trigger] r@[i])@),
        forall|key: Seq<char>| #[trigger]
            table_nodes(*table).contains_key(key) ==> exists|i: int|
                0 <= i < r@.len() && (#[trigger] r@[i])@ == key,
{
    table.keys().cloned().collect()
}

/// Calls `Value::as_str`: the text of a `Value::String`, `None` for every
/// other variant.
#[verifier::external_body]
pub(crate) fn value_as_str<'a>(value: &'a toml::Value) -> (r: Option<&'a str>)
    ensures
        match r {
            Some(text) => value_node(*value) == Node::Text(text@),
            None => !(value_node(*value) is Text),
        },
{
    value.as_str()
}

/// Calls `Value::as_table`: the table of a `Value::Table`, `None` for every
/// other variant.
#[verifier::external_body]
pub(crate) fn value_as_table<'a>(value: &'a toml::Value) -> (r: Option<
    &'a toml::map::Map<String, toml::Value>,
>)
    ensures
        match r {
            Some(table) => value_node(*value) == Node::Table(table_nodes(*table)),
            None => !(value_node(*value) is Table),
        },
{
    value.as_table()
}

/// Builds a `Value::String` around a text.
#[verifier::external_body]
pub(crate) fn value_of_text(text: String) -> (r: toml::Value)
    ensures
        value_node(r) == Node::Text(text@),
{
    toml::Value::String(text)
}

/// Builds a `Value::Table` around a table.
#[verifier::external_body]
pub(crate) fn value_of_table(table: toml::map::Map<String, toml::Value>) -> (r: toml::Value)
    ensures
        value_node(r) == Node::Table(table_nodes(table)),
{
    toml::Value::Table(table)
}

/// Formats a parse error as `toml` displays it. Nothing is claimed of the
/// wording.
#[verifier::external_body]
pub(crate) fn parse_error_text(error: &toml::de::Error) -> (r: String) {
    error.to_string()
}

/// Formats a rendering error as `toml` displays it. Nothing is claimed of the
/// wording.
#[verifier::external_body]
pub(crate) fn render_error_text(error: &toml::ser::Error) -> (r: String) {
    error.to_string()
}

} // verus!
