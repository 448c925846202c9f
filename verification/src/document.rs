//! TOML documents: what a table holds, and the calls into the TOML library
//! that build, read, write and parse one.

use vstd::prelude::*;
use vstd::string::*;
use crate::manifest::text_opt;
use crate::text::texts;

verus! {

/// What a TOML value holds. A float stands by its bits and a date by its
/// text, so that two values with the same node are the same value.
pub enum Node {
    Text(Seq<char>),
    Integer(i64),
    Float(u64),
    Flag(bool),
    Datetime(Seq<char>),
    List(Seq<Node>),
    Table(Map<Seq<char>, Node>),
}

/// `toml::map::Map`, the table of the TOML library; nothing is known of
/// what is inside one but through [`table_nodes`].
#[verifier::external_type_specification]
#[verifier::external_body]
#[verifier::reject_recursive_types(K)]
#[verifier::reject_recursive_types(V)]
pub struct ExTomlMap<K, V>(toml::map::Map<K, V>);

/// `toml::Value`, a value of the TOML library; nothing is known of what is
/// inside one but through [`value_node`].
#[verifier::external_type_specification]
#[verifier::external_body]
pub struct ExTomlValue(toml::Value);

/// `toml::de::Error`, with which the TOML library refuses a text.
#[verifier::external_type_specification]
#[verifier::external_body]
pub struct ExTomlParseError(toml::de::Error);

/// `toml::ser::Error`, with which the TOML library refuses to write.
#[verifier::external_type_specification]
#[verifier::external_body]
pub struct ExTomlWriteError(toml::ser::Error);

/// The contents of a table without keys.
pub open spec fn empty_table() -> Map<Seq<char>, Node> {
    Map::empty()
}

/// What a table of the TOML library holds: the node of each of its keys.
pub uninterp spec fn table_nodes(t: toml::Table) -> Map<Seq<char>, Node>;

/// What a value of the TOML library holds.
pub uninterp spec fn value_node(v: toml::Value) -> Node;

/// The text that `toml::to_string_pretty` writes for a table with these
/// contents, or `None` where it refuses them.
pub uninterp spec fn rendered(nodes: Map<Seq<char>, Node>) -> Option<Seq<char>>;

/// The contents of the table that `toml::from_str` reads from a text, or
/// `None` where the text is no TOML document.
pub uninterp spec fn parsed(text: Seq<char>) -> Option<Map<Seq<char>, Node>>;

/// Wraps `toml::map::Map::new`, which makes an empty table.
#[verifier::external_body]
pub(crate) fn table_new() -> (r: toml::Table)
    ensures
        table_nodes(r) == empty_table(),
{
    toml::Table::new()
}

/// Wraps `toml::map::Map::insert` with a `Value::String`: the table then
/// holds the text under `key`, in place of what it held there before.
#[verifier::external_body]
pub(crate) fn table_insert_text(t: &mut toml::Table, key: &str, text: &str)
    ensures
        table_nodes(*final(t)) == table_nodes(*old(t)).insert(key@, Node::Text(text@)),
{
    t.insert(key.to_string(), toml::Value::String(text.to_string()));
}

/// Wraps `toml::map::Map::insert` with a `Value::Integer`.
#[verifier::external_body]
pub(crate) fn table_insert_integer(t: &mut toml::Table, key: &str, number: i64)
    ensures
        table_nodes(*final(t)) == table_nodes(*old(t)).insert(key@, Node::Integer(number)),
{
    t.insert(key.to_string(), toml::Value::Integer(number));
}

/// Wraps `toml::map::Map::insert` with a `Value::Table`.
#[verifier::external_body]
pub(crate) fn table_insert_table(t: &mut toml::Table, key: &str, child: toml::Table)
    ensures
        table_nodes(*final(t)) == table_nodes(*old(t)).insert(
            key@,
            Node::Table(table_nodes(child)),
        ),
{
    t.insert(key.to_string(), toml::Value::Table(child));
}

/// The nodes of a list of values.
pub open spec fn value_nodes(values: Seq<toml::Value>) -> Seq<Node> {
    values.map_values(|v: toml::Value| value_node(v))
}

/// A value of the TOML library taken apart by one level.
pub enum Item {
    /// A string
    Text(String),
    /// An integer
    Integer(i64),
    /// A boolean
    Flag(bool),
    /// An array, with its values
    List(Vec<toml::Value>),
    /// A table
    Table(toml::Table),
    /// A float or a date
    Other,
}

/// The node of a value taken apart, as far as the parts tell it.
pub open spec fn item_matches(item: Item, node: Node) -> bool {
    match item {
        Item::Text(s) => node == Node::Text(s@),
        Item::Integer(i) => node == Node::Integer(i),
        Item::Flag(b) => node == Node::Flag(b),
        Item::List(values) => node == Node::List(value_nodes(values@)),
        Item::Table(t) => node == Node::Table(table_nodes(t)),
        Item::Other => node is Float || node is Datetime,
    }
}

/// Wraps `toml::map::Map::get`, which gives the value under `key` where the
/// table has one; the value is handed out as a copy.
#[verifier::external_body]
pub(crate) fn table_get(t: &toml::Table, key: &str) -> (r: Option<toml::Value>)
    ensures
        r is Some == table_nodes(*t).contains_key(key@),
        r is Some ==> value_node(r->0) == table_nodes(*t)[key@],
{
    t.get(key).cloned()
}

/// Tells the variants of `toml::Value` apart and hands out what the
/// variant holds.
#[verifier::external_body]
pub(crate) fn take_apart(v: toml::Value) -> (r: Item)
    ensures
        item_matches(r, value_node(v)),
{
    match v {
        toml::Value::String(s) => Item::Text(s),
        toml::Value::Integer(i) => Item::Integer(i),
        toml::Value::Float(_) => Item::Other,
        toml::Value::Boolean(b) => Item::Flag(b),
        toml::Value::Datetime(_) => Item::Other,
        toml::Value::Array(values) => Item::List(values),
        toml::Value::Table(t) => Item::Table(t),
    }
}

/// Wraps `toml::map::Map::keys`, which walks the keys of the table, each
/// once.
#[verifier::external_body]
pub(crate) fn table_keys(t: &toml::Table) -> (r: Vec<String>)
    ensures
        texts(r@).no_duplicates(),
        texts(r@).to_set() == table_nodes(*t).dom(),
{
    t.keys().cloned().collect()
}

/// Wraps `toml::to_string_pretty` on a table. What it writes depends on
/// the contents of the table alone and is given the name [`rendered`].
#[verifier::external_body]
pub(crate) fn render(t: &toml::Table) -> (r: Result<String, toml::ser::Error>)
    ensures
        match r {
            Ok(text) => rendered(table_nodes(*t)) == Some(text@),
            Err(_) => rendered(table_nodes(*t)) is None,
        },
{
    toml::to_string_pretty(t)
}

/// Wraps `toml::from_str` for a table. What it reads depends on the text
/// alone and is given the name [`parsed`].
#[verifier::external_body]
pub(crate) fn parse(text: &str) -> (r: Result<toml::Table, toml::de::Error>)
    ensures
        match r {
            Ok(t) => parsed(text@) == Some(table_nodes(t)),
            Err(_) => parsed(text@) is None,
        },
{
    toml::from_str::<toml::Table>(text)
}

/// Wraps `toml::map::Map::insert` with a `Value::Boolean`.
#[verifier::external_body]
pub(crate) fn table_insert_flag(t: &mut toml::Table, key: &str, flag: bool)
    ensures
        table_nodes(*final(t)) == table_nodes(*old(t)).insert(key@, Node::Flag(flag)),
{
    t.insert(key.to_string(), toml::Value::Boolean(flag));
}

/// Wraps `toml::map::Map::insert` with a `Value::Array`.
#[verifier::external_body]
pub(crate) fn table_insert_list(t: &mut toml::Table, key: &str, values: Vec<toml::Value>)
    ensures
        table_nodes(*final(t)) == table_nodes(*old(t)).insert(
            key@,
            Node::List(value_nodes(values@)),
        ),
{
    t.insert(key.to_string(), toml::Value::Array(values));
}

/// Makes a `Value::String` of the TOML library.
#[verifier::external_body]
pub(crate) fn value_text(text: &str) -> (r: toml::Value)
    ensures
        value_node(r) == Node::Text(text@),
{
    toml::Value::String(text.to_string())
}

/// The string that a table holds under `key`, if it holds one there.
pub open spec fn text_node(nodes: Map<Seq<char>, Node>, key: Seq<char>) -> Option<Seq<char>> {
    if nodes.contains_key(key) {
        match nodes[key] {
            Node::Text(s) => Some(s),
            _ => None,
        }
    } else {
        None
    }
}

/// Whether a table holds a string under `key` or nothing at all.
pub open spec fn optional_text_fits(nodes: Map<Seq<char>, Node>, key: Seq<char>) -> bool {
    !nodes.contains_key(key) || nodes[key] is Text
}


/// The string that the table holds under `key`.
pub fn read_text(t: &toml::Table, key: &str) -> (r: Option<String>)
    ensures
        text_opt(r) == text_node(table_nodes(*t), key@),
{
    match table_get(t, key) {
        Some(v) => match take_apart(v) {
            Item::Text(s) => Some(s),
            _ => None,
        },
        None => None,
    }
}

/// The string that the table holds under `key` or the absence of the key;
/// `None` where the key holds something else.
pub fn read_optional_text(t: &toml::Table, key: &str) -> (r: Option<Option<String>>)
    ensures
        r is Some == optional_text_fits(table_nodes(*t), key@),
        r is Some ==> text_opt(r->0) == text_node(table_nodes(*t), key@),
{
    match table_get(t, key) {
        Some(v) => match take_apart(v) {
            Item::Text(s) => Some(Some(s)),
            _ => None,
        },
        None => Some(None),
    }
}

} // verus!
