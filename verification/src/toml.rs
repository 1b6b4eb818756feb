//! TOML documents as `toml_edit` parses them, and what the configuration
//! reads of them.

use toml_edit::{DocumentMut, Item, Table, TomlError};
use vstd::prelude::*;

verus! {

#[verifier::external_type_specification]
#[verifier::external_body]
pub struct ExDocumentMut(DocumentMut);

#[verifier::external_type_specification]
#[verifier::external_body]
pub struct ExTable(Table);

#[verifier::external_type_specification]
#[verifier::external_body]
pub struct ExItem(Item);

#[verifier::external_type_specification]
#[verifier::external_body]
pub struct ExTomlError(TomlError);

/// What the configuration can read of a TOML item: a string, a boolean, a
/// table (its key/item pairs in document order), or anything else
/// (numbers, dates, arrays, inline tables, arrays of tables).
pub enum TomlModel {
    Str(Seq<char>),
    Bool(bool),
    Table(Seq<(Seq<char>, TomlModel)>),
    Other,
}

/// The key/item pairs of a table that `Table::iter` yields, in that order
/// (entries whose item is `Item::None` are skipped, as `iter` and `get` skip them).
pub uninterp spec fn table_model(t: Table) -> Seq<(Seq<char>, TomlModel)>;

/// What an item holds: `Str` for `Item::Value(Value::String)`, `Bool` for
/// `Item::Value(Value::Boolean)`, `Table` for `Item::Table`, `Other` for the rest.
pub uninterp spec fn item_model(i: Item) -> TomlModel;

/// The key/item pairs of a document's root table.
pub uninterp spec fn document_model(d: DocumentMut) -> Seq<(Seq<char>, TomlModel)>;

/// The root table of the document that `DocumentMut`'s `FromStr` parses
/// from `contents`, or `None` where it reports an error.
pub uninterp spec fn parsed_toml(contents: Seq<char>) -> Option<Seq<(Seq<char>, TomlModel)>>;

/// The text written before the root key `key` (the key's leading decor:
/// comments, blank lines and indentation), where the document holds it as
/// explicit text, as `Decor::prefix` and `RawString::as_str` give it.
pub uninterp spec fn key_prefix_of(d: DocumentMut, key: Seq<char>) -> Option<Seq<char>>;

/// The text written after the value of the root key `key` on its line (the
/// value's trailing decor, such as a comment), where it is explicit text.
pub uninterp spec fn value_suffix_of(d: DocumentMut, key: Seq<char>) -> Option<Seq<char>>;

/// The text written before the header of the table under the root key
/// `key` (the table's leading decor), where it is explicit text.
pub uninterp spec fn table_prefix_of(d: DocumentMut, key: Seq<char>) -> Option<Seq<char>>;

/// The text written after the header of the table under the root key `key`
/// (the table's trailing decor), where it is explicit text.
pub uninterp spec fn table_suffix_of(d: DocumentMut, key: Seq<char>) -> Option<Seq<char>>;

/// The text before the root key `key` in the document parsed from
/// `contents`.
pub uninterp spec fn parsed_key_prefix(contents: Seq<char>, key: Seq<char>) -> Option<Seq<char>>;

/// The text after the value of the root key `key` in the document parsed
/// from `contents`.
pub uninterp spec fn parsed_value_suffix(contents: Seq<char>, key: Seq<char>) -> Option<Seq<char>>;

/// The item stored under `key`: the first pair with that key.
pub open spec fn lookup(table: Seq<(Seq<char>, TomlModel)>, key: Seq<char>) -> Option<TomlModel>
    decreases table.len(),
{
    if table.len() == 0 {
        None
    } else if table[0].0 == key {
        Some(table[0].1)
    } else {
        lookup(table.drop_first(), key)
    }
}

/// Parses `contents` with `DocumentMut`'s `FromStr`. The result is a
/// function of the text alone; on success the document's root holds what
/// `parsed_toml` names, and the text around its root keys and values is
/// what `parsed_key_prefix` and `parsed_value_suffix` name.
#[verifier::external_body]
pub(crate) fn parse_toml(contents: &str) -> (parsed: Result<DocumentMut, TomlError>)
    ensures
        (parsed is Ok) == (parsed_toml(contents@) is Some),
        parsed matches Ok(d) ==> parsed_toml(contents@) == Some(document_model(d)),
        parsed matches Ok(d) ==> forall|k: Seq<char>|
            #![trigger key_prefix_of(d, k)]
            #![trigger value_suffix_of(d, k)]
            key_prefix_of(d, k) == parsed_key_prefix(contents@, k) && value_suffix_of(d, k)
                == parsed_value_suffix(contents@, k),
{
    contents.parse::<DocumentMut>()
}

/// Calls `DocumentMut::as_table`, which gives the root table.
#[verifier::external_body]
pub(crate) fn root_table(document: &DocumentMut) -> (root: &Table)
    ensures
        table_model(*root) == document_model(*document),
{
    document.as_table()
}

/// Calls `Table::get`: the item under `key`, unless it is `Item::None`.
#[verifier::external_body]
pub(crate) fn table_get<'a>(table: &'a Table, key: &str) -> (item: Option<&'a Item>)
    ensures
        match item {
            Some(i) => lookup(table_model(*table), key@) == Some(item_model(*i)),
            None => lookup(table_model(*table), key@) is None,
        },
{
    table.get(key)
}

/// Calls `Item::as_str`: the text of a string value.
#[verifier::external_body]
pub(crate) fn item_as_str(item: &Item) -> (text: Option<&str>)
    ensures
        match item_model(*item) {
            TomlModel::Str(s) => text matches Some(t) && t@ == s,
            _ => text is None,
        },
{
    item.as_str()
}

/// Calls `Item::as_bool`: the value of a boolean.
#[verifier::external_body]
pub(crate) fn item_as_bool(item: &Item) -> (value: Option<bool>)
    ensures
        match item_model(*item) {
            TomlModel::Bool(b) => value == Some(b),
            _ => value is None,
        },
{
    item.as_bool()
}

/// Calls `Item::as_table`: the table of an `Item::Table`.
#[verifier::external_body]
pub(crate) fn item_as_table(item: &Item) -> (table: Option<&Table>)
    ensures
        match item_model(*item) {
            TomlModel::Table(m) => table matches Some(t) && table_model(*t) == m,
            _ => table is None,
        },
{
    item.as_table()
}

/// The keys that `Table::iter` yields, in order.
#[verifier::external_body]
pub(crate) fn table_keys(table: &Table) -> (keys: Vec<String>)
    ensures
        keys@.len() == table_model(*table).len(),
        forall|k: int| 0 <= k < keys@.len() ==> #[trigger] keys@[k]@ == table_model(*table)[k].0,
{
    table.iter().map(|(key, _)| key.to_owned()).collect()
}

/// The text of a parse error, as `TomlError`'s `Display` writes it. Nothing
/// is claimed of the text: it describes where and why parsing failed.
#[verifier::external_body]
pub(crate) fn toml_error_text(error: &TomlError) -> (text: String) {
    format!("{error}")
}

} // verus!
