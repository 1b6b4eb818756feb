//! Where the configuration file lives, and the edits that save a theme
//! choice or add a custom theme to it while keeping the rest of the file.

use crate::error::{ConfigError, ConfigErrorView};
use crate::text::{chars_eq_ignore_ascii_case, chars_of, eq_ignoring_ascii_case};
use crate::config::display_from_root;
use crate::text::{ascii_lowercase, trimmed};
use crate::theme::{
    builtin_themes_spec, config_from_root, custom_theme, custom_themes, is_builtin, is_builtin_name, is_first_base,
    lemma_custom_themes_len, lemma_inserted_theme_loads, lemma_no_match, name_unused, theme_position, with_theme,
    lemma_hex_color_parses, parse_color_spec, saved_theme_of, valid_theme_name, validate_theme_name, ConfigView,
    TomlTable,
};
use crate::color::ThemeView;
use crate::toml::{
    document_model, item_as_str, item_as_table, key_prefix_of, lookup, parse_toml, parsed_key_prefix,
    parsed_toml, parsed_value_suffix, root_table, table_get, table_keys, table_model, table_prefix_of,
    table_suffix_of, toml_error_text, value_suffix_of, TomlModel,
};
use crate::paths::path_bytes;
use std::path::PathBuf;
use toml_edit::{DocumentMut, Item, Table};
use vstd::prelude::*;

verus! {

/// Whether `Path::is_absolute` holds of the path with these bytes.
pub uninterp spec fn path_absolute(path: Seq<u8>) -> bool;

/// The bytes of the path that `Path::join` gives for `base` and `tail`.
pub uninterp spec fn path_joined(base: Seq<u8>, tail: Seq<char>) -> Seq<u8>;

/// The bytes of the path that `Path::with_file_name` gives for `path` and `name`.
pub uninterp spec fn path_with_file_name(path: Seq<u8>, name: Seq<char>) -> Seq<u8>;

/// Calls `Path::is_absolute`. Claimed: the result is what `path_absolute`
/// names.
#[verifier::external_body]
pub(crate) fn is_absolute_path(path: &PathBuf) -> (absolute: bool)
    ensures
        absolute == path_absolute(path_bytes(*path)),
{
    path.is_absolute()
}

/// Calls `Path::join`. Claimed: the result is what `path_joined` names.
#[verifier::external_body]
pub(crate) fn join_path(base: &PathBuf, tail: &str) -> (joined: PathBuf)
    ensures
        path_bytes(joined) == path_joined(path_bytes(*base), tail@),
{
    base.join(tail)
}

/// Calls `Path::with_file_name`. Claimed: the result is what
/// `path_with_file_name` names.
#[verifier::external_body]
pub(crate) fn with_file_name(path: &PathBuf, name: &str) -> (replaced: PathBuf)
    ensures
        path_bytes(replaced) == path_with_file_name(path_bytes(*path), name@),
{
    path.with_file_name(name)
}

/// The configuration file under `HOME`, or why there is none.
pub open spec fn path_under_home(home: Option<PathBuf>, path: Result<PathBuf, ConfigError>) -> bool {
    match home {
        Some(h) => path matches Ok(p) && path_bytes(p) == path_joined(path_bytes(h), ".config/de/config.toml"@),
        None => path matches Err(e) && e@ == ConfigErrorView::NoConfigDirectory,
    }
}

/// The configuration file: under `XDG_CONFIG_HOME` when that is an
/// absolute path, else under `HOME`'s `.config`.
pub fn theme_config_path(xdg_config_home: Option<PathBuf>, home: Option<PathBuf>) -> (path: Result<
    PathBuf,
    ConfigError,
>)
    ensures
        match xdg_config_home {
            Some(x) => if path_absolute(path_bytes(x)) {
                path matches Ok(p) && path_bytes(p) == path_joined(path_bytes(x), "de/config.toml"@)
            } else {
                path_under_home(home, path)
            },
            None => path_under_home(home, path),
        },
{
    if let Some(x) = &xdg_config_home {
        if is_absolute_path(x) {
            return Ok(join_path(x, "de/config.toml"));
        }
    }
    match &home {
        Some(h) => Ok(join_path(h, ".config/de/config.toml")),
        None => Err(ConfigError::NoConfigDirectory),
    }
}

/// The legacy saved-theme file beside the configuration file.
pub fn legacy_theme_path(config_path: &PathBuf) -> (path: PathBuf)
    ensures
        path_bytes(path) == path_with_file_name(path_bytes(*config_path), "theme"@),
{
    with_file_name(config_path, "theme")
}

/// Every key other than `key` looks up the same item in both tables.
pub open spec fn same_except(old: TomlTable, new: TomlTable, key: Seq<char>) -> bool {
    forall|k: Seq<char>| k != key ==> #[trigger] lookup(new, k) == lookup(old, k)
}

/// Calls `DocumentMut::new`: an empty document.
#[verifier::external_body]
pub(crate) fn new_document() -> (document: DocumentMut)
    ensures
        document_model(document) == Seq::<(Seq<char>, TomlModel)>::empty(),
{
    DocumentMut::new()
}

/// Calls `Table::new`: an empty table.
#[verifier::external_body]
pub(crate) fn new_table() -> (table: Table)
    ensures
        table_model(table) == Seq::<(Seq<char>, TomlModel)>::empty(),
{
    Table::new()
}

/// Calls `Table::set_implicit`, which only changes how the table is written.
#[verifier::external_body]
pub(crate) fn set_implicit(table: &mut Table, implicit: bool)
    ensures
        table_model(*final(table)) == table_model(*old(table)),
{
    table.set_implicit(implicit)
}

/// Calls `Table::insert` with a string value.
#[verifier::external_body]
pub(crate) fn table_set_str(table: &mut Table, key: &str, value: &str)
    ensures
        lookup(table_model(*final(table)), key@) == Some(TomlModel::Str(value@)),
        same_except(table_model(*old(table)), table_model(*final(table)), key@),
{
    table.insert(key, toml_edit::value(value));
}

/// Calls `Table::insert` with a boolean value.
#[verifier::external_body]
pub(crate) fn table_set_bool(table: &mut Table, key: &str, value: bool)
    ensures
        lookup(table_model(*final(table)), key@) == Some(TomlModel::Bool(value)),
        same_except(table_model(*old(table)), table_model(*final(table)), key@),
{
    table.insert(key, toml_edit::value(value));
}

/// Sets `document[key]` to `table`, through `DocumentMut`'s `IndexMut`.
#[verifier::external_body]
pub(crate) fn document_set_table(document: &mut DocumentMut, key: &str, table: Table)
    ensures
        lookup(document_model(*final(document)), key@) == Some(TomlModel::Table(table_model(table))),
        same_except(document_model(*old(document)), document_model(*final(document)), key@),
{
    document[key] = Item::Table(table);
}

/// Sets `document[outer][key]` to a string value, where `document[outer]`
/// is a table.
#[verifier::external_body]
pub(crate) fn document_set_nested_str(document: &mut DocumentMut, outer: &str, key: &str, value: &str)
    requires
        lookup(document_model(*old(document)), outer@) matches Some(TomlModel::Table(_)),
    ensures
        same_except(document_model(*old(document)), document_model(*final(document)), outer@),
        match (lookup(document_model(*old(document)), outer@), lookup(document_model(*final(document)), outer@)) {
            (Some(TomlModel::Table(before)), Some(TomlModel::Table(after))) => lookup(after, key@) == Some(
                TomlModel::Str(value@),
            ) && same_except(before, after, key@),
            _ => false,
        },
{
    document[outer][key] = toml_edit::value(value);
}

/// `new` is `old` with `item` stored under `key`: in place of the pair
/// that holds the key, or, where no pair does, as a new pair at some
/// position (a table keeps its keys in insertion order, and an entry
/// already reserved for the key keeps its place).
pub open spec fn stored(old: TomlTable, new: TomlTable, key: Seq<char>, item: TomlModel) -> bool {
    if exists|k: int| 0 <= k < old.len() && #[trigger] old[k].0 == key {
        exists|k: int|
            0 <= k < old.len() && #[trigger] old[k].0 == key && (forall|j: int| 0 <= j < k ==> #[trigger] old[j].0 != key)
                && new == old.update(k, (key, item))
    } else {
        exists|i: int| 0 <= i <= old.len() && new == old.insert(i, (key, item))
    }
}

/// Sets `document[outer][key]` to `table`, where `document[outer]` is a
/// table, through `IndexMut`: the entry for `key` is taken, or added, and
/// overwritten.
#[verifier::external_body]
pub(crate) fn document_set_nested_table(document: &mut DocumentMut, outer: &str, key: &str, table: Table)
    requires
        lookup(document_model(*old(document)), outer@) matches Some(TomlModel::Table(_)),
    ensures
        same_except(document_model(*old(document)), document_model(*final(document)), outer@),
        match (lookup(document_model(*old(document)), outer@), lookup(document_model(*final(document)), outer@)) {
            (Some(TomlModel::Table(before)), Some(TomlModel::Table(after))) => lookup(after, key@) == Some(
                TomlModel::Table(table_model(table)),
            ) && same_except(before, after, key@) && stored(before, after, key@, TomlModel::Table(table_model(table))),
            _ => false,
        },
{
    document[outer][key] = Item::Table(table);
}

/// Reads the text before the root key `key`: `Table::key`, the key's
/// `leaf_decor().prefix()`, and `RawString::as_str`. Claimed: the result is
/// what `key_prefix_of` names.
#[verifier::external_body]
pub(crate) fn key_prefix(document: &DocumentMut, key: &str) -> (prefix: Option<String>)
    ensures
        match prefix {
            Some(p) => key_prefix_of(*document, key@) == Some(p@),
            None => key_prefix_of(*document, key@) is None,
        },
{
    document.as_table().key(key).and_then(|k| k.leaf_decor().prefix()).and_then(|p| p.as_str()).map(|p| p.to_owned())
}

/// Reads the text after the value of the root key `key`: `DocumentMut::get`,
/// `Item::as_value`, the value's `decor().suffix()`, and `RawString::as_str`.
/// Claimed: the result is what `value_suffix_of` names.
#[verifier::external_body]
pub(crate) fn value_suffix(document: &DocumentMut, key: &str) -> (suffix: Option<String>)
    ensures
        match suffix {
            Some(s) => value_suffix_of(*document, key@) == Some(s@),
            None => value_suffix_of(*document, key@) is None,
        },
{
    document.get(key).and_then(Item::as_value).and_then(|v| v.decor().suffix()).and_then(|s| s.as_str()).map(|s| s.to_owned())
}

/// Clears the formatting around the root key `key` through `Table::key_mut`
/// and `Decor::clear`: the key keeps no text before it. Claimed: the keys
/// and items do not change, nor does the decor of the table under `key`.
#[verifier::external_body]
pub(crate) fn clear_key_decor(document: &mut DocumentMut, key: &str)
    ensures
        document_model(*final(document)) == document_model(*old(document)),
        key_prefix_of(*final(document), key@) is None,
        table_prefix_of(*final(document), key@) == table_prefix_of(*old(document), key@),
        table_suffix_of(*final(document), key@) == table_suffix_of(*old(document), key@),
{
    if let Some(mut k) = document.as_table_mut().key_mut(key) {
        k.leaf_decor_mut().clear();
    }
}

/// Sets the text before the header of the table under the root key `key`
/// through `Item::as_table_mut` and `Decor::set_prefix`. Claimed: the keys
/// and items do not change, nor does the other decor around `key`.
#[verifier::external_body]
pub(crate) fn set_table_prefix(document: &mut DocumentMut, key: &str, text: String)
    requires
        lookup(document_model(*old(document)), key@) matches Some(TomlModel::Table(_)),
    ensures
        document_model(*final(document)) == document_model(*old(document)),
        table_prefix_of(*final(document), key@) == Some(text@),
        table_suffix_of(*final(document), key@) == table_suffix_of(*old(document), key@),
        key_prefix_of(*final(document), key@) == key_prefix_of(*old(document), key@),
{
    if let Some(t) = document[key].as_table_mut() {
        t.decor_mut().set_prefix(text);
    }
}

/// Sets the text after the header of the table under the root key `key`
/// through `Item::as_table_mut` and `Decor::set_suffix`. Claimed: the keys
/// and items do not change, nor does the other decor around `key`.
#[verifier::external_body]
pub(crate) fn set_table_suffix(document: &mut DocumentMut, key: &str, text: String)
    requires
        lookup(document_model(*old(document)), key@) matches Some(TomlModel::Table(_)),
    ensures
        document_model(*final(document)) == document_model(*old(document)),
        table_suffix_of(*final(document), key@) == Some(text@),
        table_prefix_of(*final(document), key@) == table_prefix_of(*old(document), key@),
        key_prefix_of(*final(document), key@) == key_prefix_of(*old(document), key@),
{
    if let Some(t) = document[key].as_table_mut() {
        t.decor_mut().set_suffix(text);
    }
}

/// The document read from `existing`, or a new one where there is no file.
pub open spec fn starting_root(existing: Option<Seq<char>>) -> Option<TomlTable> {
    match existing {
        None => Some(Seq::empty()),
        Some(text) => parsed_toml(text),
    }
}

fn starting_document(existing: Option<&str>) -> (document: Result<DocumentMut, ConfigError>)
    ensures
        match starting_root(match existing { Some(t) => Some(t@), None => None }) {
            Some(root) => document matches Ok(d) && document_model(d) == root,
            None => document matches Err(ConfigError::InvalidToml(_)),
        },
        existing matches Some(t) ==> (document matches Ok(d) ==> key_prefix_of(d, "theme"@) == parsed_key_prefix(
            t@,
            "theme"@,
        ) && value_suffix_of(d, "theme"@) == parsed_value_suffix(t@, "theme"@)),
{
    match existing {
        None => Ok(new_document()),
        Some(text) => match parse_toml(text) {
            Ok(d) => Ok(d),
            Err(error) => Err(ConfigError::InvalidToml(toml_error_text(&error))),
        },
    }
}

/// `new` is `old` with `name` saved as the theme: `theme` becomes a table
/// whose `selected` is `name`, and nothing else changes (an existing
/// `[theme]` table keeps its other keys).
pub open spec fn theme_saved(old: TomlTable, new: TomlTable, name: Seq<char>) -> bool {
    &&& same_except(old, new, "theme"@)
    &&& lookup(new, "theme"@) matches Some(TomlModel::Table(t)) && lookup(t, "selected"@) == Some(
        TomlModel::Str(name),
    )
    &&& (lookup(old, "theme"@) matches Some(TomlModel::Table(before)) ==> (lookup(new, "theme"@) matches Some(
        TomlModel::Table(after),
    ) && same_except(before, after, "selected"@)))
}

/// Reading a configuration back after a theme is saved gives the saved
/// name, with the display preferences and the custom themes as they were;
/// a configuration that loaded before loads after, with the new choice.
pub proof fn lemma_saved_theme_reads_back(old: TomlTable, new: TomlTable, name: Seq<char>)
    requires
        theme_saved(old, new, name),
    ensures
        saved_theme_of(new) == Ok::<Option<Seq<char>>, ConfigErrorView>(Some(name)),
        display_from_root(new) == display_from_root(old),
        lookup(new, "themes"@) == lookup(old, "themes"@),
        config_from_root(old) matches Ok(c) ==> config_from_root(new) == Ok::<ConfigView, ConfigErrorView>(
            ConfigView { saved_theme: Some(name), ..c },
        ),
{
    reveal_strlit("theme");
    reveal_strlit("themes");
    reveal_strlit("display");
    assert("display"@.len() != "theme"@.len());
    assert("themes"@.len() != "theme"@.len());
    assert(lookup(new, "display"@) == lookup(old, "display"@));
    assert(lookup(new, "themes"@) == lookup(old, "themes"@));
}

/// A theme choice can be saved over what `theme` holds: nothing, a table,
/// or a legacy top-level string.
pub open spec fn theme_slot_usable(root: TomlTable) -> bool {
    match lookup(root, "theme"@) {
        None => true,
        Some(TomlModel::Table(_)) => true,
        Some(TomlModel::Str(_)) => true,
        Some(_) => false,
    }
}

/// When a legacy top-level `theme = "…"` line becomes a `[theme]` table,
/// its formatting moves with it: the text written before the key (such as a
/// comment line) goes before the table's header, the text after the value
/// (such as a trailing comment) goes after the header, and the key keeps
/// none.
pub open spec fn legacy_comments_moved(old: DocumentMut, new: DocumentMut) -> bool {
    &&& key_prefix_of(new, "theme"@) is None
    &&& (key_prefix_of(old, "theme"@) matches Some(p) ==> table_prefix_of(new, "theme"@) == Some(p))
    &&& (value_suffix_of(old, "theme"@) matches Some(s) ==> table_suffix_of(new, "theme"@) == Some(s))
}

/// Saves `name` as the chosen theme in a configuration document.
pub fn save_theme_in(document: &mut DocumentMut, name: &str) -> (saved: Result<(), ConfigError>)
    ensures
        theme_slot_usable(document_model(*old(document))) ==> saved is Ok && theme_saved(
            document_model(*old(document)),
            document_model(*final(document)),
            name@,
        ),
        !theme_slot_usable(document_model(*old(document))) ==> (saved matches Err(e) && e@
            == ConfigErrorView::ThemeNotTable) && document_model(*final(document)) == document_model(
            *old(document),
        ),
        lookup(document_model(*old(document)), "theme"@) matches Some(TomlModel::Str(_)) ==> legacy_comments_moved(
            *old(document),
            *final(document),
        ),
{
    proof {
        reveal_strlit("theme");
        reveal_strlit("selected");
        assert("theme"@.len() != "selected"@.len());
    }
    let root = root_table(document);
    let shape: u8 = match table_get(root, "theme") {
        None => 0,
        Some(item) => {
            if item_as_table(item).is_some() {
                1
            } else if item_as_str(item).is_some() {
                2
            } else {
                3
            }
        },
    };
    if shape == 3 {
        return Err(ConfigError::ThemeNotTable);
    }
    if shape == 1 {
        document_set_nested_str(document, "theme", "selected", name);
        return Ok(());
    }
    let prefix = key_prefix(document, "theme");
    let suffix = value_suffix(document, "theme");
    let mut theme = new_table();
    table_set_str(&mut theme, "selected", name);
    document_set_table(document, "theme", theme);
    if shape == 2 {
        clear_key_decor(document, "theme");
        if let Some(p) = prefix {
            set_table_prefix(document, "theme", p);
        }
        if let Some(s) = suffix {
            set_table_suffix(document, "theme", s);
        }
    }
    Ok(())
}

/// Saves `name` as the chosen theme: the name must be valid; the document
/// is `existing` parsed (a new one where there is no file) with the
/// choice saved. The caller writes the document back.
pub fn save_theme(name: &str, existing: Option<&str>) -> (saved: Result<DocumentMut, ConfigError>)
    ensures
        !valid_theme_name(name@) ==> (saved matches Err(e) && e@ == ConfigErrorView::InvalidThemeName),
        valid_theme_name(name@) ==> match starting_root(match existing { Some(t) => Some(t@), None => None }) {
            None => saved matches Err(ConfigError::InvalidToml(_)),
            Some(root) => if theme_slot_usable(root) {
                saved matches Ok(d) && theme_saved(root, document_model(d), name@)
            } else {
                saved matches Err(e) && e@ == ConfigErrorView::ThemeNotTable
            },
        },
        valid_theme_name(name@) ==> (existing matches Some(t) ==> (parsed_toml(t@) matches Some(root) ==> (lookup(
            root,
            "theme"@,
        ) matches Some(TomlModel::Str(_)) ==> (saved matches Ok(d) && key_prefix_of(d, "theme"@) is None && (
        parsed_key_prefix(t@, "theme"@) matches Some(p) ==> table_prefix_of(d, "theme"@) == Some(p)) && (
        parsed_value_suffix(t@, "theme"@) matches Some(c) ==> table_suffix_of(d, "theme"@) == Some(c)))))),
{
    validate_theme_name(name)?;
    let mut document = starting_document(existing)?;
    save_theme_in(&mut document, name)?;
    Ok(document)
}

/// The table holds the keys of a new custom theme with their starting
/// values: it extends `dark` and spells out every color and flag so that
/// the user can edit them.
pub open spec fn holds_scaffold(table: TomlTable) -> bool {
    &&& lookup(table, "extends"@) == Some(TomlModel::Str("dark"@))
    &&& lookup(table, "accent"@) == Some(TomlModel::Str("#7dd3fc"@))
    &&& lookup(table, "text"@) == Some(TomlModel::Str("default"@))
    &&& lookup(table, "muted"@) == Some(TomlModel::Str("#94a3b8"@))
    &&& lookup(table, "title"@) == Some(TomlModel::Str("#c4b5fd"@))
    &&& lookup(table, "error"@) == Some(TomlModel::Str("#fb7185"@))
    &&& lookup(table, "symlink"@) == Some(TomlModel::Str("#f0abfc"@))
    &&& lookup(table, "selection_fg"@) == Some(TomlModel::Str("#0f172a"@))
    &&& lookup(table, "selection_bg"@) == Some(TomlModel::Str("#67e8f9"@))
    &&& lookup(table, "reverse_selection"@) == Some(TomlModel::Bool(false))
    &&& lookup(table, "dim_muted"@) == Some(TomlModel::Bool(false))
}

fn scaffold_table() -> (table: Table)
    ensures
        holds_scaffold(table_model(table)),
{
    proof {
        reveal_strlit("extends");
        reveal_strlit("accent");
        reveal_strlit("text");
        reveal_strlit("muted");
        reveal_strlit("title");
        reveal_strlit("error");
        reveal_strlit("symlink");
        reveal_strlit("selection_fg");
        reveal_strlit("selection_bg");
        reveal_strlit("reverse_selection");
        reveal_strlit("dim_muted");
        assert("extends"@.len() != "accent"@.len());
        assert("extends"@.len() != "text"@.len());
        assert("extends"@.len() != "muted"@.len());
        assert("extends"@.len() != "title"@.len());
        assert("extends"@.len() != "error"@.len());
        assert("extends"@[0] != "symlink"@[0]);
        assert("extends"@.len() != "selection_fg"@.len());
        assert("extends"@.len() != "selection_bg"@.len());
        assert("extends"@.len() != "reverse_selection"@.len());
        assert("extends"@.len() != "dim_muted"@.len());
        assert("accent"@.len() != "text"@.len());
        assert("accent"@.len() != "muted"@.len());
        assert("accent"@.len() != "title"@.len());
        assert("accent"@.len() != "error"@.len());
        assert("accent"@.len() != "symlink"@.len());
        assert("accent"@.len() != "selection_fg"@.len());
        assert("accent"@.len() != "selection_bg"@.len());
        assert("accent"@.len() != "reverse_selection"@.len());
        assert("accent"@.len() != "dim_muted"@.len());
        assert("text"@.len() != "muted"@.len());
        assert("text"@.len() != "title"@.len());
        assert("text"@.len() != "error"@.len());
        assert("text"@.len() != "symlink"@.len());
        assert("text"@.len() != "selection_fg"@.len());
        assert("text"@.len() != "selection_bg"@.len());
        assert("text"@.len() != "reverse_selection"@.len());
        assert("text"@.len() != "dim_muted"@.len());
        assert("muted"@[0] != "title"@[0]);
        assert("muted"@[0] != "error"@[0]);
        assert("muted"@.len() != "symlink"@.len());
        assert("muted"@.len() != "selection_fg"@.len());
        assert("muted"@.len() != "selection_bg"@.len());
        assert("muted"@.len() != "reverse_selection"@.len());
        assert("muted"@.len() != "dim_muted"@.len());
        assert("title"@[0] != "error"@[0]);
        assert("title"@.len() != "symlink"@.len());
        assert("title"@.len() != "selection_fg"@.len());
        assert("title"@.len() != "selection_bg"@.len());
        assert("title"@.len() != "reverse_selection"@.len());
        assert("title"@.len() != "dim_muted"@.len());
        assert("error"@.len() != "symlink"@.len());
        assert("error"@.len() != "selection_fg"@.len());
        assert("error"@.len() != "selection_bg"@.len());
        assert("error"@.len() != "reverse_selection"@.len());
        assert("error"@.len() != "dim_muted"@.len());
        assert("symlink"@.len() != "selection_fg"@.len());
        assert("symlink"@.len() != "selection_bg"@.len());
        assert("symlink"@.len() != "reverse_selection"@.len());
        assert("symlink"@.len() != "dim_muted"@.len());
        assert("selection_fg"@[10] != "selection_bg"@[10]);
        assert("selection_fg"@.len() != "reverse_selection"@.len());
        assert("selection_fg"@.len() != "dim_muted"@.len());
        assert("selection_bg"@.len() != "reverse_selection"@.len());
        assert("selection_bg"@.len() != "dim_muted"@.len());
        assert("reverse_selection"@.len() != "dim_muted"@.len());
    }
    let mut custom = new_table();
    table_set_str(&mut custom, "extends", "dark");
    table_set_str(&mut custom, "accent", "#7dd3fc");
    table_set_str(&mut custom, "text", "default");
    table_set_str(&mut custom, "muted", "#94a3b8");
    table_set_str(&mut custom, "title", "#c4b5fd");
    table_set_str(&mut custom, "error", "#fb7185");
    table_set_str(&mut custom, "symlink", "#f0abfc");
    table_set_str(&mut custom, "selection_fg", "#0f172a");
    table_set_str(&mut custom, "selection_bg", "#67e8f9");
    table_set_bool(&mut custom, "reverse_selection", false);
    table_set_bool(&mut custom, "dim_muted", false);
    custom
}

/// The scaffold of a new custom theme loads: every color it spells out
/// parses, and it extends the built-in `dark`, so it reads as a theme in
/// any catalog that starts with the built-in themes.
pub proof fn lemma_scaffold_loads(name: Seq<char>, table: TomlTable, themes: Seq<ThemeView>)
    requires
        holds_scaffold(table),
        themes.len() >= 8,
        forall|i: int| 0 <= i < 8 ==> themes[i] == #[trigger] builtin_themes_spec()[i],
    ensures
        custom_theme(name, table, themes) is Ok,
{
    reveal(crate::theme::custom_palette);
    reveal_strlit("dark");
    reveal_strlit("auto");
    reveal_strlit("light");
    reveal_strlit("default");
    reveal_strlit("#7dd3fc");
    reveal_strlit("#94a3b8");
    reveal_strlit("#c4b5fd");
    reveal_strlit("#fb7185");
    reveal_strlit("#f0abfc");
    reveal_strlit("#0f172a");
    reveal_strlit("#67e8f9");
    lemma_hex_color_parses("#7dd3fc"@);
    lemma_hex_color_parses("#94a3b8"@);
    lemma_hex_color_parses("#c4b5fd"@);
    lemma_hex_color_parses("#fb7185"@);
    lemma_hex_color_parses("#f0abfc"@);
    lemma_hex_color_parses("#0f172a"@);
    lemma_hex_color_parses("#67e8f9"@);
    let d = "default"@;
    assert(trimmed(d) == d);
    assert(ascii_lowercase(d) =~= d);
    assert(parse_color_spec(d) is Some);
    let b = builtin_themes_spec();
    assert(themes[0] == b[0] && themes[1] == b[1] && themes[2] == b[2]);
    assert(eq_ignoring_ascii_case(themes[2].name, "dark"@));
    assert(is_builtin(themes[2].name));
    assert(themes[0].name == "auto"@);
    assert(crate::text::ascii_lower(themes[0].name[0]) != crate::text::ascii_lower("dark"@[0]));
    assert(!eq_ignoring_ascii_case(themes[0].name, "dark"@));
    assert(is_first_base(themes, "dark"@, 2));
}

/// Some key of the table equals `name`, ASCII case aside.
pub open spec fn has_theme_key(table: TomlTable, name: Seq<char>) -> bool {
    exists|i: int| 0 <= i < table.len() && eq_ignoring_ascii_case(#[trigger] table[i].0, name)
}

/// Why a custom theme cannot be added to a document with this root, if it cannot.
pub open spec fn custom_theme_refusal(root: TomlTable, name: Seq<char>) -> Option<ConfigErrorView> {
    match lookup(root, "themes"@) {
        None => None,
        Some(TomlModel::Table(t)) => if has_theme_key(t, name) {
            Some(ConfigErrorView::ThemeExists(name))
        } else {
            None
        },
        Some(_) => Some(ConfigErrorView::ThemesNotTable),
    }
}

/// The `[themes]` table of a root, empty where there is none.
pub open spec fn themes_table_of(root: TomlTable) -> TomlTable {
    match lookup(root, "themes"@) {
        Some(TomlModel::Table(t)) => t,
        _ => Seq::empty(),
    }
}

/// `new` is `old` with a custom theme `name` scaffolded under `[themes]`:
/// the `[themes]` table gains the pair for `name` at some position and
/// nothing else changes.
pub open spec fn theme_scaffolded(old: TomlTable, new: TomlTable, name: Seq<char>) -> bool {
    &&& same_except(old, new, "themes"@)
    &&& lookup(new, "themes"@) matches Some(TomlModel::Table(after)) && exists|i: int, theme: TomlTable|
        0 <= i <= themes_table_of(old).len() && holds_scaffold(theme) && after == themes_table_of(old).insert(
            i,
            (name, TomlModel::Table(theme)),
        )
}

/// A scaffolded custom theme loads. Where the configuration loaded before,
/// it loads after with the same display preferences and saved theme, and
/// its catalog is the one before with the new theme among the custom
/// themes, where its table stands; the theme is found by its name.
pub proof fn lemma_scaffolded_theme_loads(old: TomlTable, new: TomlTable, name: Seq<char>)
    requires
        theme_scaffolded(old, new, name),
        valid_theme_name(name),
        !is_builtin(name),
        custom_theme_refusal(old, name) is None,
    ensures
        config_from_root(old) matches Ok(c) ==> config_from_root(new) matches Ok(d) && d.display == c.display
            && d.saved_theme == c.saved_theme && exists|p: int|
            8 <= p < d.themes.len() && d.themes[p].name == name && #[trigger] c.themes.insert(p, d.themes[p])
                == d.themes,
        config_from_root(old) matches Ok(c) ==> config_from_root(new) matches Ok(d) && theme_position(d.themes, name)
            is Some,
{
    reveal_strlit("theme");
    reveal_strlit("themes");
    reveal_strlit("display");
    assert("display"@.len() != "themes"@.len());
    assert("theme"@.len() != "themes"@.len());
    assert(lookup(new, "display"@) == lookup(old, "display"@));
    assert(lookup(new, "theme"@) == lookup(old, "theme"@));
    let before = themes_table_of(old);
    let after = match lookup(new, "themes"@) {
        Some(TomlModel::Table(a)) => a,
        _ => Seq::empty(),
    };
    let (i, table) = choose|i: int, theme: TomlTable|
        0 <= i <= before.len() && holds_scaffold(theme) && after == before.insert(i, (name, TomlModel::Table(theme)));
    let b = builtin_themes_spec();
    lemma_scaffold_loads(name, table, b);
    let theme = match custom_theme(name, table, b) {
        Ok(t) => t,
        Err(_) => arbitrary(),
    };
    assert forall|k: int| 0 <= k < before.len() implies !eq_ignoring_ascii_case(#[trigger] before[k].0, name) by {
        if eq_ignoring_ascii_case(before[k].0, name) {
            assert(has_theme_key(before, name));
        }
    }
    lemma_inserted_theme_loads(before, i, name, table, theme);
    lemma_custom_themes_len(before, 0, b);
    if lookup(old, "themes"@) is None {
        assert(custom_themes(before, 0, b) == Ok::<Seq<ThemeView>, ConfigErrorView>(b));
    }
    if let Ok(c) = config_from_root(old) {
        let d = config_from_root(new)->Ok_0;
        let p = 8 + i;
        assert(c.themes.insert(p, theme) == d.themes);
        assert(d.themes[p] == theme);
        assert(eq_ignoring_ascii_case(d.themes[p].name, name));
        assert(!name_unused(d.themes, name));
        lemma_no_match(d.themes, name);
    }
}

fn has_key_ignoring_case(table: &Table, name: &str) -> (found: bool)
    ensures
        found == has_theme_key(table_model(*table), name@),
{
    let keys = table_keys(table);
    let wanted = chars_of(name);
    let mut i: usize = 0;
    while i < keys.len()
        invariant
            keys@.len() == table_model(*table).len(),
            forall|k: int| 0 <= k < keys@.len() ==> #[trigger] keys@[k]@ == table_model(*table)[k].0,
            wanted@ == name@,
            i <= keys@.len(),
            forall|j: int| 0 <= j < i ==> !eq_ignoring_ascii_case(#[trigger] table_model(*table)[j].0, name@),
        decreases keys@.len() - i,
    {
        if chars_eq_ignore_ascii_case(&chars_of(keys[i].as_str()), &wanted) {
            return true;
        }
        i += 1;
    }
    false
}

/// Adds the custom theme scaffold `name` under `[themes]`.
pub fn create_custom_theme_in(document: &mut DocumentMut, name: &str) -> (created: Result<(), ConfigError>)
    ensures
        match custom_theme_refusal(document_model(*old(document)), name@) {
            Some(e) => created matches Err(x) && x@ == e,
            None => created is Ok && theme_scaffolded(
                document_model(*old(document)),
                document_model(*final(document)),
                name@,
            ),
        },
{
    let root = root_table(document);
    let existing: u8 = match table_get(root, "themes") {
        None => 0,
        Some(item) => match item_as_table(item) {
            Some(themes) => if has_key_ignoring_case(themes, name) {
                2
            } else {
                1
            },
            None => 3,
        },
    };
    if existing == 3 {
        return Err(ConfigError::ThemesNotTable);
    }
    if existing == 2 {
        return Err(ConfigError::ThemeExists(name.to_owned()));
    }
    let ghost start = document_model(*document);
    let ghost before = themes_table_of(start);
    proof {
        assert forall|k: int| 0 <= k < before.len() implies #[trigger] before[k].0 != name@ by {
            if before[k].0 == name@ {
                assert(eq_ignoring_ascii_case(before[k].0, name@));
            }
        }
    }
    if existing == 0 {
        let mut themes = new_table();
        set_implicit(&mut themes, true);
        document_set_table(document, "themes", themes);
    }
    let ghost middle = document_model(*document);
    let scaffold = scaffold_table();
    let ghost theme = table_model(scaffold);
    document_set_nested_table(document, "themes", name, scaffold);
    proof {
        let end = document_model(*document);
        assert(lookup(middle, "themes"@) == Some(TomlModel::Table(before)));
        assert(same_except(start, end, "themes"@));
        if let Some(TomlModel::Table(after)) = lookup(end, "themes"@) {
            assert(stored(before, after, name@, TomlModel::Table(theme)));
            let i = choose|i: int| 0 <= i <= before.len() && after == before.insert(i, (name@, TomlModel::Table(theme)));
            assert(0 <= i <= themes_table_of(start).len() && holds_scaffold(theme) && after == themes_table_of(start).insert(
                i,
                (name@, TomlModel::Table(theme)),
            ));
        }
    }
    Ok(())
}

/// Adds a custom theme `name`: the name must be valid and not a built-in
/// theme's; the document is `existing` parsed (a new one where there is no
/// file) with the theme added. The caller writes the document back.
pub fn create_custom_theme(name: &str, existing: Option<&str>) -> (created: Result<DocumentMut, ConfigError>)
    ensures
        !valid_theme_name(name@) ==> (created matches Err(e) && e@ == ConfigErrorView::InvalidThemeName),
        valid_theme_name(name@) && is_builtin(name@) ==> (created matches Err(e) && e@
            == ConfigErrorView::BuiltinThemeName(name@)),
        valid_theme_name(name@) && !is_builtin(name@) ==> match starting_root(
            match existing {
                Some(t) => Some(t@),
                None => None,
            },
        ) {
            None => created matches Err(ConfigError::InvalidToml(_)),
            Some(root) => match custom_theme_refusal(root, name@) {
                Some(e) => created matches Err(x) && x@ == e,
                None => created matches Ok(d) && theme_scaffolded(root, document_model(d), name@),
            },
        },
{
    validate_theme_name(name)?;
    if is_builtin_name(name) {
        return Err(ConfigError::BuiltinThemeName(name.to_owned()));
    }
    let mut document = starting_document(existing)?;
    create_custom_theme_in(&mut document, name)?;
    Ok(document)
}

} // verus!
