//! The `[display]` preferences of the configuration file.

use chrono::format::{Item, StrftimeItems};
use crate::error::{ConfigError, ConfigErrorView};
use crate::text::{chars_of, is_control, is_control_char};
use crate::toml::{
    document_model, item_as_bool, item_as_str, item_as_table, lookup, root_table, table_get,
    table_model, TomlModel,
};
use toml_edit::{DocumentMut, Table};
use vstd::prelude::*;

verus! {

/// How dates are written.
#[derive(Debug, PartialEq, Eq)]
pub enum DateFormat {
    Iso,
    Us,
    European,
    Relative,
    Custom(String),
}

/// How dates are written, as plain values.
pub enum DateFormatView {
    Iso,
    Us,
    European,
    Relative,
    Custom(Seq<char>),
}

impl View for DateFormat {
    type V = DateFormatView;

    open spec fn view(&self) -> DateFormatView {
        match self {
            DateFormat::Iso => DateFormatView::Iso,
            DateFormat::Us => DateFormatView::Us,
            DateFormat::European => DateFormatView::European,
            DateFormat::Relative => DateFormatView::Relative,
            DateFormat::Custom(f) => DateFormatView::Custom(f@),
        }
    }
}

/// How times of day are written.
#[derive(Clone, Copy, Debug, PartialEq, Eq, Structural)]
pub enum TimeFormat {
    TwelveHour,
    TwentyFourHour,
}

/// Which clock times are shown in.
#[derive(Clone, Copy, Debug, PartialEq, Eq, Structural)]
pub enum Timezone {
    Local,
    Utc,
}

/// The display preferences.
#[derive(Debug, PartialEq, Eq)]
pub struct DisplaySettings {
    modified: bool,
    date_format: DateFormat,
    time_format: TimeFormat,
    timezone: Timezone,
}

/// The display preferences as plain values.
pub struct DisplayView {
    pub modified: bool,
    pub date_format: DateFormatView,
    pub time_format: TimeFormat,
    pub timezone: Timezone,
}

impl View for DisplaySettings {
    type V = DisplayView;

    closed spec fn view(&self) -> DisplayView {
        DisplayView {
            modified: self.modified,
            date_format: self.date_format@,
            time_format: self.time_format,
            timezone: self.timezone,
        }
    }
}

/// The preferences when the file sets none: modification times shown, ISO
/// dates, a 24-hour clock, local time.
pub open spec fn default_display() -> DisplayView {
    DisplayView {
        modified: true,
        date_format: DateFormatView::Iso,
        time_format: TimeFormat::TwentyFourHour,
        timezone: Timezone::Local,
    }
}

/// One item of a `strftime` format string, as chrono's `StrftimeItems` yields it.
#[derive(Debug)]
pub enum FormatItem {
    Literal(String),
    OwnedLiteral(String),
    Space(String),
    OwnedSpace(String),
    Numeric,
    Fixed,
    Error,
}

/// One item of a `strftime` format string, as plain values.
pub enum FormatItemView {
    Literal(Seq<char>),
    OwnedLiteral(Seq<char>),
    Space(Seq<char>),
    OwnedSpace(Seq<char>),
    Numeric,
    Fixed,
    Error,
}

impl View for FormatItem {
    type V = FormatItemView;

    open spec fn view(&self) -> FormatItemView {
        match self {
            FormatItem::Literal(s) => FormatItemView::Literal(s@),
            FormatItem::OwnedLiteral(s) => FormatItemView::OwnedLiteral(s@),
            FormatItem::Space(s) => FormatItemView::Space(s@),
            FormatItem::OwnedSpace(s) => FormatItemView::OwnedSpace(s@),
            FormatItem::Numeric => FormatItemView::Numeric,
            FormatItem::Fixed => FormatItemView::Fixed,
            FormatItem::Error => FormatItemView::Error,
        }
    }
}

/// The items that `chrono::format::StrftimeItems::new(format)` yields, in order.
pub uninterp spec fn strftime_items(format: Seq<char>) -> Seq<FormatItemView>;

/// Runs chrono's `StrftimeItems` over `format`. It parses the format string
/// alone, so the items are a function of it.
#[verifier::external_body]
pub(crate) fn format_items(format: &str) -> (items: Vec<FormatItem>)
    ensures
        items@.map_values(|i: FormatItem| i@) == strftime_items(format@),
{
    StrftimeItems::new(format).map(|item| match item {
        Item::Literal(s) => FormatItem::Literal(s.to_owned()),
        Item::OwnedLiteral(s) => FormatItem::OwnedLiteral(s.into()),
        Item::Space(s) => FormatItem::Space(s.to_owned()),
        Item::OwnedSpace(s) => FormatItem::OwnedSpace(s.into()),
        Item::Numeric(..) => FormatItem::Numeric,
        Item::Fixed(..) => FormatItem::Fixed,
        Item::Error => FormatItem::Error,
    }).collect()
}

/// Some character of `s` is a control character.
pub open spec fn has_control(s: Seq<char>) -> bool {
    exists|i: int| 0 <= i < s.len() && is_control_char(#[trigger] s[i])
}

/// An item that makes a custom format unusable: an error, or literal text
/// or space holding a control character.
pub open spec fn is_bad_item(item: FormatItemView) -> bool {
    match item {
        FormatItemView::Error => true,
        FormatItemView::Literal(s) => has_control(s),
        FormatItemView::Space(s) => has_control(s),
        _ => false,
    }
}

/// Why a custom date format is refused, if it is.
pub open spec fn custom_format_problem(format: Seq<char>) -> Option<ConfigErrorView> {
    if format.len() == 0 {
        Some(ConfigErrorView::EmptyCustomFormat)
    } else if exists|i: int| 0 <= i < strftime_items(format).len() && is_bad_item(#[trigger] strftime_items(format)[i]) {
        Some(ConfigErrorView::InvalidCustomFormat(format))
    } else {
        None
    }
}

fn has_control_chars(s: &str) -> (found: bool)
    ensures
        found == has_control(s@),
{
    let chars = chars_of(s);
    let mut i: usize = 0;
    while i < chars.len()
        invariant
            chars@ == s@,
            i <= chars@.len(),
            forall|j: int| 0 <= j < i ==> !is_control_char(#[trigger] chars@[j]),
        decreases chars@.len() - i,
    {
        if is_control(chars[i]) {
            return true;
        }
        i += 1;
    }
    false
}

/// Checks a custom date format: it must not be empty, and chrono must read
/// it without an error item or a control character in its literal text.
pub fn validate_custom_format(format: &str) -> (checked: Result<(), ConfigError>)
    ensures
        match custom_format_problem(format@) {
            Some(e) => checked matches Err(x) && x@ == e,
            None => checked is Ok,
        },
{
    let chars = chars_of(format);
    if chars.len() == 0 {
        return Err(ConfigError::EmptyCustomFormat);
    }
    let items = format_items(format);
    let ghost viewed = items@.map_values(|i: FormatItem| i@);
    let mut i: usize = 0;
    while i < items.len()
        invariant
            i <= items@.len(),
            format@.len() > 0,
            viewed == strftime_items(format@),
            viewed.len() == items@.len(),
            forall|j: int| 0 <= j < items@.len() ==> #[trigger] viewed[j] == items@[j]@,
            forall|j: int| 0 <= j < i ==> !is_bad_item(#[trigger] viewed[j]),
        decreases items@.len() - i,
    {
        let bad = match &items[i] {
            FormatItem::Error => true,
            FormatItem::Literal(s) => has_control_chars(s.as_str()),
            FormatItem::Space(s) => has_control_chars(s.as_str()),
            _ => false,
        };
        if bad {
            proof {
                assert(is_bad_item(viewed[i as int]));
                assert(is_bad_item(strftime_items(format@)[i as int]));
            }
            return Err(ConfigError::InvalidCustomFormat(format.to_owned()));
        }
        i += 1;
    }
    Ok(())
}

/// An optional string under `display`.
pub open spec fn display_string(table: Seq<(Seq<char>, TomlModel)>, key: Seq<char>) -> Result<Option<Seq<char>>, ConfigErrorView> {
    match lookup(table, key) {
        None => Ok(None),
        Some(TomlModel::Str(s)) => Ok(Some(s)),
        Some(_) => Err(ConfigErrorView::DisplayKeyNotString(key)),
    }
}

/// An optional boolean under `display`.
pub open spec fn display_bool(table: Seq<(Seq<char>, TomlModel)>, key: Seq<char>) -> Result<Option<bool>, ConfigErrorView> {
    match lookup(table, key) {
        None => Ok(None),
        Some(TomlModel::Bool(b)) => Ok(Some(b)),
        Some(_) => Err(ConfigErrorView::DisplayKeyNotBool(key)),
    }
}

/// The time format named by `value`.
pub open spec fn time_format_named(value: Seq<char>) -> Result<TimeFormat, ConfigErrorView> {
    if value == "12h"@ {
        Ok(TimeFormat::TwelveHour)
    } else if value == "24h"@ {
        Ok(TimeFormat::TwentyFourHour)
    } else {
        Err(ConfigErrorView::UnknownTimeFormat(value))
    }
}

/// The timezone named by `value`.
pub open spec fn timezone_named(value: Seq<char>) -> Result<Timezone, ConfigErrorView> {
    if value == "local"@ {
        Ok(Timezone::Local)
    } else if value == "utc"@ {
        Ok(Timezone::Utc)
    } else {
        Err(ConfigErrorView::UnknownTimezone(value))
    }
}

/// The date format named by `value`, with `custom_format` read for `custom`.
pub open spec fn date_format_named(table: Seq<(Seq<char>, TomlModel)>, value: Seq<char>) -> Result<DateFormatView, ConfigErrorView> {
    if value == "iso"@ {
        Ok(DateFormatView::Iso)
    } else if value == "us"@ {
        Ok(DateFormatView::Us)
    } else if value == "european"@ || value == "eu"@ {
        Ok(DateFormatView::European)
    } else if value == "relative"@ {
        Ok(DateFormatView::Relative)
    } else if value == "custom"@ {
        match display_string(table, "custom_format"@) {
            Err(e) => Err(e),
            Ok(None) => Err(ConfigErrorView::MissingCustomFormat),
            Ok(Some(f)) => match custom_format_problem(f) {
                Some(e) => Err(e),
                None => Ok(DateFormatView::Custom(f)),
            },
        }
    } else {
        Err(ConfigErrorView::UnknownDateFormat(value))
    }
}

/// The value, or `default` when absent.
pub open spec fn or_default<T>(value: Option<T>, default: T) -> T {
    match value {
        Some(v) => v,
        None => default,
    }
}

/// The preferences that a `[display]` table sets, checked in the order
/// `modified`, `time_format`, `timezone`, `date_format`.
pub open spec fn display_from_table(table: Seq<(Seq<char>, TomlModel)>) -> Result<DisplayView, ConfigErrorView> {
    match display_bool(table, "modified"@) {
        Err(e) => Err(e),
        Ok(modified) => match display_string(table, "time_format"@) {
            Err(e) => Err(e),
            Ok(tf) => match time_format_named(or_default(tf, "24h"@)) {
                Err(e) => Err(e),
                Ok(time_format) => match display_string(table, "timezone"@) {
                    Err(e) => Err(e),
                    Ok(tz) => match timezone_named(or_default(tz, "local"@)) {
                        Err(e) => Err(e),
                        Ok(timezone) => match display_string(table, "date_format"@) {
                            Err(e) => Err(e),
                            Ok(df) => match date_format_named(table, or_default(df, "iso"@)) {
                                Err(e) => Err(e),
                                Ok(date_format) => Ok(
                                    DisplayView {
                                        modified: or_default(modified, true),
                                        date_format,
                                        time_format,
                                        timezone,
                                    },
                                ),
                            },
                        },
                    },
                },
            },
        },
    }
}

/// `date_format` names the way dates are written: `iso` ISO dates, `us` US
/// dates, `european` and `eu` European dates, `relative` relative ones, each
/// a different format; a name that is none of these nor `custom` is refused
/// as an unknown date format. This holds of any `[display]` table whose
/// other keys are absent or valid.
pub proof fn lemma_date_format_names(table: Seq<(Seq<char>, TomlModel)>, v: Seq<char>)
    requires
        display_bool(table, "modified"@) is Ok,
        display_string(table, "time_format"@) matches Ok(tf) && time_format_named(or_default(tf, "24h"@)) is Ok,
        display_string(table, "timezone"@) matches Ok(tz) && timezone_named(or_default(tz, "local"@)) is Ok,
        lookup(table, "date_format"@) == Some(TomlModel::Str(v)),
    ensures
        v == "iso"@ ==> (display_from_table(table) matches Ok(d) && d.date_format == DateFormatView::Iso),
        v == "us"@ ==> (display_from_table(table) matches Ok(d) && d.date_format == DateFormatView::Us),
        v == "european"@ ==> (display_from_table(table) matches Ok(d) && d.date_format == DateFormatView::European),
        v == "eu"@ ==> (display_from_table(table) matches Ok(d) && d.date_format == DateFormatView::European),
        v == "relative"@ ==> (display_from_table(table) matches Ok(d) && d.date_format == DateFormatView::Relative),
        v != "iso"@ && v != "us"@ && v != "european"@ && v != "eu"@ && v != "relative"@ && v != "custom"@
            ==> display_from_table(table) == Err::<DisplayView, ConfigErrorView>(ConfigErrorView::UnknownDateFormat(v)),
{
    reveal_strlit("iso");
    reveal_strlit("us");
    reveal_strlit("european");
    reveal_strlit("eu");
    reveal_strlit("relative");
    reveal_strlit("custom");
    assert("us"@.len() != "iso"@.len());
    assert("european"@.len() != "iso"@.len() && "european"@.len() != "us"@.len() && "european"@.len() != "eu"@.len());
    assert("eu"@[0] != "us"@[0]);
    assert("relative"@[0] != "european"@[0] && "relative"@.len() != "iso"@.len() && "relative"@.len() != "us"@.len());
    if v == "iso"@ {
        assert(date_format_named(table, v) == Ok::<DateFormatView, ConfigErrorView>(DateFormatView::Iso));
    } else if v == "us"@ {
        assert(date_format_named(table, v) == Ok::<DateFormatView, ConfigErrorView>(DateFormatView::Us));
    } else if v == "european"@ || v == "eu"@ {
        assert(date_format_named(table, v) == Ok::<DateFormatView, ConfigErrorView>(DateFormatView::European));
    } else if v == "relative"@ {
        assert(v != "eu"@);
        assert(date_format_named(table, v) == Ok::<DateFormatView, ConfigErrorView>(DateFormatView::Relative));
    }
}

/// The preferences of a document's root table: the defaults without a
/// `display` entry, an error when it is not a table.
pub open spec fn display_from_root(root: Seq<(Seq<char>, TomlModel)>) -> Result<DisplayView, ConfigErrorView> {
    match lookup(root, "display"@) {
        None => Ok(default_display()),
        Some(TomlModel::Table(t)) => display_from_table(t),
        Some(_) => Err(ConfigErrorView::DisplayNotTable),
    }
}

/// A result as plain values.
pub open spec fn display_result(r: Result<DisplaySettings, ConfigError>) -> Result<DisplayView, ConfigErrorView> {
    match r {
        Ok(d) => Ok(d@),
        Err(e) => Err(e@),
    }
}

fn optional_string<'a>(table: &'a Table, key: &str) -> (value: Result<Option<&'a str>, ConfigError>)
    ensures
        match display_string(table_model(*table), key@) {
            Ok(Some(s)) => value matches Ok(Some(v)) && v@ == s,
            Ok(None) => value matches Ok(None),
            Err(e) => value matches Err(x) && x@ == e,
        },
{
    match table_get(table, key) {
        None => Ok(None),
        Some(item) => match item_as_str(item) {
            Some(s) => Ok(Some(s)),
            None => Err(ConfigError::DisplayKeyNotString(key.to_owned())),
        },
    }
}

fn optional_bool(table: &Table, key: &str) -> (value: Result<Option<bool>, ConfigError>)
    ensures
        match display_bool(table_model(*table), key@) {
            Ok(b) => value == Ok::<Option<bool>, ConfigError>(b),
            Err(e) => value matches Err(x) && x@ == e,
        },
{
    match table_get(table, key) {
        None => Ok(None),
        Some(item) => match item_as_bool(item) {
            Some(b) => Ok(Some(b)),
            None => Err(ConfigError::DisplayKeyNotBool(key.to_owned())),
        },
    }
}

impl DisplaySettings {
    /// The preferences when the file sets none.
    pub fn default_settings() -> (settings: DisplaySettings)
        ensures
            settings@ == default_display(),
    {
        DisplaySettings {
            modified: true,
            date_format: DateFormat::Iso,
            time_format: TimeFormat::TwentyFourHour,
            timezone: Timezone::Local,
        }
    }

    /// Reads the `[display]` table of a configuration document.
    pub fn from_document(document: &DocumentMut) -> (settings: Result<DisplaySettings, ConfigError>)
        ensures
            display_result(settings) == display_from_root(document_model(*document)),
    {
        let root = root_table(document);
        let item = match table_get(root, "display") {
            None => return Ok(Self::default_settings()),
            Some(item) => item,
        };
        match item_as_table(item) {
            None => Err(ConfigError::DisplayNotTable),
            Some(table) => Self::from_table(table),
        }
    }

    /// Reads a `[display]` table.
    pub fn from_table(table: &Table) -> (settings: Result<DisplaySettings, ConfigError>)
        ensures
            display_result(settings) == display_from_table(table_model(*table)),
    {
        proof {
            reveal_strlit("12h");
            reveal_strlit("24h");
            reveal_strlit("local");
            reveal_strlit("utc");
            reveal_strlit("iso");
            reveal_strlit("us");
            reveal_strlit("european");
            reveal_strlit("eu");
            reveal_strlit("relative");
            reveal_strlit("custom");
        }
        let modified = match optional_bool(table, "modified")? {
            Some(b) => b,
            None => true,
        };
        let time_value = match optional_string(table, "time_format")? {
            Some(v) => v,
            None => "24h",
        };
        let time_format = if crate::text::str_eq(time_value, "12h") {
            TimeFormat::TwelveHour
        } else if crate::text::str_eq(time_value, "24h") {
            TimeFormat::TwentyFourHour
        } else {
            return Err(ConfigError::UnknownTimeFormat(time_value.to_owned()));
        };
        let zone_value = match optional_string(table, "timezone")? {
            Some(v) => v,
            None => "local",
        };
        let timezone = if crate::text::str_eq(zone_value, "local") {
            Timezone::Local
        } else if crate::text::str_eq(zone_value, "utc") {
            Timezone::Utc
        } else {
            return Err(ConfigError::UnknownTimezone(zone_value.to_owned()));
        };
        let date_value = match optional_string(table, "date_format")? {
            Some(v) => v,
            None => "iso",
        };
        let date_format = if crate::text::str_eq(date_value, "iso") {
            DateFormat::Iso
        } else if crate::text::str_eq(date_value, "us") {
            DateFormat::Us
        } else if crate::text::str_eq(date_value, "european") || crate::text::str_eq(date_value, "eu") {
            DateFormat::European
        } else if crate::text::str_eq(date_value, "relative") {
            DateFormat::Relative
        } else if crate::text::str_eq(date_value, "custom") {
            let format = match optional_string(table, "custom_format")? {
                Some(f) => f,
                None => return Err(ConfigError::MissingCustomFormat),
            };
            validate_custom_format(format)?;
            DateFormat::Custom(format.to_owned())
        } else {
            return Err(ConfigError::UnknownDateFormat(date_value.to_owned()));
        };
        Ok(DisplaySettings { modified, date_format, time_format, timezone })
    }

    /// Whether modification times are shown.
    pub fn shows_modified(&self) -> (shown: bool)
        ensures
            shown == self@.modified,
    {
        self.modified
    }

    /// How dates are written.
    pub fn date_format(&self) -> (format: &DateFormat)
        ensures
            format@ == self@.date_format,
    {
        &self.date_format
    }

    /// How times of day are written.
    pub fn time_format(&self) -> (format: TimeFormat)
        ensures
            format == self@.time_format,
    {
        self.time_format
    }

    /// Which clock times are shown in.
    pub fn timezone(&self) -> (zone: Timezone)
        ensures
            zone == self@.timezone,
    {
        self.timezone
    }
}

} // verus!
