//! Why a configuration or a theme request is refused.

use vstd::prelude::*;

verus! {

/// The class of a refusal, as the standard library's `io::ErrorKind` names it.
#[derive(Clone, Copy, Debug, PartialEq, Eq, Structural)]
pub enum ErrorKind {
    InvalidData,
    InvalidInput,
    AlreadyExists,
    NotFound,
}

/// Why a configuration file or a theme request is refused.
#[derive(Debug)]
pub enum ConfigError {
    /// The file is not valid TOML; the parser's explanation.
    InvalidToml(String),
    /// `display` is not a table.
    DisplayNotTable,
    /// `display.<key>` is not a string.
    DisplayKeyNotString(String),
    /// `display.<key>` is not a boolean.
    DisplayKeyNotBool(String),
    /// `display.time_format` has an unknown value.
    UnknownTimeFormat(String),
    /// `display.timezone` has an unknown value.
    UnknownTimezone(String),
    /// `display.date_format` has an unknown value.
    UnknownDateFormat(String),
    /// `date_format` is `custom` but `custom_format` is missing.
    MissingCustomFormat,
    /// `custom_format` is empty.
    EmptyCustomFormat,
    /// `custom_format` holds an invalid directive or a control character.
    InvalidCustomFormat(String),
    /// `theme.selected` is not a string.
    SelectedNotString,
    /// `theme` is neither a table nor a string.
    ThemeNotTable,
    /// `themes` is not a table.
    ThemesNotTable,
    /// A custom theme's name is not a valid theme name.
    InvalidCustomThemeName(String),
    /// A custom theme's name is taken by another theme.
    ThemeConflict(String),
    /// A custom theme is not a table.
    CustomThemeNotTable(String),
    /// A custom theme's key is not a string: theme, key.
    ThemeKeyNotString(String, String),
    /// A custom theme's key is not a boolean: theme, key.
    ThemeKeyNotBool(String, String),
    /// A custom theme extends no built-in theme: theme, the name it extends.
    UnknownBaseTheme(String, String),
    /// A custom theme's color cannot be read: theme, key, value.
    InvalidColor(String, String, String),
    /// A theme name is not 1 to 32 ASCII letters, digits, hyphens or underscores.
    InvalidThemeName,
    /// A new custom theme would take a built-in theme's name.
    BuiltinThemeName(String),
    /// A custom theme of that name exists already.
    ThemeExists(String),
    /// The legacy saved-theme file names no built-in theme.
    UnknownLegacyTheme(String),
    /// Neither `XDG_CONFIG_HOME` (absolute) nor `HOME` is set.
    NoConfigDirectory,
}

/// A refusal as plain values.
pub enum ConfigErrorView {
    InvalidToml(Seq<char>),
    DisplayNotTable,
    DisplayKeyNotString(Seq<char>),
    DisplayKeyNotBool(Seq<char>),
    UnknownTimeFormat(Seq<char>),
    UnknownTimezone(Seq<char>),
    UnknownDateFormat(Seq<char>),
    MissingCustomFormat,
    EmptyCustomFormat,
    InvalidCustomFormat(Seq<char>),
    SelectedNotString,
    ThemeNotTable,
    ThemesNotTable,
    InvalidCustomThemeName(Seq<char>),
    ThemeConflict(Seq<char>),
    CustomThemeNotTable(Seq<char>),
    ThemeKeyNotString(Seq<char>, Seq<char>),
    ThemeKeyNotBool(Seq<char>, Seq<char>),
    UnknownBaseTheme(Seq<char>, Seq<char>),
    InvalidColor(Seq<char>, Seq<char>, Seq<char>),
    InvalidThemeName,
    BuiltinThemeName(Seq<char>),
    ThemeExists(Seq<char>),
    UnknownLegacyTheme(Seq<char>),
    NoConfigDirectory,
}

impl View for ConfigError {
    type V = ConfigErrorView;

    open spec fn view(&self) -> ConfigErrorView {
        match self {
            ConfigError::InvalidToml(s) => ConfigErrorView::InvalidToml(s@),
            ConfigError::DisplayNotTable => ConfigErrorView::DisplayNotTable,
            ConfigError::DisplayKeyNotString(s) => ConfigErrorView::DisplayKeyNotString(s@),
            ConfigError::DisplayKeyNotBool(s) => ConfigErrorView::DisplayKeyNotBool(s@),
            ConfigError::UnknownTimeFormat(s) => ConfigErrorView::UnknownTimeFormat(s@),
            ConfigError::UnknownTimezone(s) => ConfigErrorView::UnknownTimezone(s@),
            ConfigError::UnknownDateFormat(s) => ConfigErrorView::UnknownDateFormat(s@),
            ConfigError::MissingCustomFormat => ConfigErrorView::MissingCustomFormat,
            ConfigError::EmptyCustomFormat => ConfigErrorView::EmptyCustomFormat,
            ConfigError::InvalidCustomFormat(s) => ConfigErrorView::InvalidCustomFormat(s@),
            ConfigError::SelectedNotString => ConfigErrorView::SelectedNotString,
            ConfigError::ThemeNotTable => ConfigErrorView::ThemeNotTable,
            ConfigError::ThemesNotTable => ConfigErrorView::ThemesNotTable,
            ConfigError::InvalidCustomThemeName(s) => ConfigErrorView::InvalidCustomThemeName(s@),
            ConfigError::ThemeConflict(s) => ConfigErrorView::ThemeConflict(s@),
            ConfigError::CustomThemeNotTable(s) => ConfigErrorView::CustomThemeNotTable(s@),
            ConfigError::ThemeKeyNotString(t, k) => ConfigErrorView::ThemeKeyNotString(t@, k@),
            ConfigError::ThemeKeyNotBool(t, k) => ConfigErrorView::ThemeKeyNotBool(t@, k@),
            ConfigError::UnknownBaseTheme(t, e) => ConfigErrorView::UnknownBaseTheme(t@, e@),
            ConfigError::InvalidColor(t, k, v) => ConfigErrorView::InvalidColor(t@, k@, v@),
            ConfigError::InvalidThemeName => ConfigErrorView::InvalidThemeName,
            ConfigError::BuiltinThemeName(s) => ConfigErrorView::BuiltinThemeName(s@),
            ConfigError::ThemeExists(s) => ConfigErrorView::ThemeExists(s@),
            ConfigError::UnknownLegacyTheme(s) => ConfigErrorView::UnknownLegacyTheme(s@),
            ConfigError::NoConfigDirectory => ConfigErrorView::NoConfigDirectory,
        }
    }
}

/// The class of each refusal.
pub open spec fn kind_of(e: ConfigErrorView) -> ErrorKind {
    match e {
        ConfigErrorView::InvalidThemeName => ErrorKind::InvalidInput,
        ConfigErrorView::BuiltinThemeName(_) => ErrorKind::AlreadyExists,
        ConfigErrorView::ThemeExists(_) => ErrorKind::AlreadyExists,
        ConfigErrorView::NoConfigDirectory => ErrorKind::NotFound,
        _ => ErrorKind::InvalidData,
    }
}

/// Rust's debug rendering of a string: quoted, with escapes.
pub uninterp spec fn debug_quoted(s: Seq<char>) -> Seq<char>;

/// Formats `s` with `{:?}`, which quotes and escapes it. Claimed of it:
/// the result depends on `s` alone, and is what `debug_quoted` names.
#[verifier::external_body]
pub(crate) fn quoted(s: &str) -> (q: String)
    ensures
        q@ == debug_quoted(s@),
{
    format!("{s:?}")
}

fn cat2(a: &str, b: &str) -> (text: String)
    ensures
        text@ == a@ + b@,
{
    let mut out = a.to_owned();
    out.append(b);
    out
}

fn cat3(a: &str, b: &str, c: &str) -> (text: String)
    ensures
        text@ == a@ + b@ + c@,
{
    let mut out = cat2(a, b);
    out.append(c);
    out
}

fn cat4(a: &str, b: &str, c: &str, d: &str) -> (text: String)
    ensures
        text@ == a@ + b@ + c@ + d@,
{
    let mut out = cat3(a, b, c);
    out.append(d);
    out
}

fn cat6(a: &str, b: &str, c: &str, d: &str, e: &str, f: &str) -> (text: String)
    ensures
        text@ == a@ + b@ + c@ + d@ + e@ + f@,
{
    let mut out = cat4(a, b, c, d);
    out.append(e);
    out.append(f);
    out
}

/// The explanation of each refusal.
pub open spec fn message_text(e: ConfigErrorView) -> Seq<char> {
    let q = |s: Seq<char>| debug_quoted(s);
    match e {
        ConfigErrorView::InvalidToml(d) => "invalid config.toml: "@ + d,
        ConfigErrorView::DisplayNotTable => "display must be a table"@,
        ConfigErrorView::DisplayKeyNotString(k) => "display."@ + k + " must be a string"@,
        ConfigErrorView::DisplayKeyNotBool(k) => "display."@ + k + " must be true or false"@,
        ConfigErrorView::UnknownTimeFormat(v) => "unknown display.time_format "@ + q(v) + "; use 12h or 24h"@,
        ConfigErrorView::UnknownTimezone(v) => "unknown display.timezone "@ + q(v) + "; use local or utc"@,
        ConfigErrorView::UnknownDateFormat(v) => "unknown display.date_format "@ + q(v)
            + "; use iso, us, european, relative, or custom"@,
        ConfigErrorView::MissingCustomFormat => "display.custom_format is required when date_format is custom"@,
        ConfigErrorView::EmptyCustomFormat => "display.custom_format cannot be empty"@,
        ConfigErrorView::InvalidCustomFormat(f) => "display.custom_format contains an invalid directive or control character: "@
            + q(f),
        ConfigErrorView::SelectedNotString => "theme.selected must be a string"@,
        ConfigErrorView::ThemeNotTable => "theme must be a table; the legacy top-level value must be a string"@,
        ConfigErrorView::ThemesNotTable => "themes must be a table"@,
        ConfigErrorView::InvalidCustomThemeName(n) => "invalid custom theme name "@ + q(n) + ": "@
            + invalid_theme_name_text(),
        ConfigErrorView::ThemeConflict(n) => "custom theme "@ + q(n) + " conflicts with another theme"@,
        ConfigErrorView::CustomThemeNotTable(n) => "custom theme "@ + q(n) + " must be a table"@,
        ConfigErrorView::ThemeKeyNotString(t, k) => q(k) + " in custom theme "@ + q(t) + " must be a string"@,
        ConfigErrorView::ThemeKeyNotBool(t, k) => q(k) + " in custom theme "@ + q(t) + " must be true or false"@,
        ConfigErrorView::UnknownBaseTheme(t, x) => "custom theme "@ + q(t) + " extends unknown built-in theme "@ + q(x),
        ConfigErrorView::InvalidColor(t, k, v) => "invalid color "@ + q(v) + " for "@ + q(k) + " in custom theme "@ + q(t),
        ConfigErrorView::InvalidThemeName => invalid_theme_name_text(),
        ConfigErrorView::BuiltinThemeName(n) => q(n) + " is a built-in theme"@,
        ConfigErrorView::ThemeExists(n) => "custom theme "@ + q(n) + " already exists"@,
        ConfigErrorView::UnknownLegacyTheme(v) => "unknown legacy saved theme "@ + q(v),
        ConfigErrorView::NoConfigDirectory => "cannot find a config directory; set XDG_CONFIG_HOME or HOME"@,
    }
}

/// The rule for theme names.
pub open spec fn invalid_theme_name_text() -> Seq<char> {
    "theme names must be 1-32 ASCII letters, numbers, hyphens, or underscores"@
}

impl ConfigError {
    /// The class of the refusal.
    pub fn kind(&self) -> (kind: ErrorKind)
        ensures
            kind == kind_of(self@),
    {
        match self {
            ConfigError::InvalidThemeName => ErrorKind::InvalidInput,
            ConfigError::BuiltinThemeName(_) => ErrorKind::AlreadyExists,
            ConfigError::ThemeExists(_) => ErrorKind::AlreadyExists,
            ConfigError::NoConfigDirectory => ErrorKind::NotFound,
            _ => ErrorKind::InvalidData,
        }
    }

    /// The explanation shown to the user.
    pub fn message(&self) -> (text: String)
        ensures
            text@ == message_text(self@),
    {
        let rule = "theme names must be 1-32 ASCII letters, numbers, hyphens, or underscores";
        match self {
            ConfigError::InvalidToml(e) => cat2("invalid config.toml: ", e.as_str()),
            ConfigError::DisplayNotTable => "display must be a table".to_owned(),
            ConfigError::DisplayKeyNotString(k) => cat3("display.", k.as_str(), " must be a string"),
            ConfigError::DisplayKeyNotBool(k) => cat3("display.", k.as_str(), " must be true or false"),
            ConfigError::UnknownTimeFormat(v) => cat3(
                "unknown display.time_format ",
                quoted(v.as_str()).as_str(),
                "; use 12h or 24h",
            ),
            ConfigError::UnknownTimezone(v) => cat3(
                "unknown display.timezone ",
                quoted(v.as_str()).as_str(),
                "; use local or utc",
            ),
            ConfigError::UnknownDateFormat(v) => cat3(
                "unknown display.date_format ",
                quoted(v.as_str()).as_str(),
                "; use iso, us, european, relative, or custom",
            ),
            ConfigError::MissingCustomFormat => "display.custom_format is required when date_format is custom".to_owned(),
            ConfigError::EmptyCustomFormat => "display.custom_format cannot be empty".to_owned(),
            ConfigError::InvalidCustomFormat(f) => cat2(
                "display.custom_format contains an invalid directive or control character: ",
                quoted(f.as_str()).as_str(),
            ),
            ConfigError::SelectedNotString => "theme.selected must be a string".to_owned(),
            ConfigError::ThemeNotTable => "theme must be a table; the legacy top-level value must be a string".to_owned(),
            ConfigError::ThemesNotTable => "themes must be a table".to_owned(),
            ConfigError::InvalidCustomThemeName(n) => cat4(
                "invalid custom theme name ",
                quoted(n.as_str()).as_str(),
                ": ",
                rule,
            ),
            ConfigError::ThemeConflict(n) => cat3(
                "custom theme ",
                quoted(n.as_str()).as_str(),
                " conflicts with another theme",
            ),
            ConfigError::CustomThemeNotTable(n) => cat3("custom theme ", quoted(n.as_str()).as_str(), " must be a table"),
            ConfigError::ThemeKeyNotString(t, k) => cat4(
                quoted(k.as_str()).as_str(),
                " in custom theme ",
                quoted(t.as_str()).as_str(),
                " must be a string",
            ),
            ConfigError::ThemeKeyNotBool(t, k) => cat4(
                quoted(k.as_str()).as_str(),
                " in custom theme ",
                quoted(t.as_str()).as_str(),
                " must be true or false",
            ),
            ConfigError::UnknownBaseTheme(t, e) => cat4(
                "custom theme ",
                quoted(t.as_str()).as_str(),
                " extends unknown built-in theme ",
                quoted(e.as_str()).as_str(),
            ),
            ConfigError::InvalidColor(t, k, v) => cat6(
                "invalid color ",
                quoted(v.as_str()).as_str(),
                " for ",
                quoted(k.as_str()).as_str(),
                " in custom theme ",
                quoted(t.as_str()).as_str(),
            ),
            ConfigError::InvalidThemeName => rule.to_owned(),
            ConfigError::BuiltinThemeName(n) => cat2(quoted(n.as_str()).as_str(), " is a built-in theme"),
            ConfigError::ThemeExists(n) => cat3("custom theme ", quoted(n.as_str()).as_str(), " already exists"),
            ConfigError::UnknownLegacyTheme(v) => cat2("unknown legacy saved theme ", quoted(v.as_str()).as_str()),
            ConfigError::NoConfigDirectory => "cannot find a config directory; set XDG_CONFIG_HOME or HOME".to_owned(),
        }
    }
}

} // verus!
