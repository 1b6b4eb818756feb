//! Themes: the built-in palettes, custom themes read from the configuration
//! file, and the catalog that holds them.

use crate::color::{auto_palette, auto_palette_spec, Color, Palette, Theme, ThemeView};
use crate::config::{display_from_root, DisplaySettings, DisplayView};
use crate::error::{ConfigError, ConfigErrorView};
use crate::text::{
    ascii_lower, ascii_lowercase, chars_eq_ignore_ascii_case, chars_of, eq_ignoring_ascii_case, is_ascii_alnum,
    is_ascii_char, seq_eq, string_of, to_ascii_lowercase, trim_chars, trim_end, trim_start, trimmed,
};
use crate::toml::{
    document_model, item_as_bool, item_as_str, item_as_table, lookup, parse_toml, parsed_toml,
    root_table, table_get, table_keys, table_model, toml_error_text, TomlModel,
};
use toml_edit::Table;
use vstd::prelude::*;

verus! {

/// The environment variable that names a theme for one run.
pub const THEME_ENV: &'static str = "DE_THEME";

/// A TOML table as plain values.
pub type TomlTable = Seq<(Seq<char>, TomlModel)>;

/// The names of the built-in themes, in catalog order.
pub open spec fn builtin_names() -> Seq<Seq<char>> {
    seq!["auto"@, "light"@, "dark"@, "mono"@, "ocean"@, "forest"@, "amber"@, "rose"@]
}

/// A 24-bit color from a triple.
pub open spec fn rgb_spec(c: (u8, u8, u8)) -> Color {
    Color::Rgb(c.0, c.1, c.2)
}

/// The palette of the vivid built-in themes, from their seven colors.
pub open spec fn vivid_spec(
    accent: (u8, u8, u8),
    muted: (u8, u8, u8),
    title: (u8, u8, u8),
    error: (u8, u8, u8),
    symlink: (u8, u8, u8),
    selection_foreground: (u8, u8, u8),
    selection_background: (u8, u8, u8),
) -> Palette {
    Palette {
        accent: rgb_spec(accent),
        text: Color::Reset,
        muted: rgb_spec(muted),
        title: rgb_spec(title),
        error: rgb_spec(error),
        symlink: rgb_spec(symlink),
        emphasis_foreground: rgb_spec(selection_foreground),
        emphasis_background: rgb_spec(selection_background),
        reverse_emphasis: false,
        dim_muted: false,
    }
}

/// The palettes of the built-in themes, in catalog order.
pub open spec fn builtin_palettes() -> Seq<Palette> {
    seq![
        auto_palette_spec(),
        Palette {
            accent: Color::Blue,
            text: Color::Black,
            muted: Color::DarkGray,
            title: Color::Blue,
            error: Color::Red,
            symlink: Color::Magenta,
            emphasis_foreground: Color::White,
            emphasis_background: Color::Blue,
            reverse_emphasis: false,
            dim_muted: false,
        },
        Palette {
            accent: Color::LightCyan,
            text: Color::White,
            muted: Color::Gray,
            title: Color::LightBlue,
            error: Color::LightRed,
            symlink: Color::LightMagenta,
            emphasis_foreground: Color::Black,
            emphasis_background: Color::LightCyan,
            reverse_emphasis: false,
            dim_muted: false,
        },
        Palette {
            accent: Color::Reset,
            text: Color::Reset,
            muted: Color::Reset,
            title: Color::Reset,
            error: Color::Reset,
            symlink: Color::Reset,
            emphasis_foreground: Color::Reset,
            emphasis_background: Color::Reset,
            reverse_emphasis: true,
            dim_muted: true,
        },
        vivid_spec((56, 189, 248), (148, 163, 184), (129, 140, 248), (251, 113, 133), (192, 132, 252), (8, 47, 73), (125, 211, 252)),
        vivid_spec((74, 222, 128), (134, 167, 137), (163, 230, 53), (251, 113, 133), (250, 204, 21), (5, 46, 22), (134, 239, 172)),
        vivid_spec((251, 191, 36), (168, 162, 158), (251, 146, 60), (248, 113, 113), (244, 114, 182), (69, 26, 3), (252, 211, 77)),
        vivid_spec((251, 113, 133), (161, 161, 170), (244, 114, 182), (248, 113, 113), (192, 132, 252), (76, 5, 25), (253, 164, 175)),
    ]
}

/// The built-in themes, in catalog order.
pub open spec fn builtin_themes_spec() -> Seq<ThemeView> {
    Seq::new(8, |i: int| ThemeView { name: builtin_names()[i], palette: builtin_palettes()[i] })
}

fn rgb(color: (u8, u8, u8)) -> (c: Color)
    ensures
        c == rgb_spec(color),
{
    Color::Rgb(color.0, color.1, color.2)
}

fn vivid_palette(
    accent: (u8, u8, u8),
    muted: (u8, u8, u8),
    title: (u8, u8, u8),
    error: (u8, u8, u8),
    symlink: (u8, u8, u8),
    selection_foreground: (u8, u8, u8),
    selection_background: (u8, u8, u8),
) -> (palette: Palette)
    ensures
        palette == vivid_spec(accent, muted, title, error, symlink, selection_foreground, selection_background),
{
    Palette {
        accent: rgb(accent),
        text: Color::Reset,
        muted: rgb(muted),
        title: rgb(title),
        error: rgb(error),
        symlink: rgb(symlink),
        emphasis_foreground: rgb(selection_foreground),
        emphasis_background: rgb(selection_background),
        reverse_emphasis: false,
        dim_muted: false,
    }
}

/// The themes as plain values.
pub open spec fn theme_views(themes: Seq<Theme>) -> Seq<ThemeView> {
    themes.map_values(|t: Theme| t@)
}

/// The built-in themes: auto, light, dark, mono, ocean, forest, amber, rose.
pub fn built_in_themes() -> (themes: Vec<Theme>)
    ensures
        theme_views(themes@) == builtin_themes_spec(),
        themes@.len() == 8,
{
    let mut themes: Vec<Theme> = Vec::new();
    themes.push(Theme::new("auto", auto_palette()));
    themes.push(Theme::new("light", Palette {
        accent: Color::Blue,
        text: Color::Black,
        muted: Color::DarkGray,
        title: Color::Blue,
        error: Color::Red,
        symlink: Color::Magenta,
        emphasis_foreground: Color::White,
        emphasis_background: Color::Blue,
        reverse_emphasis: false,
        dim_muted: false,
    }));
    themes.push(Theme::new("dark", Palette {
        accent: Color::LightCyan,
        text: Color::White,
        muted: Color::Gray,
        title: Color::LightBlue,
        error: Color::LightRed,
        symlink: Color::LightMagenta,
        emphasis_foreground: Color::Black,
        emphasis_background: Color::LightCyan,
        reverse_emphasis: false,
        dim_muted: false,
    }));
    themes.push(Theme::new("mono", Palette {
        accent: Color::Reset,
        text: Color::Reset,
        muted: Color::Reset,
        title: Color::Reset,
        error: Color::Reset,
        symlink: Color::Reset,
        emphasis_foreground: Color::Reset,
        emphasis_background: Color::Reset,
        reverse_emphasis: true,
        dim_muted: true,
    }));
    themes.push(Theme::new("ocean", vivid_palette((56, 189, 248), (148, 163, 184), (129, 140, 248), (251, 113, 133), (192, 132, 252), (8, 47, 73), (125, 211, 252))));
    themes.push(Theme::new("forest", vivid_palette((74, 222, 128), (134, 167, 137), (163, 230, 53), (251, 113, 133), (250, 204, 21), (5, 46, 22), (134, 239, 172))));
    themes.push(Theme::new("amber", vivid_palette((251, 191, 36), (168, 162, 158), (251, 146, 60), (248, 113, 113), (244, 114, 182), (69, 26, 3), (252, 211, 77))));
    themes.push(Theme::new("rose", vivid_palette((251, 113, 133), (161, 161, 170), (244, 114, 182), (248, 113, 113), (192, 132, 252), (76, 5, 25), (253, 164, 175))));
    proof {
        assert(theme_views(themes@) =~= builtin_themes_spec());
    }
    themes
}

/// A character allowed in a theme name.
pub open spec fn is_theme_name_char(c: char) -> bool {
    is_ascii_alnum(c) || c == '-' || c == '_'
}

/// A valid theme name: 1 to 32 ASCII letters, digits, hyphens or underscores.
pub open spec fn valid_theme_name(name: Seq<char>) -> bool {
    1 <= name.len() <= 32 && forall|i: int| 0 <= i < name.len() ==> is_theme_name_char(#[trigger] name[i])
}

/// Whether `name` is a valid theme name.
pub fn is_valid_theme_name(name: &Vec<char>) -> (valid: bool)
    ensures
        valid == valid_theme_name(name@),
{
    if name.len() == 0 || name.len() > 32 {
        return false;
    }
    let mut i: usize = 0;
    while i < name.len()
        invariant
            i <= name@.len(),
            forall|j: int| 0 <= j < i ==> is_theme_name_char(#[trigger] name@[j]),
        decreases name@.len() - i,
    {
        let c = name[i];
        if !(('a' <= c && c <= 'z') || ('A' <= c && c <= 'Z') || ('0' <= c && c <= '9') || c == '-' || c == '_') {
            return false;
        }
        i += 1;
    }
    true
}

/// Checks that `name` is 1 to 32 ASCII letters, digits, hyphens or underscores.
pub fn validate_theme_name(name: &str) -> (checked: Result<(), ConfigError>)
    ensures
        valid_theme_name(name@) ==> checked is Ok,
        !valid_theme_name(name@) ==> (checked matches Err(e) && e@ == ConfigErrorView::InvalidThemeName),
{
    if is_valid_theme_name(&chars_of(name)) {
        Ok(())
    } else {
        Err(ConfigError::InvalidThemeName)
    }
}

/// `name` is a built-in theme's name, ASCII case aside.
pub open spec fn is_builtin(name: Seq<char>) -> bool {
    exists|i: int| 0 <= i < 8 && eq_ignoring_ascii_case(#[trigger] builtin_names()[i], name)
}

fn chars_are(chars: &Vec<char>, literal: &str) -> (same: bool)
    ensures
        same == (chars@ == literal@),
{
    seq_eq(chars, &chars_of(literal))
}

/// Whether `name` is a built-in theme's name, ASCII case aside.
pub fn is_builtin_name(name: &str) -> (builtin: bool)
    ensures
        builtin == is_builtin(name@),
{
    let chars = chars_of(name);
    let names = ["auto", "light", "dark", "mono", "ocean", "forest", "amber", "rose"];
    let mut i: usize = 0;
    while i < 8
        invariant
            i <= 8,
            chars@ == name@,
            forall|k: int| 0 <= k < 8 ==> (#[trigger] names@[k])@ == builtin_names()[k],
            forall|k: int| 0 <= k < i ==> !eq_ignoring_ascii_case(#[trigger] builtin_names()[k], name@),
        decreases 8 - i,
    {
        if chars_eq_ignore_ascii_case(&chars_of(names[i]), &chars) {
            return true;
        }
        i += 1;
    }
    false
}

/// The value of a hexadecimal digit (lowercase letters only: colors are
/// lowercased before they are read).
pub open spec fn hex_value(c: char) -> Option<u8> {
    if '0' <= c && c <= '9' {
        Some(((c as u32) - 48) as u8)
    } else if 'a' <= c && c <= 'f' {
        Some(((c as u32) - 87) as u8)
    } else if 'A' <= c && c <= 'F' {
        Some(((c as u32) - 55) as u8)
    } else {
        None
    }
}

/// The byte that `u8::from_str_radix(.., 16)` reads from two characters:
/// an optional `+` sign and one digit, or two digits.
pub open spec fn hex_pair(a: char, b: char) -> Option<u8> {
    if a == '+' {
        hex_value(b)
    } else {
        match (hex_value(a), hex_value(b)) {
            (Some(x), Some(y)) => Some((x * 16 + y) as u8),
            _ => None,
        }
    }
}

/// The color a theme value names: `#rrggbb`, or one of the named colors;
/// surrounding white space and ASCII case do not matter.
pub open spec fn parse_color_spec(value: Seq<char>) -> Option<Color> {
    let n = ascii_lowercase(trimmed(value));
    if n.len() > 0 && n[0] == '#' {
        let hex = n.drop_first();
        if hex.len() == 6 && (forall|i: int| 0 <= i < 6 ==> is_ascii_char(#[trigger] hex[i])) {
            match (hex_pair(hex[0], hex[1]), hex_pair(hex[2], hex[3]), hex_pair(hex[4], hex[5])) {
                (Some(r), Some(g), Some(b)) => Some(Color::Rgb(r, g, b)),
                _ => None,
            }
        } else {
            None
        }
    } else {
        named_color(n)
    }
}

/// A lowercase hexadecimal digit.
pub open spec fn is_lower_hex(c: char) -> bool {
    ('0' <= c && c <= '9') || ('a' <= c && c <= 'f')
}

/// `#rrggbb` written in lowercase hexadecimal digits names a color.
pub proof fn lemma_hex_color_parses(v: Seq<char>)
    requires
        v.len() == 7,
        v[0] == '#',
        forall|i: int| 1 <= i < 7 ==> is_lower_hex(#[trigger] v[i]),
    ensures
        parse_color_spec(v) is Some,
{
    assert(is_lower_hex(v[6]));
    assert(trim_start(v) == v);
    assert(trim_end(v) == v);
    assert forall|i: int| 0 <= i < 7 implies #[trigger] ascii_lower(v[i]) == v[i] by {
        if i > 0 {
            assert(is_lower_hex(v[i]));
        }
    }
    assert(ascii_lowercase(v) =~= v);
    let hex = v.drop_first();
    assert forall|i: int| 0 <= i < 6 implies is_ascii_char(#[trigger] hex[i]) by {
        assert(is_lower_hex(v[i + 1]));
    }
    assert(is_lower_hex(hex[0]) && is_lower_hex(hex[1]) && is_lower_hex(hex[2]));
    assert(is_lower_hex(hex[3]) && is_lower_hex(hex[4]) && is_lower_hex(hex[5]));
}

/// The color with the given lowercase name.
pub open spec fn named_color(n: Seq<char>) -> Option<Color> {
    if n == "default"@ || n == "reset"@ {
        Some(Color::Reset)
    } else if n == "black"@ {
        Some(Color::Black)
    } else if n == "red"@ {
        Some(Color::Red)
    } else if n == "green"@ {
        Some(Color::Green)
    } else if n == "yellow"@ {
        Some(Color::Yellow)
    } else if n == "blue"@ {
        Some(Color::Blue)
    } else if n == "magenta"@ {
        Some(Color::Magenta)
    } else if n == "cyan"@ {
        Some(Color::Cyan)
    } else if n == "gray"@ || n == "grey"@ {
        Some(Color::Gray)
    } else if n == "dark-gray"@ || n == "dark-grey"@ {
        Some(Color::DarkGray)
    } else if n == "light-red"@ {
        Some(Color::LightRed)
    } else if n == "light-green"@ {
        Some(Color::LightGreen)
    } else if n == "light-yellow"@ {
        Some(Color::LightYellow)
    } else if n == "light-blue"@ {
        Some(Color::LightBlue)
    } else if n == "light-magenta"@ {
        Some(Color::LightMagenta)
    } else if n == "light-cyan"@ {
        Some(Color::LightCyan)
    } else if n == "white"@ {
        Some(Color::White)
    } else {
        None
    }
}

/// Each color name, trimmed and in any ASCII case, reads as the color of
/// that name: `red` as red, `light-red` as light red, and so on, with
/// `default` and `reset` for the terminal's default color and `grey` and
/// `dark-grey` as the spellings of `gray` and `dark-gray`.
pub proof fn lemma_color_names(v: Seq<char>)
    ensures
        ascii_lowercase(trimmed(v)) == "default"@ ==> parse_color_spec(v) == Some(Color::Reset),
        ascii_lowercase(trimmed(v)) == "reset"@ ==> parse_color_spec(v) == Some(Color::Reset),
        ascii_lowercase(trimmed(v)) == "black"@ ==> parse_color_spec(v) == Some(Color::Black),
        ascii_lowercase(trimmed(v)) == "red"@ ==> parse_color_spec(v) == Some(Color::Red),
        ascii_lowercase(trimmed(v)) == "green"@ ==> parse_color_spec(v) == Some(Color::Green),
        ascii_lowercase(trimmed(v)) == "yellow"@ ==> parse_color_spec(v) == Some(Color::Yellow),
        ascii_lowercase(trimmed(v)) == "blue"@ ==> parse_color_spec(v) == Some(Color::Blue),
        ascii_lowercase(trimmed(v)) == "magenta"@ ==> parse_color_spec(v) == Some(Color::Magenta),
        ascii_lowercase(trimmed(v)) == "cyan"@ ==> parse_color_spec(v) == Some(Color::Cyan),
        ascii_lowercase(trimmed(v)) == "gray"@ ==> parse_color_spec(v) == Some(Color::Gray),
        ascii_lowercase(trimmed(v)) == "grey"@ ==> parse_color_spec(v) == Some(Color::Gray),
        ascii_lowercase(trimmed(v)) == "dark-gray"@ ==> parse_color_spec(v) == Some(Color::DarkGray),
        ascii_lowercase(trimmed(v)) == "dark-grey"@ ==> parse_color_spec(v) == Some(Color::DarkGray),
        ascii_lowercase(trimmed(v)) == "light-red"@ ==> parse_color_spec(v) == Some(Color::LightRed),
        ascii_lowercase(trimmed(v)) == "light-green"@ ==> parse_color_spec(v) == Some(Color::LightGreen),
        ascii_lowercase(trimmed(v)) == "light-yellow"@ ==> parse_color_spec(v) == Some(Color::LightYellow),
        ascii_lowercase(trimmed(v)) == "light-blue"@ ==> parse_color_spec(v) == Some(Color::LightBlue),
        ascii_lowercase(trimmed(v)) == "light-magenta"@ ==> parse_color_spec(v) == Some(Color::LightMagenta),
        ascii_lowercase(trimmed(v)) == "light-cyan"@ ==> parse_color_spec(v) == Some(Color::LightCyan),
        ascii_lowercase(trimmed(v)) == "white"@ ==> parse_color_spec(v) == Some(Color::White),
{
    let n = ascii_lowercase(trimmed(v));
    reveal_strlit("default");
    reveal_strlit("reset");
    reveal_strlit("black");
    reveal_strlit("red");
    reveal_strlit("green");
    reveal_strlit("yellow");
    reveal_strlit("blue");
    reveal_strlit("magenta");
    reveal_strlit("cyan");
    reveal_strlit("gray");
    reveal_strlit("grey");
    reveal_strlit("dark-gray");
    reveal_strlit("dark-grey");
    reveal_strlit("light-red");
    reveal_strlit("light-green");
    reveal_strlit("light-yellow");
    reveal_strlit("light-blue");
    reveal_strlit("light-magenta");
    reveal_strlit("light-cyan");
    reveal_strlit("white");
    if n.len() > 0 {
        assert(n[0] != '#' || !(n == "red"@ || n == "default"@ || n == "reset"@ || n == "black"@ || n == "green"@
            || n == "yellow"@ || n == "blue"@ || n == "magenta"@ || n == "cyan"@ || n == "gray"@ || n == "grey"@
            || n == "dark-gray"@ || n == "dark-grey"@ || n == "light-red"@ || n == "light-green"@
            || n == "light-yellow"@ || n == "light-blue"@ || n == "light-magenta"@ || n == "light-cyan"@
            || n == "white"@));
    }
}


fn hex_digit(c: char) -> (value: Option<u8>)
    ensures
        value == hex_value(c),
{
    if '0' <= c && c <= '9' {
        Some(((c as u32) - 48) as u8)
    } else if 'a' <= c && c <= 'f' {
        Some(((c as u32) - 87) as u8)
    } else if 'A' <= c && c <= 'F' {
        Some(((c as u32) - 55) as u8)
    } else {
        None
    }
}

fn hex_byte(a: char, b: char) -> (value: Option<u8>)
    ensures
        value == hex_pair(a, b),
{
    if a == '+' {
        hex_digit(b)
    } else {
        match (hex_digit(a), hex_digit(b)) {
            (Some(x), Some(y)) => Some(x * 16 + y),
            _ => None,
        }
    }
}

fn color_named(n: &Vec<char>) -> (color: Option<Color>)
    ensures
        color == named_color(n@),
{
    if chars_are(n, "default") || chars_are(n, "reset") {
        Some(Color::Reset)
    } else if chars_are(n, "black") {
        Some(Color::Black)
    } else if chars_are(n, "red") {
        Some(Color::Red)
    } else if chars_are(n, "green") {
        Some(Color::Green)
    } else if chars_are(n, "yellow") {
        Some(Color::Yellow)
    } else if chars_are(n, "blue") {
        Some(Color::Blue)
    } else if chars_are(n, "magenta") {
        Some(Color::Magenta)
    } else if chars_are(n, "cyan") {
        Some(Color::Cyan)
    } else if chars_are(n, "gray") || chars_are(n, "grey") {
        Some(Color::Gray)
    } else if chars_are(n, "dark-gray") || chars_are(n, "dark-grey") {
        Some(Color::DarkGray)
    } else if chars_are(n, "light-red") {
        Some(Color::LightRed)
    } else if chars_are(n, "light-green") {
        Some(Color::LightGreen)
    } else if chars_are(n, "light-yellow") {
        Some(Color::LightYellow)
    } else if chars_are(n, "light-blue") {
        Some(Color::LightBlue)
    } else if chars_are(n, "light-magenta") {
        Some(Color::LightMagenta)
    } else if chars_are(n, "light-cyan") {
        Some(Color::LightCyan)
    } else if chars_are(n, "white") {
        Some(Color::White)
    } else {
        None
    }
}

/// Reads a color: `#rrggbb` or a color name, trimmed and case-insensitive.
pub fn parse_color(value: &str) -> (color: Option<Color>)
    ensures
        color == parse_color_spec(value@),
{
    let n = to_ascii_lowercase(&trim_chars(&chars_of(value)));
    if n.len() > 0 && n[0] == '#' {
        if n.len() != 7 {
            return None;
        }
        let mut i: usize = 1;
        while i < 7
            invariant
                n@.len() == 7,
                n@[0] == '#',
                n@ == ascii_lowercase(trimmed(value@)),
                1 <= i <= 7,
                forall|j: int| 1 <= j < i ==> is_ascii_char(#[trigger] n@[j]),
            decreases 7 - i,
        {
            if !((n[i] as u32) < 128) {
                proof {
                    assert(!is_ascii_char(n@.drop_first()[i - 1]));
                }
                return None;
            }
            i += 1;
        }
        proof {
            assert forall|j: int| 0 <= j < 6 implies is_ascii_char(#[trigger] n@.drop_first()[j]) by {
                assert(n@.drop_first()[j] == n@[j + 1]);
            }
        }
        match (hex_byte(n[1], n[2]), hex_byte(n[3], n[4]), hex_byte(n[5], n[6])) {
            (Some(r), Some(g), Some(b)) => Some(Color::Rgb(r, g, b)),
            _ => None,
        }
    } else {
        color_named(&n)
    }
}

/// The first theme whose name equals `key`, ASCII case aside.
pub open spec fn is_first_match(themes: Seq<ThemeView>, key: Seq<char>, i: int) -> bool {
    0 <= i < themes.len() && eq_ignoring_ascii_case(themes[i].name, key) && forall|j: int|
        0 <= j < i ==> !eq_ignoring_ascii_case(#[trigger] themes[j].name, key)
}

/// The position of the first theme called `key`, ASCII case aside.
pub open spec fn theme_position(themes: Seq<ThemeView>, key: Seq<char>) -> Option<int> {
    if exists|i: int| is_first_match(themes, key, i) {
        Some(choose|i: int| is_first_match(themes, key, i))
    } else {
        None
    }
}

/// Where cycling through the catalog starts: the position of `current`,
/// else the first theme.
pub open spec fn cycle_start(themes: Seq<ThemeView>, current: Seq<char>) -> int {
    match theme_position(themes, current) {
        Some(i) => i,
        None => 0,
    }
}

/// The position after the start, wrapping around.
pub open spec fn next_position(themes: Seq<ThemeView>, current: Seq<char>) -> int {
    if cycle_start(themes, current) + 1 < themes.len() {
        cycle_start(themes, current) + 1
    } else {
        0
    }
}

/// The position before the start, wrapping around.
pub open spec fn previous_position(themes: Seq<ThemeView>, current: Seq<char>) -> int {
    if cycle_start(themes, current) == 0 {
        themes.len() - 1
    } else {
        cycle_start(themes, current) - 1
    }
}

/// The names in the catalog differ pairwise, ASCII case aside.
pub open spec fn distinct_names(themes: Seq<ThemeView>) -> bool {
    forall|i: int, j: int|
        0 <= i < themes.len() && 0 <= j < themes.len() && i != j ==> !eq_ignoring_ascii_case(
            #[trigger] themes[i].name,
            #[trigger] themes[j].name,
        )
}

/// In a catalog of distinct names each theme is found by its own name.
pub proof fn lemma_found_by_own_name(themes: Seq<ThemeView>, j: int)
    requires
        distinct_names(themes),
        0 <= j < themes.len(),
    ensures
        theme_position(themes, themes[j].name) == Some(j),
{
    let key = themes[j].name;
    assert(eq_ignoring_ascii_case(key, key));
    assert forall|k: int| 0 <= k < j implies !eq_ignoring_ascii_case(#[trigger] themes[k].name, key) by {
        assert(k != j);
    }
    assert(is_first_match(themes, key, j));
    let c = choose|c: int| is_first_match(themes, key, c);
    if c != j {
        assert(eq_ignoring_ascii_case(themes[c].name, themes[j].name));
    }
}

/// Cycling back undoes cycling forward, and forward undoes back: in a
/// catalog of distinct names, the theme before the next one (and the theme
/// after the previous one) is where cycling started.
pub proof fn lemma_cycle_round_trip(themes: Seq<ThemeView>, current: Seq<char>)
    requires
        themes.len() > 0,
        distinct_names(themes),
    ensures
        previous_position(themes, themes[next_position(themes, current)].name) == cycle_start(themes, current),
        next_position(themes, themes[previous_position(themes, current)].name) == cycle_start(themes, current),
{
    if let Some(i) = theme_position(themes, current) {
        let c = choose|c: int| is_first_match(themes, current, c);
        assert(is_first_match(themes, current, c));
    }
    lemma_found_by_own_name(themes, next_position(themes, current));
    lemma_found_by_own_name(themes, previous_position(themes, current));
}

/// The built-in themes have distinct names.
pub proof fn lemma_builtin_names_distinct()
    ensures
        distinct_names(builtin_themes_spec()),
{
    reveal_strlit("auto");
    reveal_strlit("light");
    reveal_strlit("dark");
    reveal_strlit("mono");
    reveal_strlit("ocean");
    reveal_strlit("forest");
    reveal_strlit("amber");
    reveal_strlit("rose");
    let t = builtin_themes_spec();
    assert forall|i: int, j: int|
        0 <= i < t.len() && 0 <= j < t.len() && i != j implies !eq_ignoring_ascii_case(
            #[trigger] t[i].name,
            #[trigger] t[j].name,
        ) by {
        let a = t[i].name;
        let b = t[j].name;
        assert(a == builtin_names()[i]);
        assert(b == builtin_names()[j]);
        if a.len() == b.len() {
            assert(ascii_lower(a[0]) != ascii_lower(b[0]));
        }
    }
}

fn find_theme(themes: &Vec<Theme>, key: &Vec<char>) -> (found: Option<usize>)
    ensures
        found matches Some(i) ==> i < themes@.len(),
        match found {
            Some(i) => theme_position(theme_views(themes@), key@) == Some(i as int),
            None => theme_position(theme_views(themes@), key@) is None,
        },
{
    let ghost views = theme_views(themes@);
    let mut i: usize = 0;
    while i < themes.len()
        invariant
            views == theme_views(themes@),
            i <= themes@.len(),
            forall|j: int| 0 <= j < i ==> !eq_ignoring_ascii_case(#[trigger] views[j].name, key@),
        decreases themes@.len() - i,
    {
        if chars_eq_ignore_ascii_case(&chars_of(themes[i].name()), key) {
            proof {
                assert(is_first_match(views, key@, i as int));
                let c = choose|c: int| is_first_match(views, key@, c);
                assert(c == i);
            }
            return Some(i);
        }
        i += 1;
    }
    proof {
        assert forall|c: int| !is_first_match(views, key@, c) by {
            if 0 <= c < views.len() {
                assert(!eq_ignoring_ascii_case(views[c].name, key@));
            }
        }
    }
    None
}

/// A string under a custom theme's table.
pub open spec fn theme_string(table: TomlTable, key: Seq<char>, theme: Seq<char>) -> Result<Option<Seq<char>>, ConfigErrorView> {
    match lookup(table, key) {
        None => Ok(None),
        Some(TomlModel::Str(s)) => Ok(Some(s)),
        Some(_) => Err(ConfigErrorView::ThemeKeyNotString(theme, key)),
    }
}

/// A color of a custom theme, or `current` when the table sets none.
pub open spec fn theme_color(table: TomlTable, key: Seq<char>, theme: Seq<char>, current: Color) -> Result<Color, ConfigErrorView> {
    match theme_string(table, key, theme) {
        Err(e) => Err(e),
        Ok(None) => Ok(current),
        Ok(Some(v)) => match parse_color_spec(v) {
            Some(c) => Ok(c),
            None => Err(ConfigErrorView::InvalidColor(theme, key, v)),
        },
    }
}

/// A flag of a custom theme, or `current` when the table sets none.
pub open spec fn theme_flag(table: TomlTable, key: Seq<char>, theme: Seq<char>, current: bool) -> Result<bool, ConfigErrorView> {
    match lookup(table, key) {
        None => Ok(current),
        Some(TomlModel::Bool(b)) => Ok(b),
        Some(_) => Err(ConfigErrorView::ThemeKeyNotBool(theme, key)),
    }
}

/// The built-in theme that a custom theme extends: the first theme with
/// that name (ASCII case aside) that is a built-in one.
pub open spec fn is_first_base(themes: Seq<ThemeView>, extends: Seq<char>, i: int) -> bool {
    0 <= i < themes.len() && eq_ignoring_ascii_case(themes[i].name, extends) && is_builtin(themes[i].name)
        && forall|j: int|
        0 <= j < i ==> !(eq_ignoring_ascii_case(#[trigger] themes[j].name, extends) && is_builtin(themes[j].name))
}

/// The position of the built-in theme called `extends`.
pub open spec fn base_position(themes: Seq<ThemeView>, extends: Seq<char>) -> Option<int> {
    if exists|i: int| is_first_base(themes, extends, i) {
        Some(choose|i: int| is_first_base(themes, extends, i))
    } else {
        None
    }
}

/// The palette that a custom theme table gives on top of `base`, keys read
/// in the order accent, text, muted, title, error, symlink, selection_fg,
/// selection_bg, reverse_selection, dim_muted.
#[verifier::opaque]
pub open spec fn custom_palette(name: Seq<char>, table: TomlTable, base: Palette) -> Result<ThemeView, ConfigErrorView> {
    match theme_color(table, "accent"@, name, base.accent) {
        Err(e) => Err(e),
        Ok(v_accent) => match theme_color(table, "text"@, name, base.text) {
        Err(e) => Err(e),
        Ok(v_text) => match theme_color(table, "muted"@, name, base.muted) {
        Err(e) => Err(e),
        Ok(v_muted) => match theme_color(table, "title"@, name, base.title) {
        Err(e) => Err(e),
        Ok(v_title) => match theme_color(table, "error"@, name, base.error) {
        Err(e) => Err(e),
        Ok(v_error) => match theme_color(table, "symlink"@, name, base.symlink) {
        Err(e) => Err(e),
        Ok(v_symlink) => match theme_color(table, "selection_fg"@, name, base.emphasis_foreground) {
        Err(e) => Err(e),
        Ok(v_emphasis_foreground) => match theme_color(table, "selection_bg"@, name, base.emphasis_background) {
        Err(e) => Err(e),
        Ok(v_emphasis_background) => match theme_flag(table, "reverse_selection"@, name, base.reverse_emphasis) {
        Err(e) => Err(e),
        Ok(v_reverse_emphasis) => match theme_flag(table, "dim_muted"@, name, base.dim_muted) {
        Err(e) => Err(e),
        Ok(v_dim_muted) => Ok(ThemeView { name, palette: Palette { accent: v_accent, text: v_text, muted: v_muted, title: v_title, error: v_error, symlink: v_symlink, emphasis_foreground: v_emphasis_foreground, emphasis_background: v_emphasis_background, reverse_emphasis: v_reverse_emphasis, dim_muted: v_dim_muted } }),
    },
    },
    },
    },
    },
    },
    },
    },
    },
    }
}

/// The custom theme that `table` describes, given the themes read so far.
pub open spec fn custom_theme(name: Seq<char>, table: TomlTable, themes: Seq<ThemeView>) -> Result<ThemeView, ConfigErrorView> {
    match theme_string(table, "extends"@, name) {
        Err(e) => Err(e),
        Ok(extends) => {
            let base_name = match extends {
                Some(x) => x,
                None => "auto"@,
            };
            match base_position(themes, base_name) {
                None => Err(ConfigErrorView::UnknownBaseTheme(name, base_name)),
                Some(b) => custom_palette(name, table, themes[b].palette),
            }
        },
    }
}

/// The catalog after reading the custom themes from entry `i` of the
/// `[themes]` table on.
pub open spec fn custom_themes(themes_table: TomlTable, i: int, themes: Seq<ThemeView>) -> Result<Seq<ThemeView>, ConfigErrorView>
    decreases themes_table.len() - i,
{
    if i < 0 || i >= themes_table.len() {
        Ok(themes)
    } else {
        let name = themes_table[i].0;
        if !valid_theme_name(name) {
            Err(ConfigErrorView::InvalidCustomThemeName(name))
        } else if theme_position(themes, trimmed(name)) is Some {
            Err(ConfigErrorView::ThemeConflict(name))
        } else {
            match lookup(themes_table, name) {
                Some(TomlModel::Table(t)) => match custom_theme(name, t, themes) {
                    Err(e) => Err(e),
                    Ok(theme) => custom_themes(themes_table, i + 1, themes.push(theme)),
                },
                _ => Err(ConfigErrorView::CustomThemeNotTable(name)),
            }
        }
    }
}

/// The saved theme name: a legacy top-level string, or `theme.selected`.
pub open spec fn saved_theme_of(root: TomlTable) -> Result<Option<Seq<char>>, ConfigErrorView> {
    match lookup(root, "theme"@) {
        None => Ok(None),
        Some(TomlModel::Str(s)) => Ok(Some(s)),
        Some(TomlModel::Table(t)) => match lookup(t, "selected"@) {
            None => Ok(None),
            Some(TomlModel::Str(s)) => Ok(Some(s)),
            Some(_) => Err(ConfigErrorView::SelectedNotString),
        },
        Some(_) => Err(ConfigErrorView::ThemeNotTable),
    }
}

/// The catalog as plain values.
pub struct ConfigView {
    pub themes: Seq<ThemeView>,
    pub saved_theme: Option<Seq<char>>,
    pub display: DisplayView,
}

/// The catalog that a document's root table describes: the display
/// preferences, the saved theme, then the custom themes after the built-in ones.
pub open spec fn config_from_root(root: TomlTable) -> Result<ConfigView, ConfigErrorView> {
    match display_from_root(root) {
        Err(e) => Err(e),
        Ok(display) => match saved_theme_of(root) {
            Err(e) => Err(e),
            Ok(saved_theme) => match lookup(root, "themes"@) {
                None => Ok(ConfigView { themes: builtin_themes_spec(), saved_theme, display }),
                Some(TomlModel::Table(t)) => match custom_themes(t, 0, builtin_themes_spec()) {
                    Err(e) => Err(e),
                    Ok(themes) => Ok(ConfigView { themes, saved_theme, display }),
                },
                Some(_) => Err(ConfigErrorView::ThemesNotTable),
            },
        },
    }
}

/// The themes available, the saved choice and the display preferences.
#[derive(Debug)]
pub struct Config {
    themes: Vec<Theme>,
    saved_theme: Option<String>,
    display: DisplaySettings,
}

impl View for Config {
    type V = ConfigView;

    closed spec fn view(&self) -> ConfigView {
        ConfigView {
            themes: theme_views(self.themes@),
            saved_theme: crate::app::opt_chars(self.saved_theme),
            display: self.display@,
        }
    }
}

/// A catalog result as plain values.
pub open spec fn config_result(r: Result<Config, ConfigError>) -> Result<ConfigView, ConfigErrorView> {
    match r {
        Ok(c) => Ok(c@),
        Err(e) => Err(e@),
    }
}

fn optional_theme_string<'a>(table: &'a Table, key: &str, theme: &str) -> (value: Result<Option<&'a str>, ConfigError>)
    ensures
        match theme_string(table_model(*table), key@, theme@) {
            Ok(Some(s)) => value matches Ok(Some(v)) && v@ == s,
            Ok(None) => value matches Ok(None),
            Err(e) => value matches Err(x) && x@ == e,
        },
{
    match table_get(table, key) {
        None => Ok(None),
        Some(item) => match item_as_str(item) {
            Some(s) => Ok(Some(s)),
            None => Err(ConfigError::ThemeKeyNotString(theme.to_owned(), key.to_owned())),
        },
    }
}

fn apply_color(table: &Table, key: &str, theme: &str, target: &mut Color) -> (applied: Result<(), ConfigError>)
    ensures
        match theme_color(table_model(*table), key@, theme@, *old(target)) {
            Ok(c) => applied is Ok && *final(target) == c,
            Err(e) => applied matches Err(x) && x@ == e,
        },
{
    let value = match optional_theme_string(table, key, theme)? {
        Some(v) => v,
        None => return Ok(()),
    };
    match parse_color(value) {
        Some(c) => {
            *target = c;
            Ok(())
        },
        None => Err(ConfigError::InvalidColor(theme.to_owned(), key.to_owned(), value.to_owned())),
    }
}

fn apply_bool(table: &Table, key: &str, theme: &str, target: &mut bool) -> (applied: Result<(), ConfigError>)
    ensures
        match theme_flag(table_model(*table), key@, theme@, *old(target)) {
            Ok(b) => applied is Ok && *final(target) == b,
            Err(e) => applied matches Err(x) && x@ == e,
        },
{
    let item = match table_get(table, key) {
        Some(item) => item,
        None => return Ok(()),
    };
    match item_as_bool(item) {
        Some(b) => {
            *target = b;
            Ok(())
        },
        None => Err(ConfigError::ThemeKeyNotBool(theme.to_owned(), key.to_owned())),
    }
}

fn find_base(themes: &Vec<Theme>, extends: &Vec<char>) -> (found: Option<usize>)
    ensures
        match found {
            Some(i) => base_position(theme_views(themes@), extends@) == Some(i as int),
            None => base_position(theme_views(themes@), extends@) is None,
        },
{
    let ghost views = theme_views(themes@);
    let mut i: usize = 0;
    while i < themes.len()
        invariant
            views == theme_views(themes@),
            i <= themes@.len(),
            forall|j: int|
                0 <= j < i ==> !(eq_ignoring_ascii_case(#[trigger] views[j].name, extends@) && is_builtin(views[j].name)),
        decreases themes@.len() - i,
    {
        let name = themes[i].name();
        if chars_eq_ignore_ascii_case(&chars_of(name), extends) && is_builtin_name(name) {
            proof {
                assert(is_first_base(views, extends@, i as int));
                let c = choose|c: int| is_first_base(views, extends@, c);
                assert(c == i);
            }
            return Some(i);
        }
        i += 1;
    }
    proof {
        assert forall|c: int| !is_first_base(views, extends@, c) by {
            if 0 <= c < views.len() {
                assert(!(eq_ignoring_ascii_case(views[c].name, extends@) && is_builtin(views[c].name)));
            }
        }
    }
    None
}

/// Reads a custom theme: the built-in theme it extends (`auto` unless
/// `extends` says otherwise), with the colors and flags that the table sets.
pub fn parse_custom_theme(name: &str, table: &Table, built_ins: &Vec<Theme>) -> (theme: Result<Theme, ConfigError>)
    ensures
        match custom_theme(name@, table_model(*table), theme_views(built_ins@)) {
            Ok(t) => theme matches Ok(x) && x@ == t,
            Err(e) => theme matches Err(x) && x@ == e,
        },
{
    proof {
        reveal_strlit("auto");
        reveal(custom_palette);
    }
    let extends = match optional_theme_string(table, "extends", name)? {
        Some(x) => x,
        None => "auto",
    };
    let base = match find_base(built_ins, &chars_of(extends)) {
        Some(b) => b,
        None => return Err(ConfigError::UnknownBaseTheme(name.to_owned(), extends.to_owned())),
    };
    let mut palette = built_ins[base].palette();
    proof {
        assert(theme_views(built_ins@)[base as int] == built_ins@[base as int]@);
    }
        apply_color(table, "accent", name, &mut palette.accent)?;
        apply_color(table, "text", name, &mut palette.text)?;
        apply_color(table, "muted", name, &mut palette.muted)?;
        apply_color(table, "title", name, &mut palette.title)?;
        apply_color(table, "error", name, &mut palette.error)?;
        apply_color(table, "symlink", name, &mut palette.symlink)?;
        apply_color(table, "selection_fg", name, &mut palette.emphasis_foreground)?;
        apply_color(table, "selection_bg", name, &mut palette.emphasis_background)?;
        apply_bool(table, "reverse_selection", name, &mut palette.reverse_emphasis)?;
        apply_bool(table, "dim_muted", name, &mut palette.dim_muted)?;
    Ok(Theme::new(name, palette))
}

/// A valid theme name has no white space to trim.
proof fn lemma_valid_name_untrimmed(name: Seq<char>)
    requires
        valid_theme_name(name),
    ensures
        trimmed(name) == name,
{
    assert(is_theme_name_char(name[0]));
    assert(is_theme_name_char(name[name.len() - 1]));
}

/// Where no theme is first called `key`, no theme is called `key` at all.
proof fn lemma_unmatched_key(themes: Seq<ThemeView>, key: Seq<char>, k: int)
    requires
        0 <= k < themes.len(),
        eq_ignoring_ascii_case(themes[k].name, key),
    ensures
        theme_position(themes, key) is Some,
    decreases k,
{
    if exists|j: int| 0 <= j < k && eq_ignoring_ascii_case(#[trigger] themes[j].name, key) {
        let j = choose|j: int| 0 <= j < k && eq_ignoring_ascii_case(#[trigger] themes[j].name, key);
        lemma_unmatched_key(themes, key, j);
    } else {
        assert(is_first_match(themes, key, k));
    }
}

proof fn lemma_custom_themes_distinct(t: TomlTable, i: int, themes: Seq<ThemeView>)
    requires
        distinct_names(themes),
    ensures
        custom_themes(t, i, themes) matches Ok(r) ==> distinct_names(r),
    decreases t.len() - i,
{
    if 0 <= i < t.len() {
        let name = t[i].0;
        if valid_theme_name(name) && theme_position(themes, trimmed(name)) is None {
            if let Some(TomlModel::Table(tt)) = lookup(t, name) {
                if let Ok(theme) = custom_theme(name, tt, themes) {
                    lemma_valid_name_untrimmed(name);
                    let grown = themes.push(theme);
                    reveal(custom_palette);
                    assert(theme.name == name);
                    assert forall|a: int, b: int|
                        0 <= a < grown.len() && 0 <= b < grown.len() && a != b implies !eq_ignoring_ascii_case(
                            #[trigger] grown[a].name,
                            #[trigger] grown[b].name,
                        ) by {
                        if a == themes.len() {
                            if eq_ignoring_ascii_case(name, themes[b].name) {
                                assert(eq_ignoring_ascii_case(themes[b].name, name));
                                lemma_unmatched_key(themes, name, b);
                            }
                        } else if b == themes.len() {
                            if eq_ignoring_ascii_case(themes[a].name, name) {
                                lemma_unmatched_key(themes, name, a);
                            }
                        }
                    }
                    lemma_custom_themes_distinct(t, i + 1, grown);
                }
            }
        }
    }
}

/// Every catalog read from a configuration has distinct theme names (ASCII
/// case aside), so each theme is found by its own name.
pub proof fn lemma_loaded_catalog_distinct(root: TomlTable)
    ensures
        config_from_root(root) matches Ok(c) ==> distinct_names(c.themes),
{
    lemma_builtin_names_distinct();
    if let Some(TomlModel::Table(t)) = lookup(root, "themes"@) {
        lemma_custom_themes_distinct(t, 0, builtin_themes_spec());
    }
}

/// Equality ignoring ASCII case is symmetric.
pub proof fn lemma_eq_ignoring_case_symmetric(a: Seq<char>, b: Seq<char>)
    ensures
        eq_ignoring_ascii_case(a, b) == eq_ignoring_ascii_case(b, a),
{
}

/// Equality ignoring ASCII case is transitive.
pub proof fn lemma_eq_ignoring_case_transitive(a: Seq<char>, b: Seq<char>, c: Seq<char>)
    requires
        eq_ignoring_ascii_case(a, b),
        eq_ignoring_ascii_case(b, c),
    ensures
        eq_ignoring_ascii_case(a, c),
{
    assert forall|i: int| 0 <= i < a.len() implies ascii_lower(#[trigger] a[i]) == ascii_lower(c[i]) by {
        assert(ascii_lower(a[i]) == ascii_lower(b[i]));
        assert(ascii_lower(b[i]) == ascii_lower(c[i]));
    }
}

/// The catalog starts with the built-in themes.
pub open spec fn starts_with_builtins(themes: Seq<ThemeView>) -> bool {
    themes.len() >= 8 && forall|k: int| 0 <= k < 8 ==> themes[k] == #[trigger] builtin_themes_spec()[k]
}

/// No theme of the catalog is called `name`, ASCII case aside.
pub open spec fn name_unused(themes: Seq<ThemeView>, name: Seq<char>) -> bool {
    forall|k: int| 0 <= k < themes.len() ==> !eq_ignoring_ascii_case(#[trigger] themes[k].name, name)
}

/// No key of the table is `name`, ASCII case aside.
pub open spec fn key_unused(table: TomlTable, name: Seq<char>) -> bool {
    forall|k: int| 0 <= k < table.len() ==> !eq_ignoring_ascii_case(#[trigger] table[k].0, name)
}

/// A catalog result with `theme` inserted at position `p`.
pub open spec fn with_theme(r: Result<Seq<ThemeView>, ConfigErrorView>, p: int, theme: ThemeView) -> Result<Seq<ThemeView>, ConfigErrorView> {
    match r {
        Ok(themes) => Ok(themes.insert(p, theme)),
        Err(e) => Err(e),
    }
}

/// In a catalog that starts with the built-in themes, the theme a custom
/// theme extends is found among the built-in ones.
proof fn lemma_base_among_builtins(themes: Seq<ThemeView>, extends: Seq<char>)
    requires
        starts_with_builtins(themes),
    ensures
        base_position(themes, extends) == base_position(builtin_themes_spec(), extends),
        base_position(themes, extends) matches Some(b) ==> 0 <= b < 8,
{
    let b = builtin_themes_spec();
    assert forall|c: int| #[trigger] is_first_base(themes, extends, c) implies 0 <= c < 8 && is_first_base(b, extends, c) by {
        if c >= 8 {
            let m = choose|m: int| 0 <= m < 8 && eq_ignoring_ascii_case(#[trigger] builtin_names()[m], themes[c].name);
            assert(themes[m] == b[m]);
            lemma_eq_ignoring_case_transitive(themes[m].name, themes[c].name, extends);
            assert(eq_ignoring_ascii_case(themes[m].name, themes[m].name));
            assert(is_builtin(themes[m].name));
            assert(!(eq_ignoring_ascii_case(themes[m].name, extends) && is_builtin(themes[m].name)));
        }
        assert forall|j: int| 0 <= j < c implies !(eq_ignoring_ascii_case(#[trigger] b[j].name, extends) && is_builtin(b[j].name)) by {
            assert(themes[j] == b[j]);
        }
        assert(themes[c] == b[c]);
    }
    assert forall|c: int| #[trigger] is_first_base(b, extends, c) implies is_first_base(themes, extends, c) by {
        assert forall|j: int| 0 <= j < c implies !(eq_ignoring_ascii_case(#[trigger] themes[j].name, extends) && is_builtin(themes[j].name)) by {
            assert(themes[j] == b[j]);
        }
        assert(themes[c] == b[c]);
    }
    if exists|c: int| is_first_base(themes, extends, c) {
        let c1 = choose|c: int| is_first_base(themes, extends, c);
        let c2 = choose|c: int| is_first_base(b, extends, c);
        assert(is_first_base(b, extends, c1));
        if c1 < c2 {
            assert(!(eq_ignoring_ascii_case(b[c1].name, extends) && is_builtin(b[c1].name)));
        }
        if c2 < c1 {
            assert(!(eq_ignoring_ascii_case(themes[c2].name, extends) && is_builtin(themes[c2].name)));
        }
    }
}

/// A custom theme reads the same against any catalog that starts with the
/// built-in themes, and is called by its key.
proof fn lemma_custom_theme_on_builtins(name: Seq<char>, table: TomlTable, themes: Seq<ThemeView>)
    requires
        starts_with_builtins(themes),
    ensures
        custom_theme(name, table, themes) == custom_theme(name, table, builtin_themes_spec()),
        custom_theme(name, table, themes) matches Ok(t) ==> t.name == name,
{
    reveal(custom_palette);
    if let Ok(Some(x)) = theme_string(table, "extends"@, name) {
        lemma_base_among_builtins(themes, x);
        if let Some(b) = base_position(themes, x) {
            assert(themes[b] == builtin_themes_spec()[b]);
        }
    } else if let Ok(None) = theme_string(table, "extends"@, name) {
        lemma_base_among_builtins(themes, "auto"@);
        if let Some(b) = base_position(themes, "auto"@) {
            assert(themes[b] == builtin_themes_spec()[b]);
        }
    }
}

proof fn lemma_lookup_insert_other(t: TomlTable, i: int, x: (Seq<char>, TomlModel), key: Seq<char>)
    requires
        0 <= i <= t.len(),
        x.0 != key,
    ensures
        lookup(t.insert(i, x), key) == lookup(t, key),
    decreases t.len(),
{
    if i == 0 {
        assert(t.insert(0, x).drop_first() =~= t);
    } else {
        assert(t.insert(i, x).drop_first() =~= t.drop_first().insert(i - 1, x));
        lemma_lookup_insert_other(t.drop_first(), i - 1, x, key);
    }
}

proof fn lemma_lookup_insert_found(t: TomlTable, i: int, key: Seq<char>, value: TomlModel)
    requires
        0 <= i <= t.len(),
        forall|k: int| 0 <= k < i ==> #[trigger] t[k].0 != key,
    ensures
        lookup(t.insert(i, (key, value)), key) == Some(value),
    decreases t.len(),
{
    if i > 0 {
        assert(t[0].0 != key);
        assert(t.insert(i, (key, value)).drop_first() =~= t.drop_first().insert(i - 1, (key, value)));
        assert forall|k: int| 0 <= k < i - 1 implies #[trigger] t.drop_first()[k].0 != key by {
            assert(t[k + 1].0 != key);
        }
        lemma_lookup_insert_found(t.drop_first(), i - 1, key, value);
    }
}

/// `theme_position` finds a theme exactly when some theme is called `key`.
pub proof fn lemma_no_match(themes: Seq<ThemeView>, key: Seq<char>)
    ensures
        name_unused(themes, key) <==> theme_position(themes, key) is None,
{
    if !name_unused(themes, key) {
        let k = choose|k: int| 0 <= k < themes.len() && eq_ignoring_ascii_case(#[trigger] themes[k].name, key);
        lemma_unmatched_key(themes, key, k);
    }
}

/// The table entries after a new pair at `i`: the catalog read from them is
/// the one read without the pair, with the new theme at `p`.
proof fn lemma_after_inserted_pair(
    t: TomlTable,
    i: int,
    x: (Seq<char>, TomlModel),
    j: int,
    themes: Seq<ThemeView>,
    p: int,
    theme: ThemeView,
)
    requires
        0 <= i <= t.len(),
        i + 1 <= j <= t.len() + 1,
        x.0 == theme.name,
        !is_builtin(theme.name),
        key_unused(t, theme.name),
        starts_with_builtins(themes),
        8 <= p <= themes.len(),
        name_unused(themes, theme.name),
    ensures
        custom_themes(t.insert(i, x), j, themes.insert(p, theme)) == with_theme(custom_themes(t, j - 1, themes), p, theme),
    decreases t.len() + 1 - j,
{
    let t2 = t.insert(i, x);
    let grown = themes.insert(p, theme);
    if j < t2.len() {
        let name = t2[j].0;
        assert(name == t[j - 1].0);
        assert(!eq_ignoring_ascii_case(t[j - 1].0, theme.name));
        lemma_eq_ignoring_case_symmetric(name, theme.name);
        assert(starts_with_builtins(grown)) by {
            assert forall|k: int| 0 <= k < 8 implies grown[k] == #[trigger] builtin_themes_spec()[k] by {
                assert(grown[k] == themes[k]);
            }
        }
        if valid_theme_name(name) {
            lemma_valid_name_untrimmed(name);
            lemma_no_match(themes, name);
            lemma_no_match(grown, name);
            assert(name_unused(themes, name) == name_unused(grown, name)) by {
                if name_unused(themes, name) {
                    assert forall|k: int| 0 <= k < grown.len() implies !eq_ignoring_ascii_case(#[trigger] grown[k].name, name) by {
                        if k < p {
                            assert(grown[k] == themes[k]);
                        } else if k > p {
                            assert(grown[k] == themes[k - 1]);
                        }
                    }
                }
                if name_unused(grown, name) {
                    assert forall|k: int| 0 <= k < themes.len() implies !eq_ignoring_ascii_case(#[trigger] themes[k].name, name) by {
                        if k < p {
                            assert(grown[k] == themes[k]);
                        } else {
                            assert(grown[k + 1] == themes[k]);
                        }
                    }
                }
            }
            if theme_position(themes, name) is None {
                lemma_lookup_insert_other(t, i, x, name);
                if let Some(TomlModel::Table(tt)) = lookup(t, name) {
                    lemma_custom_theme_on_builtins(name, tt, themes);
                    lemma_custom_theme_on_builtins(name, tt, grown);
                    if let Ok(found) = custom_theme(name, tt, themes) {
                        assert(grown.push(found) =~= themes.push(found).insert(p, theme));
                        assert(name_unused(themes.push(found), theme.name)) by {
                            assert forall|k: int| 0 <= k < themes.push(found).len() implies !eq_ignoring_ascii_case(
                                #[trigger] themes.push(found)[k].name,
                                theme.name,
                            ) by {
                                if k < themes.len() {
                                    assert(themes.push(found)[k] == themes[k]);
                                }
                            }
                        }
                        assert(starts_with_builtins(themes.push(found))) by {
                            assert forall|k: int| 0 <= k < 8 implies themes.push(found)[k] == #[trigger] builtin_themes_spec()[k] by {
                                assert(themes.push(found)[k] == themes[k]);
                            }
                        }
                        lemma_after_inserted_pair(t, i, x, j + 1, themes.push(found), p, theme);
                    }
                }
            }
        }
    } else {
        assert(j == t.len() + 1);
    }
}

/// The table entries before a new pair at `i`, from entry `j` on: the
/// catalog read from them is the one read without the pair, with the new
/// theme where the pair stands.
proof fn lemma_before_inserted_pair(
    t: TomlTable,
    i: int,
    j: int,
    name: Seq<char>,
    table: TomlTable,
    themes: Seq<ThemeView>,
    theme: ThemeView,
)
    requires
        0 <= j <= i <= t.len(),
        valid_theme_name(name),
        !is_builtin(name),
        key_unused(t, name),
        starts_with_builtins(themes),
        name_unused(themes, name),
        custom_theme(name, table, builtin_themes_spec()) == Ok::<ThemeView, ConfigErrorView>(theme),
    ensures
        custom_themes(t.insert(i, (name, TomlModel::Table(table))), j, themes) == with_theme(
            custom_themes(t, j, themes),
            themes.len() + (i - j),
            theme,
        ),
    decreases i - j,
{
    let x = (name, TomlModel::Table(table));
    let t2 = t.insert(i, x);
    lemma_custom_theme_on_builtins(name, table, themes);
    if j == i {
        lemma_valid_name_untrimmed(name);
        lemma_no_match(themes, name);
        assert forall|k: int| 0 <= k < i implies #[trigger] t[k].0 != name by {
            if t[k].0 == name {
                assert(eq_ignoring_ascii_case(t[k].0, name));
            }
        }
        lemma_lookup_insert_found(t, i, name, TomlModel::Table(table));
        assert(t2[i] == x);
        assert(themes.push(theme) =~= themes.insert(themes.len() as int, theme));
        lemma_after_inserted_pair(t, i, x, i + 1, themes, themes.len() as int, theme);
    } else {
        let key = t2[j].0;
        assert(key == t[j].0);
        assert(!eq_ignoring_ascii_case(t[j].0, name));
        assert(key != name) by {
            if key == name {
                assert(eq_ignoring_ascii_case(name, name));
            }
        }
        lemma_lookup_insert_other(t, i, x, key);
        if valid_theme_name(key) && theme_position(themes, trimmed(key)) is None {
            if let Some(TomlModel::Table(tt)) = lookup(t, key) {
                lemma_custom_theme_on_builtins(key, tt, themes);
                if let Ok(found) = custom_theme(key, tt, themes) {
                    lemma_eq_ignoring_case_symmetric(key, name);
                    assert(name_unused(themes.push(found), name)) by {
                        assert forall|k: int| 0 <= k < themes.push(found).len() implies !eq_ignoring_ascii_case(
                            #[trigger] themes.push(found)[k].name,
                            name,
                        ) by {
                            if k < themes.len() {
                                assert(themes.push(found)[k] == themes[k]);
                            }
                        }
                    }
                    assert(starts_with_builtins(themes.push(found))) by {
                        assert forall|k: int| 0 <= k < 8 implies themes.push(found)[k] == #[trigger] builtin_themes_spec()[k] by {
                            assert(themes.push(found)[k] == themes[k]);
                        }
                    }
                    lemma_before_inserted_pair(t, i, j + 1, name, table, themes.push(found), theme);
                }
            }
        }
    }
}

/// A catalog read from a `[themes]` table holds one theme per entry read.
pub proof fn lemma_custom_themes_len(t: TomlTable, j: int, themes: Seq<ThemeView>)
    requires
        0 <= j <= t.len(),
    ensures
        custom_themes(t, j, themes) matches Ok(r) ==> r.len() == themes.len() + (t.len() - j),
    decreases t.len() - j,
{
    if j < t.len() {
        let name = t[j].0;
        if valid_theme_name(name) && theme_position(themes, trimmed(name)) is None {
            if let Some(TomlModel::Table(tt)) = lookup(t, name) {
                if let Ok(theme) = custom_theme(name, tt, themes) {
                    lemma_custom_themes_len(t, j + 1, themes.push(theme));
                }
            }
        }
    }
}

/// Adding a custom theme's table to the `[themes]` table, under a name that
/// is valid, not a built-in theme's and not taken: the catalog read from
/// the table is the one read before, with the new theme among the custom
/// themes where its table stands.
pub proof fn lemma_inserted_theme_loads(t: TomlTable, i: int, name: Seq<char>, table: TomlTable, theme: ThemeView)
    requires
        0 <= i <= t.len(),
        valid_theme_name(name),
        !is_builtin(name),
        key_unused(t, name),
        custom_theme(name, table, builtin_themes_spec()) == Ok::<ThemeView, ConfigErrorView>(theme),
    ensures
        custom_themes(t.insert(i, (name, TomlModel::Table(table))), 0, builtin_themes_spec()) == with_theme(
            custom_themes(t, 0, builtin_themes_spec()),
            8 + i,
            theme,
        ),
        theme.name == name,
{
    let b = builtin_themes_spec();
    assert(starts_with_builtins(b));
    assert forall|k: int| 0 <= k < b.len() implies !eq_ignoring_ascii_case(#[trigger] b[k].name, name) by {
        if eq_ignoring_ascii_case(b[k].name, name) {
            lemma_eq_ignoring_case_symmetric(b[k].name, name);
            assert(b[k].name == builtin_names()[k]);
            assert(is_builtin(name));
        }
    }
    lemma_custom_theme_on_builtins(name, table, b);
    lemma_before_inserted_pair(t, i, 0, name, table, b, theme);
}

fn saved_theme_from(root: &Table) -> (saved: Result<Option<String>, ConfigError>)
    ensures
        match saved_theme_of(table_model(*root)) {
            Ok(Some(s)) => saved matches Ok(Some(x)) && x@ == s,
            Ok(None) => saved matches Ok(None),
            Err(e) => saved matches Err(x) && x@ == e,
        },
{
    match table_get(root, "theme") {
        None => Ok(None),
        Some(item) => match item_as_str(item) {
            Some(name) => Ok(Some(name.to_owned())),
            None => match item_as_table(item) {
                Some(theme) => match table_get(theme, "selected") {
                    None => Ok(None),
                    Some(selected) => match item_as_str(selected) {
                        Some(name) => Ok(Some(name.to_owned())),
                        None => Err(ConfigError::SelectedNotString),
                    },
                },
                None => Err(ConfigError::ThemeNotTable),
            },
        },
    }
}

/// Adds the custom themes of a `[themes]` table to `themes`, in table order.
fn read_custom_themes(themes_table: &Table, initial: Vec<Theme>) -> (read: Result<Vec<Theme>, ConfigError>)
    ensures
        match custom_themes(table_model(*themes_table), 0, theme_views(initial@)) {
            Ok(t) => read matches Ok(r) && theme_views(r@) == t && r@.len() >= initial@.len(),
            Err(e) => read matches Err(x) && x@ == e,
        },
{
    let ghost initial_view = initial@;
    let mut themes = initial;
    let ghost start = theme_views(themes@);
    let ghost start_len = themes@.len();
    let ghost model = table_model(*themes_table);
    let names = table_keys(themes_table);
    let mut i: usize = 0;
    while i < names.len()
        invariant
            model == table_model(*themes_table),
            names@.len() == model.len(),
            forall|k: int| 0 <= k < names@.len() ==> #[trigger] names@[k]@ == model[k].0,
            i <= names@.len(),
            themes@.len() >= start_len,
            start == theme_views(initial_view),
            initial_view == initial@,
            start_len == initial_view.len(),
            custom_themes(model, 0, start) == custom_themes(model, i as int, theme_views(themes@)),
        decreases names@.len() - i,
    {
        let name = names[i].as_str();
        let chars = chars_of(name);
        proof {
            assert(name@ == model[i as int].0);
        }
        if !is_valid_theme_name(&chars) {
            proof {
                assert(custom_themes(model, i as int, theme_views(themes@)) == Err::<Seq<ThemeView>, ConfigErrorView>(
                    ConfigErrorView::InvalidCustomThemeName(name@),
                ));
                assert(custom_themes(table_model(*themes_table), 0, theme_views(initial_view)) == Err::<Seq<ThemeView>, ConfigErrorView>(
                    ConfigErrorView::InvalidCustomThemeName(name@),
                ));
            }
            return Err(ConfigError::InvalidCustomThemeName(name.to_owned()));
        }
        if find_theme(&themes, &trim_chars(&chars)).is_some() {
            proof {
                assert(custom_themes(model, i as int, theme_views(themes@)) == Err::<Seq<ThemeView>, ConfigErrorView>(
                    ConfigErrorView::ThemeConflict(name@),
                ));
            }
            return Err(ConfigError::ThemeConflict(name.to_owned()));
        }
        let table = match table_get(themes_table, name) {
            Some(item) => match item_as_table(item) {
                Some(t) => t,
                None => return Err(ConfigError::CustomThemeNotTable(name.to_owned())),
            },
            None => return Err(ConfigError::CustomThemeNotTable(name.to_owned())),
        };
        let theme = parse_custom_theme(name, table, &themes)?;
        let ghost before = themes@;
        themes.push(theme);
        proof {
            assert(theme_views(themes@) =~= theme_views(before).push(themes@.last()@));
        }
        i += 1;
    }
    proof {
        assert(custom_themes(model, i as int, theme_views(themes@)) == Ok::<Seq<ThemeView>, ConfigErrorView>(theme_views(themes@)));
    }
    Ok(themes)
}

impl Config {
    /// The catalog is usable: it holds at least one theme.
    pub closed spec fn wf(&self) -> bool {
        self.themes@.len() > 0 && distinct_names(theme_views(self.themes@))
    }

    /// The built-in themes, no saved choice, default display preferences.
    pub fn built_ins() -> (config: Config)
        ensures
            config.wf(),
            config@ == (ConfigView {
                themes: builtin_themes_spec(),
                saved_theme: None,
                display: crate::config::default_display(),
            }),
    {
        proof {
            lemma_builtin_names_distinct();
        }
        Config {
            themes: built_in_themes(),
            saved_theme: None,
            display: DisplaySettings::default_settings(),
        }
    }

    /// The catalog from what was found on disk: the configuration file's
    /// text where there is one; else the legacy saved-theme file's text where
    /// there is one; else the built-in themes alone.
    pub fn load(config: Option<&str>, legacy: Option<&str>) -> (loaded: Result<Config, ConfigError>)
        ensures
            loaded matches Ok(c) ==> c.wf(),
            match config {
                Some(text) => match parsed_toml(text@) {
                    None => loaded matches Err(ConfigError::InvalidToml(_)),
                    Some(root) => config_result(loaded) == config_from_root(root),
                },
                None => match legacy {
                    Some(value) => if is_builtin(trimmed(value@)) {
                        loaded matches Ok(c) && c@ == (ConfigView {
                            themes: builtin_themes_spec(),
                            saved_theme: Some(ascii_lowercase(trimmed(value@))),
                            display: crate::config::default_display(),
                        })
                    } else {
                        loaded matches Err(e) && e@ == ConfigErrorView::UnknownLegacyTheme(trimmed(value@))
                    },
                    None => loaded matches Ok(c) && c@ == (ConfigView {
                        themes: builtin_themes_spec(),
                        saved_theme: None,
                        display: crate::config::default_display(),
                    }),
                },
            },
    {
        match config {
            Some(text) => Self::from_toml(text),
            None => match legacy {
                Some(value) => Self::with_legacy_theme(value),
                None => Ok(Self::built_ins()),
            },
        }
    }

    /// Reads a configuration file's text.
    pub fn from_toml(contents: &str) -> (config: Result<Config, ConfigError>)
        ensures
            config matches Ok(c) ==> c.wf(),
            match parsed_toml(contents@) {
                None => config matches Err(ConfigError::InvalidToml(_)),
                Some(root) => config_result(config) == config_from_root(root),
            },
    {
        match parse_toml(contents) {
            Ok(document) => Self::from_document(&document),
            Err(error) => Err(ConfigError::InvalidToml(toml_error_text(&error))),
        }
    }

    /// Reads a parsed configuration document.
    pub fn from_document(document: &toml_edit::DocumentMut) -> (config: Result<Config, ConfigError>)
        ensures
            config matches Ok(c) ==> c.wf(),
            config_result(config) == config_from_root(document_model(*document)),
    {
        proof {
            lemma_loaded_catalog_distinct(document_model(*document));
        }
        let display = DisplaySettings::from_document(document)?;
        let root = root_table(document);
        let saved_theme = saved_theme_from(root)?;
        let themes = built_in_themes();
        let themes_table = match table_get(root, "themes") {
            None => return Ok(Config { themes, saved_theme, display }),
            Some(item) => match item_as_table(item) {
                Some(t) => t,
                None => return Err(ConfigError::ThemesNotTable),
            },
        };
        let themes = read_custom_themes(themes_table, themes)?;
        Ok(Config { themes, saved_theme, display })
    }

    /// The theme called `name` (trimmed, ASCII case aside).
    pub fn find(&self, name: &str) -> (theme: Option<&Theme>)
        ensures
            match theme_position(self@.themes, trimmed(name@)) {
                Some(i) => theme matches Some(t) && t@ == self@.themes[i],
                None => theme is None,
            },
    {
        let key = trim_chars(&chars_of(name));
        match find_theme(&self.themes, &key) {
            Some(i) => Some(&self.themes[i]),
            None => None,
        }
    }

    /// The saved theme name.
    pub fn saved_theme(&self) -> (saved: Option<&str>)
        ensures
            match saved {
                Some(s) => self@.saved_theme == Some(s@),
                None => self@.saved_theme is None,
            },
    {
        match &self.saved_theme {
            Some(s) => Some(s.as_str()),
            None => None,
        }
    }

    /// The names of the themes, in catalog order.
    pub fn names(&self) -> (names: Vec<String>)
        ensures
            names@.len() == self@.themes.len(),
            forall|i: int| 0 <= i < names@.len() ==> #[trigger] names@[i]@ == self@.themes[i].name,
    {
        let mut out: Vec<String> = Vec::new();
        let mut i: usize = 0;
        while i < self.themes.len()
            invariant
                i <= self.themes@.len(),
                out@.len() == i,
                forall|k: int| 0 <= k < i ==> #[trigger] out@[k]@ == self.themes@[k]@.name,
            decreases self.themes@.len() - i,
        {
            out.push(self.themes[i].name().to_owned());
            i += 1;
        }
        out
    }

    /// The display preferences.
    pub fn display(&self) -> (display: &DisplaySettings)
        ensures
            display@ == self@.display,
    {
        &self.display
    }

    /// The theme after `current` in the catalog, wrapping around; the second
    /// theme when `current` is unknown.
    pub fn next(&self, current: &str) -> (theme: Theme)
        requires
            self.wf(),
        ensures
            theme@ == self@.themes[next_position(self@.themes, current@)],
    {
        let index = match find_theme(&self.themes, &chars_of(current)) {
            Some(i) => i,
            None => 0,
        };
        let next = if index < self.themes.len() - 1 { index + 1 } else { 0 };
        proof {
            assert(theme_views(self.themes@)[next as int] == self.themes@[next as int]@);
        }
        self.themes[next].clone()
    }

    /// The theme before `current` in the catalog, wrapping around; the last
    /// theme when `current` is unknown.
    pub fn previous(&self, current: &str) -> (theme: Theme)
        requires
            self.wf(),
        ensures
            theme@ == self@.themes[previous_position(self@.themes, current@)],
    {
        let index = match find_theme(&self.themes, &chars_of(current)) {
            Some(i) => i,
            None => 0,
        };
        let previous = if index == 0 { self.themes.len() - 1 } else { index - 1 };
        proof {
            assert(theme_views(self.themes@)[previous as int] == self.themes@[previous as int]@);
        }
        self.themes[previous].clone()
    }

    /// Cycling back undoes cycling forward, and forward undoes back: the
    /// theme before the one `next` gives, and the theme after the one
    /// `previous` gives, is the theme cycling started from.
    pub proof fn lemma_cycle_round_trip(&self, current: Seq<char>)
        requires
            self.wf(),
        ensures
            previous_position(self@.themes, self@.themes[next_position(self@.themes, current)].name)
                == cycle_start(self@.themes, current),
            next_position(self@.themes, self@.themes[previous_position(self@.themes, current)].name)
                == cycle_start(self@.themes, current),
    {
        lemma_cycle_round_trip(self@.themes, current);
    }

    /// The catalog when only the legacy saved-theme file exists: its trimmed
    /// content must name a built-in theme, saved in lowercase.
    pub fn with_legacy_theme(legacy: &str) -> (config: Result<Config, ConfigError>)
        ensures
            config matches Ok(c) ==> c.wf(),
            is_builtin(trimmed(legacy@)) ==> (config matches Ok(c) && c@ == (ConfigView {
                themes: builtin_themes_spec(),
                saved_theme: Some(ascii_lowercase(trimmed(legacy@))),
                display: crate::config::default_display(),
            })),
            !is_builtin(trimmed(legacy@)) ==> (config matches Err(e) && e@
                == ConfigErrorView::UnknownLegacyTheme(trimmed(legacy@))),
    {
        let value = string_of(&trim_chars(&chars_of(legacy)));
        if !is_builtin_name(value.as_str()) {
            return Err(ConfigError::UnknownLegacyTheme(value));
        }
        let mut config = Config::built_ins();
        config.saved_theme = Some(string_of(&to_ascii_lowercase(&chars_of(value.as_str()))));
        Ok(config)
    }
}

} // verus!
