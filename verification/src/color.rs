//! Terminal colors, palettes and themes.

use vstd::prelude::*;

verus! {

/// A terminal color: one of the sixteen named colors, the terminal's
/// default, a 24-bit color, or an entry of the 256-color table.
#[derive(Clone, Copy, Debug, PartialEq, Eq, Structural)]
pub enum Color {
    Reset,
    Black,
    Red,
    Green,
    Yellow,
    Blue,
    Magenta,
    Cyan,
    Gray,
    DarkGray,
    LightRed,
    LightGreen,
    LightYellow,
    LightBlue,
    LightMagenta,
    LightCyan,
    White,
    Rgb(u8, u8, u8),
    Indexed(u8),
}

/// The colors and emphasis rules that a theme gives the interface.
#[derive(Clone, Copy, Debug, PartialEq, Eq, Structural)]
pub struct Palette {
    pub accent: Color,
    pub text: Color,
    pub muted: Color,
    pub title: Color,
    pub error: Color,
    pub symlink: Color,
    pub emphasis_foreground: Color,
    pub emphasis_background: Color,
    pub reverse_emphasis: bool,
    pub dim_muted: bool,
}

/// A named palette.
#[derive(Debug, PartialEq, Eq)]
pub struct Theme {
    name: String,
    palette: Palette,
}

/// A theme as plain values.
pub struct ThemeView {
    pub name: Seq<char>,
    pub palette: Palette,
}

impl View for Theme {
    type V = ThemeView;

    closed spec fn view(&self) -> ThemeView {
        ThemeView { name: self.name@, palette: self.palette }
    }
}

impl Clone for Theme {
    fn clone(&self) -> (copy: Self)
        ensures
            copy == *self,
    {
        Theme { name: self.name.clone(), palette: self.palette }
    }
}

/// The palette of the `auto` theme, which follows the terminal's own colors.
pub open spec fn auto_palette_spec() -> Palette {
    Palette {
        accent: Color::Cyan,
        text: Color::Reset,
        muted: Color::Gray,
        title: Color::Cyan,
        error: Color::Red,
        symlink: Color::Magenta,
        emphasis_foreground: Color::Reset,
        emphasis_background: Color::Reset,
        reverse_emphasis: true,
        dim_muted: false,
    }
}

/// The palette of the `auto` theme.
pub fn auto_palette() -> (palette: Palette)
    ensures
        palette == auto_palette_spec(),
{
    Palette {
        accent: Color::Cyan,
        text: Color::Reset,
        muted: Color::Gray,
        title: Color::Cyan,
        error: Color::Red,
        symlink: Color::Magenta,
        emphasis_foreground: Color::Reset,
        emphasis_background: Color::Reset,
        reverse_emphasis: true,
        dim_muted: false,
    }
}

impl Theme {
    /// A theme with the given name and palette.
    pub fn new(name: &str, palette: Palette) -> (theme: Theme)
        ensures
            theme@.name == name@,
            theme@.palette == palette,
    {
        Theme { name: name.to_owned(), palette }
    }

    /// The `auto` theme.
    pub fn auto() -> (theme: Theme)
        ensures
            theme@.name == "auto"@,
            theme@.palette == auto_palette_spec(),
    {
        Theme::new("auto", auto_palette())
    }

    /// The theme's name.
    pub fn name(&self) -> (name: &str)
        ensures
            name@ == self@.name,
    {
        self.name.as_str()
    }

    /// The theme's palette.
    pub fn palette(&self) -> (palette: Palette)
        ensures
            palette == self@.palette,
    {
        self.palette
    }
}

} // verus!
