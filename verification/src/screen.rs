//! What the explorer draws: the header, the current listing, the preview,
//! the divider and the footer, as lines of styled text placed in areas.

use crate::app::{App, AppView};
use crate::color::Color;
use crate::listing::{display_name_of, Entry};
use crate::paths::bytes_of_path;
use crate::text::{chars_of, lossy, lossy_text, push_char, string_of};
use ratatui::layout::{Constraint as Part, Layout, Rect as Area};
use vstd::prelude::*;

verus! {

/// Below this width the explorer shows one pane.
pub const TWO_PANE_MIN_WIDTH: u16 = 58;

/// How text is drawn: colors where set, and whether it is bold.
#[derive(Clone, Copy, Debug, PartialEq, Eq, Structural)]
pub struct Style {
    pub fg: Option<Color>,
    pub bg: Option<Color>,
    pub bold: bool,
}

/// A run of text in one style.
#[derive(Debug)]
pub struct Span {
    pub text: String,
    pub style: Style,
}

/// A span as plain values.
pub struct SpanView {
    pub text: Seq<char>,
    pub style: Style,
}

impl View for Span {
    type V = SpanView;

    open spec fn view(&self) -> SpanView {
        SpanView { text: self.text@, style: self.style }
    }
}

/// One line of spans, with a style under them all.
#[derive(Debug)]
pub struct Line {
    pub spans: Vec<Span>,
    pub style: Style,
}

/// A line as plain values.
pub struct LineView {
    pub spans: Seq<SpanView>,
    pub style: Style,
}

impl View for Line {
    type V = LineView;

    open spec fn view(&self) -> LineView {
        LineView { spans: self.spans@.map_values(|s: Span| s@), style: self.style }
    }
}

/// The lines as plain values.
pub open spec fn line_views(lines: Seq<Line>) -> Seq<LineView> {
    lines.map_values(|l: Line| l@)
}

/// A rectangle of terminal cells.
#[derive(Clone, Copy, Debug, PartialEq, Eq, Structural)]
pub struct Rect {
    pub x: u16,
    pub y: u16,
    pub width: u16,
    pub height: u16,
}

/// Lines drawn into an area, over a style for the whole area.
#[derive(Debug)]
pub struct Panel {
    pub area: Rect,
    pub lines: Vec<Line>,
    pub style: Style,
}

/// A panel as plain values.
pub struct PanelView {
    pub area: Rect,
    pub lines: Seq<LineView>,
    pub style: Style,
}

impl View for Panel {
    type V = PanelView;

    open spec fn view(&self) -> PanelView {
        PanelView { area: self.area, lines: line_views(self.lines@), style: self.style }
    }
}

/// The display width that `UnicodeWidthChar::width` gives a character:
/// `None` for control characters.
pub uninterp spec fn char_cells(c: char) -> Option<usize>;

/// The display width that `UnicodeWidthStr::width` gives a string.
pub uninterp spec fn text_cells(s: Seq<char>) -> usize;

/// Calls `UnicodeWidthChar::width`. Claimed of it: its result depends on
/// the character alone, and is what `char_cells` names.
#[verifier::external_body]
pub(crate) fn char_width(c: char) -> (cells: Option<usize>)
    ensures
        cells == char_cells(c),
{
    unicode_width::UnicodeWidthChar::width(c)
}

/// Calls `UnicodeWidthStr::width`. Claimed of it: its result depends on
/// the characters alone, and is what `text_cells` names.
#[verifier::external_body]
pub(crate) fn text_width(s: &str) -> (cells: usize)
    ensures
        cells == text_cells(s@),
{
    unicode_width::UnicodeWidthStr::width(s)
}

/// The columns a character takes, control characters counting none.
pub open spec fn cells_of(c: char) -> int {
    match char_cells(c) {
        Some(w) => w as int,
        None => 0,
    }
}

/// How many leading characters fit before `max` columns are reached, given
/// `used` columns already taken.
pub open spec fn kept_prefix(s: Seq<char>, used: int, max: int) -> int
    decreases s.len(),
{
    if s.len() == 0 {
        0
    } else if used + cells_of(s[0]) >= max {
        0
    } else {
        1 + kept_prefix(s.drop_first(), used + cells_of(s[0]), max)
    }
}

/// How many trailing characters fit within `wanted` columns, given `used`
/// columns already taken.
pub open spec fn kept_suffix(s: Seq<char>, used: int, wanted: int) -> int
    decreases s.len(),
{
    if s.len() == 0 {
        0
    } else if used + cells_of(s.last()) > wanted {
        0
    } else {
        1 + kept_suffix(s.drop_last(), used + cells_of(s.last()), wanted)
    }
}

/// `value` cut on the right to fit `max` columns, ending in `…` where cut.
pub open spec fn shortened_right(value: Seq<char>, max: int) -> Seq<char> {
    if text_cells(value) <= max {
        value
    } else if max == 0 {
        Seq::empty()
    } else if max == 1 {
        seq!['…']
    } else {
        value.take(kept_prefix(value, 0, max)).push('…')
    }
}

/// `value` cut on the left to fit `max` columns, starting with `…` where cut.
pub open spec fn shortened_left(value: Seq<char>, max: int) -> Seq<char> {
    if text_cells(value) <= max {
        value
    } else if max == 0 {
        Seq::empty()
    } else if max == 1 {
        seq!['…']
    } else {
        seq!['…'] + value.skip(value.len() - kept_suffix(value, 0, max - 1))
    }
}

/// `a - b`, or 0 where `b` is larger.
pub open spec fn sat_sub(a: int, b: int) -> int {
    if a > b {
        a - b
    } else {
        0
    }
}

/// `prefix` and `value` cut to fit `width`, padded with spaces to `width`.
pub open spec fn filled_row(prefix: Seq<char>, value: Seq<char>, width: int) -> Seq<char> {
    let out = prefix + shortened_right(value, sat_sub(width, text_cells(prefix) as int));
    out + Seq::new(sat_sub(width, text_cells(out) as int) as nat, |i: int| ' ')
}

proof fn lemma_kept_prefix_step(s: Seq<char>, i: int, used: int, max: int)
    requires
        0 <= i < s.len(),
        used + cells_of(s[i]) < max,
    ensures
        kept_prefix(s.skip(i), used, max) == 1 + kept_prefix(s.skip(i + 1), used + cells_of(s[i]), max),
{
    assert(s.skip(i).drop_first() =~= s.skip(i + 1));
}

/// `value` cut on the right to fit `max_width` columns, ending in `…` where cut.
pub fn shorten_right(value: &str, max_width: usize) -> (short: String)
    ensures
        short@ == shortened_right(value@, max_width as int),
{
    proof {
        reveal_strlit("…");
    }
    if text_width(value) <= max_width {
        return value.to_owned();
    }
    if max_width == 0 {
        return String::new();
    }
    if max_width == 1 {
        return "…".to_owned();
    }
    let chars = chars_of(value);
    let mut i: usize = 0;
    let mut width: usize = 0;
    proof {
        assert(chars@.skip(0) =~= chars@);
    }
    while i < chars.len()
        invariant
            chars@ == value@,
            i <= chars@.len(),
            width < max_width,
            kept_prefix(value@, 0, max_width as int) == i + kept_prefix(chars@.skip(i as int), width as int, max_width as int),
        ensures
            i <= chars@.len(),
            width < max_width,
            kept_prefix(value@, 0, max_width as int) == i + kept_prefix(chars@.skip(i as int), width as int, max_width as int),
            i == chars@.len() || width + cells_of(chars@[i as int]) >= max_width,
        decreases chars@.len() - i,
    {
        let cw = match char_width(chars[i]) {
            Some(w) => w,
            None => 0,
        };
        if cw >= max_width - width {
            break;
        }
        proof {
            lemma_kept_prefix_step(chars@, i as int, width as int, max_width as int);
        }
        width += cw;
        i += 1;
    }
    let mut kept: Vec<char> = Vec::new();
    let mut k: usize = 0;
    while k < i
        invariant
            k <= i <= chars@.len(),
            kept@ == chars@.take(k as int),
        decreases i - k,
    {
        kept.push(chars[k]);
        proof {
            assert(chars@.take(k + 1) =~= chars@.take(k as int).push(chars@[k as int]));
        }
        k += 1;
    }
    proof {
        if i < chars@.len() {
            assert(chars@.skip(i as int)[0] == chars@[i as int]);
            assert(kept_prefix(chars@.skip(i as int), width as int, max_width as int) == 0);
        } else {
            assert(chars@.skip(i as int).len() == 0);
        }
    }
    let mut out = string_of(&kept);
    push_char(&mut out, '…');
    out
}

proof fn lemma_kept_suffix_step(s: Seq<char>, j: int, used: int, wanted: int)
    requires
        0 < j <= s.len(),
        used + cells_of(s[j - 1]) <= wanted,
    ensures
        kept_suffix(s.take(j), used, wanted) == 1 + kept_suffix(s.take(j - 1), used + cells_of(s[j - 1]), wanted),
{
    assert(s.take(j).drop_last() =~= s.take(j - 1));
}

/// `value` cut on the left to fit `max_width` columns, starting with `…` where cut.
pub fn shorten_left(value: &str, max_width: usize) -> (short: String)
    ensures
        short@ == shortened_left(value@, max_width as int),
{
    proof {
        reveal_strlit("…");
    }
    if text_width(value) <= max_width {
        return value.to_owned();
    }
    if max_width == 0 {
        return String::new();
    }
    if max_width == 1 {
        return "…".to_owned();
    }
    let wanted = max_width - 1;
    let chars = chars_of(value);
    let n = chars.len();
    let mut j: usize = n;
    let mut width: usize = 0;
    proof {
        assert(chars@.take(n as int) =~= chars@);
    }
    while j > 0
        invariant
            chars@ == value@,
            n == chars@.len(),
            j <= n,
            width <= wanted,
            kept_suffix(value@, 0, wanted as int) == (n - j) + kept_suffix(chars@.take(j as int), width as int, wanted as int),
        ensures
            j <= n,
            width <= wanted,
            kept_suffix(value@, 0, wanted as int) == (n - j) + kept_suffix(chars@.take(j as int), width as int, wanted as int),
            j == 0 || width + cells_of(chars@[j - 1]) > wanted,
        decreases j,
    {
        let cw = match char_width(chars[j - 1]) {
            Some(w) => w,
            None => 0,
        };
        if cw > wanted - width {
            break;
        }
        proof {
            lemma_kept_suffix_step(chars@, j as int, width as int, wanted as int);
        }
        width += cw;
        j -= 1;
    }
    proof {
        if j > 0 {
            assert(chars@.take(j as int).last() == chars@[j - 1]);
            assert(kept_suffix(chars@.take(j as int), width as int, wanted as int) == 0);
        } else {
            assert(chars@.take(0).len() == 0);
        }
    }
    let mut out = "…".to_owned();
    let mut k: usize = j;
    while k < n
        invariant
            j <= k <= n,
            n == chars@.len(),
            out@ == seq!['…'] + chars@.subrange(j as int, k as int),
        decreases n - k,
    {
        push_char(&mut out, chars[k]);
        proof {
            assert(chars@.subrange(j as int, k + 1) =~= chars@.subrange(j as int, k as int).push(chars@[k as int]));
        }
        k += 1;
    }
    proof {
        reveal_strlit("…");
        assert(chars@.subrange(j as int, n as int) =~= chars@.skip(j as int));
    }
    out
}

/// `prefix` and `value` cut to fit `width` columns, padded with spaces.
pub fn fill_row(prefix: &str, value: &str, width: usize) -> (row: String)
    ensures
        row@ == filled_row(prefix@, value@, width as int),
{
    let prefix_width = text_width(prefix);
    let name_width = if width > prefix_width { width - prefix_width } else { 0 };
    let mut output = prefix.to_owned();
    output.append(shorten_right(value, name_width).as_str());
    let used = text_width(output.as_str());
    let padding = if width > used { width - used } else { 0 };
    let ghost base = output@;
    let mut k: usize = 0;
    while k < padding
        invariant
            k <= padding,
            output@ == base + Seq::new(k as nat, |i: int| ' '),
        decreases padding - k,
    {
        push_char(&mut output, ' ');
        proof {
            assert(base + Seq::new((k + 1) as nat, |i: int| ' ') =~= (base + Seq::new(k as nat, |i: int| ' ')).push(' '));
        }
        k += 1;
    }
    output
}


/// The accent color of the explorer.
pub const ACCENT: Color = Color::LightCyan;

/// The color of prominent text.
pub const TEXT: Color = Color::White;

/// The color of secondary text.
pub const MUTED: Color = Color::Gray;

/// No colors and no emphasis.
pub open spec fn plain() -> Style {
    Style { fg: None, bg: None, bold: false }
}

/// A foreground color.
pub open spec fn colored(c: Color) -> Style {
    Style { fg: Some(c), bg: None, bold: false }
}

/// A foreground color, bold.
pub open spec fn bold(c: Color) -> Style {
    Style { fg: Some(c), bg: None, bold: true }
}

/// The highlighted row and the name tag: black on the accent, bold.
pub open spec fn highlight() -> Style {
    Style { fg: Some(Color::Black), bg: Some(ACCENT), bold: true }
}

/// A line of one unstyled span, drawn in `style`.
pub open spec fn styled_line_view(text: Seq<char>, style: Style) -> LineView {
    LineView { spans: seq![SpanView { text, style: plain() }], style }
}

/// A line of styled spans.
pub open spec fn spans_line_view(spans: Seq<SpanView>) -> LineView {
    LineView { spans, style: plain() }
}

/// Symbolic links in magenta, directories in bold accent, files muted.
pub open spec fn entry_style_spec(e: Entry) -> Style {
    if e.is_symlink {
        colored(Color::LightMagenta)
    } else if e.is_dir {
        bold(ACCENT)
    } else {
        colored(MUTED)
    }
}

/// The style an entry is listed in.
pub fn entry_style(entry: &Entry) -> (style: Style)
    ensures
        style == entry_style_spec(*entry),
{
    if entry.is_symlink {
        Style { fg: Some(Color::LightMagenta), bg: None, bold: false }
    } else if entry.is_dir {
        Style { fg: Some(ACCENT), bg: None, bold: true }
    } else {
        Style { fg: Some(MUTED), bg: None, bold: false }
    }
}

fn plain_style() -> (style: Style)
    ensures
        style == plain(),
{
    Style { fg: None, bg: None, bold: false }
}

fn styled_line(text: String, style: Style) -> (line: Line)
    ensures
        line@ == styled_line_view(text@, style),
{
    let mut spans: Vec<Span> = Vec::new();
    spans.push(Span { text, style: plain_style() });
    let line = Line { spans, style };
    proof {
        assert(line@.spans =~= seq![SpanView { text: text@, style: plain() }]);
    }
    line
}

fn spans_line(spans: Vec<Span>) -> (line: Line)
    ensures
        line@ == spans_line_view(spans@.map_values(|s: Span| s@)),
{
    Line { spans, style: plain_style() }
}

/// The row of entry `i`: the highlighted one marked and drawn highlighted.
pub open spec fn entry_row(s: AppView, i: int, width: int) -> LineView {
    if i == s.selected {
        styled_line_view(filled_row("› "@, display_name_of(s.entries[i]), width), highlight())
    } else {
        styled_line_view(filled_row("  "@, display_name_of(s.entries[i]), width), entry_style_spec(s.entries[i]))
    }
}

/// The smaller of two integers.
pub open spec fn min_int(a: int, b: int) -> int {
    if a < b {
        a
    } else {
        b
    }
}

/// The status line, if there is a status.
pub open spec fn status_lines(s: AppView, width: int) -> Seq<LineView> {
    match s.status {
        Some(t) => seq![styled_line_view(shortened_right(t, width), colored(Color::LightRed))],
        None => Seq::empty(),
    }
}

/// The first listed entry: the listing scrolls just far enough to show the highlight.
pub open spec fn list_offset(s: AppView, rows: int) -> int {
    sat_sub(s.selected + 1, rows)
}

/// The lines of the current listing in an area of `width` by `height`: the
/// status, `(empty)` for an empty listing, then the rows that fit, scrolled
/// to show the highlight.
pub open spec fn current_lines(s: AppView, width: int, height: int) -> Seq<LineView> {
    let status = status_lines(s, width);
    let rows = sat_sub(height, status.len() as int);
    let offset = list_offset(s, rows);
    let empty = if s.entries.len() == 0 && status.len() < height {
        seq![styled_line_view("  (empty)"@, colored(MUTED))]
    } else {
        Seq::empty()
    };
    let count = min_int(rows, sat_sub(s.entries.len() as int, offset));
    status + empty + Seq::new(count as nat, |k: int| entry_row(s, offset + k, width))
}

/// The lines of the current listing.
pub fn current_entries_lines(app: &App, width: u16, height: u16) -> (lines: Vec<Line>)
    requires
        app.wf(),
    ensures
        line_views(lines@) == current_lines(app@, width as int, height as int),
{
    let w = width as usize;
    let h = height as usize;
    let mut lines: Vec<Line> = Vec::new();
    if let Some(status) = app.status() {
        lines.push(styled_line(shorten_right(status, w), Style { fg: Some(Color::LightRed), bg: None, bold: false }));
    }
    proof {
        assert(line_views(lines@) =~= status_lines(app@, w as int));
    }
    let ghost status = line_views(lines@);
    let rows = if h > lines.len() { h - lines.len() } else { 0 };
    let selected = app.selected();
    let entries = app.entries();
    assert(selected < entries.len() || selected == 0);
    let offset = if selected + 1 > rows { selected + 1 - rows } else { 0 };
    let mut empty_shown: bool = false;
    if entries.len() == 0 && lines.len() < h {
        lines.push(styled_line("  (empty)".to_owned(), Style { fg: Some(MUTED), bg: None, bold: false }));
        empty_shown = true;
    }
    let ghost head = line_views(lines@);
    let remaining = if entries.len() > offset { entries.len() - offset } else { 0 };
    let count = if rows < remaining { rows } else { remaining };
    let mut k: usize = 0;
    while k < count
        invariant
            app.wf(),
            entries@ == app@.entries,
            selected == app@.selected,
            offset == list_offset(app@, rows as int),
            count == min_int(rows as int, sat_sub(entries@.len() as int, offset as int)),
            k <= count,
            line_views(lines@) == head + Seq::new(k as nat, |j: int| entry_row(app@, offset + j, w as int)),
        decreases count - k,
    {
        let i = offset + k;
        let entry = &entries[i];
        let name = entry.display_name();
        let line = if i == selected {
            styled_line(fill_row("› ", name.as_str(), w), Style { fg: Some(Color::Black), bg: Some(ACCENT), bold: true })
        } else {
            styled_line(fill_row("  ", name.as_str(), w), entry_style(entry))
        };
        let ghost before = lines@;
        lines.push(line);
        proof {
            assert(line_views(lines@) =~= line_views(before).push(line@));
            assert(head + Seq::new((k + 1) as nat, |j: int| entry_row(app@, offset + j, w as int)) =~= (head
                + Seq::new(k as nat, |j: int| entry_row(app@, offset + j, w as int))).push(
                entry_row(app@, offset + k, w as int),
            ));
        }
        k += 1;
    }
    proof {
        let empty = if app@.entries.len() == 0 && status.len() < h {
            seq![styled_line_view("  (empty)"@, colored(MUTED))]
        } else {
            Seq::empty()
        };
        assert(head =~= status + empty);
    }
    lines
}

/// The lines of the preview in an area of `width` by `height`: the message,
/// then the previewed entries that fit.
pub open spec fn preview_lines_spec(s: AppView, width: int, height: int) -> Seq<LineView> {
    let message = match s.preview.message {
        Some(m) => seq![styled_line_view(shortened_right("  "@ + m, width), colored(MUTED))],
        None => Seq::empty(),
    };
    let count = min_int(sat_sub(height, message.len() as int), s.preview.entries.len() as int);
    message + Seq::new(
        count as nat,
        |k: int|
            styled_line_view(
                filled_row("  "@, display_name_of(s.preview.entries[k]), width),
                entry_style_spec(s.preview.entries[k]),
            ),
    )
}

/// The lines of the preview.
pub fn preview_lines(app: &App, width: u16, height: u16) -> (lines: Vec<Line>)
    ensures
        line_views(lines@) == preview_lines_spec(app@, width as int, height as int),
{
    let w = width as usize;
    let h = height as usize;
    let preview = app.preview();
    let mut lines: Vec<Line> = Vec::new();
    if let Some(message) = preview.message() {
        let mut text = "  ".to_owned();
        text.append(message);
        lines.push(styled_line(shorten_right(text.as_str(), w), Style { fg: Some(MUTED), bg: None, bold: false }));
    }
    let ghost head = line_views(lines@);
    let entries = preview.entries();
    let rows = if h > lines.len() { h - lines.len() } else { 0 };
    let count = if rows < entries.len() { rows } else { entries.len() };
    let mut k: usize = 0;
    while k < count
        invariant
            entries@ == app@.preview.entries,
            count <= entries@.len(),
            k <= count,
            line_views(lines@) == head + Seq::new(
                k as nat,
                |j: int|
                    styled_line_view(
                        filled_row("  "@, display_name_of(app@.preview.entries[j]), w as int),
                        entry_style_spec(app@.preview.entries[j]),
                    ),
            ),
        decreases count - k,
    {
        let name = entries[k].display_name();
        let line = styled_line(fill_row("  ", name.as_str(), w), entry_style(&entries[k]));
        let ghost before = lines@;
        lines.push(line);
        proof {
            let f = |j: int|
                styled_line_view(
                    filled_row("  "@, display_name_of(app@.preview.entries[j]), w as int),
                    entry_style_spec(app@.preview.entries[j]),
                );
            assert(line_views(lines@) =~= line_views(before).push(line@));
            assert(head + Seq::new((k + 1) as nat, f) =~= (head + Seq::new(k as nat, f)).push(f(k as int)));
        }
        k += 1;
    }
    lines
}

/// The preview's title line: `next ·` and the previewed entry's label.
pub open spec fn preview_title_spec(s: AppView, width: int) -> LineView {
    spans_line_view(
        seq![
            SpanView { text: " next · "@, style: bold(Color::LightBlue) },
            SpanView { text: shortened_right(s.preview.label, sat_sub(width, 8)), style: bold(TEXT) },
        ],
    )
}

/// The preview's title line.
pub fn preview_title(app: &App, width: u16) -> (line: Line)
    ensures
        line@ == preview_title_spec(app@, width as int),
{
    let label_width = if width > 8 { (width - 8) as usize } else { 0 };
    let mut spans: Vec<Span> = Vec::new();
    spans.push(Span { text: " next · ".to_owned(), style: Style { fg: Some(Color::LightBlue), bg: None, bold: true } });
    spans.push(Span { text: shorten_right(app.preview().label(), label_width), style: Style { fg: Some(TEXT), bg: None, bold: true } });
    let line = spans_line(spans);
    proof {
        assert(line@.spans =~= preview_title_spec(app@, width as int).spans);
    }
    line
}

/// The header: the name tag and the directory on display, cut on the left to fit.
pub open spec fn header_spec(s: AppView, width: int) -> LineView {
    spans_line_view(
        seq![
            SpanView { text: " de "@, style: highlight() },
            SpanView { text: " "@, style: plain() },
            SpanView { text: shortened_left(lossy_text(s.current_dir), sat_sub(width, 5)), style: bold(TEXT) },
        ],
    )
}

/// The directory on display, as text.
fn dir_text(app: &App) -> (text: String)
    ensures
        text@ == lossy_text(app@.current_dir),
{
    lossy(bytes_of_path(app.current_dir()).as_slice())
}

/// The header line.
pub fn header_line(app: &App, width: u16) -> (line: Line)
    ensures
        line@ == header_spec(app@, width as int),
{
    let path_width = if width > 5 { (width - 5) as usize } else { 0 };
    let mut spans: Vec<Span> = Vec::new();
    spans.push(Span { text: " de ".to_owned(), style: Style { fg: Some(Color::Black), bg: Some(ACCENT), bold: true } });
    spans.push(Span { text: " ".to_owned(), style: plain_style() });
    spans.push(Span { text: shorten_left(dir_text(app).as_str(), path_width), style: Style { fg: Some(TEXT), bg: None, bold: true } });
    let line = spans_line(spans);
    proof {
        assert(line@.spans =~= header_spec(app@, width as int).spans);
    }
    line
}

/// A key name in the footer.
pub open spec fn key_span(text: Seq<char>) -> SpanView {
    SpanView { text, style: bold(ACCENT) }
}

/// A hint in the footer.
pub open spec fn hint_span(text: Seq<char>) -> SpanView {
    SpanView { text, style: colored(MUTED) }
}

/// The footer: the key hints that fit the width, with the hidden-entry
/// setting at 64 columns and more.
pub open spec fn footer_spec(show_hidden: bool, width: int) -> LineView {
    if width >= 64 {
        spans_line_view(
            seq![
                key_span(" ↑↓"@),
                hint_span(" select  "@),
                key_span("→"@),
                hint_span(" open  "@),
                key_span("←"@),
                hint_span(" parent  "@),
                key_span("enter"@),
                hint_span(" go  "@),
                key_span("esc"@),
                hint_span(" cancel  "@),
                key_span("."@),
                hint_span(if show_hidden {
                    " hidden:on"@
                } else {
                    " hidden:off"@
                }),
            ],
        )
    } else if width >= 34 {
        spans_line_view(
            seq![
                key_span(" ↑↓"@),
                hint_span(" select  "@),
                key_span("→"@),
                hint_span(" open  "@),
                key_span("←"@),
                hint_span(" parent  "@),
                key_span("enter"@),
                hint_span(" go  "@),
                key_span("esc"@),
            ],
        )
    } else {
        spans_line_view(
            seq![
                key_span(" ↑↓"@),
                hint_span("  "@),
                key_span("→"@),
                hint_span("open  "@),
                key_span("←"@),
                hint_span("back  "@),
                key_span("↵"@),
                hint_span("go"@),
            ],
        )
    }
}

/// From 64 columns on, the footer ends with the hidden-entry setting:
/// ` hidden:on` while hidden entries are shown, ` hidden:off` while they are
/// not, so that the two settings give different footers.
pub proof fn lemma_footer_shows_hidden(width: int)
    requires
        width >= 64,
    ensures
        footer_spec(true, width).spans.last().text == " hidden:on"@,
        footer_spec(false, width).spans.last().text == " hidden:off"@,
        footer_spec(true, width) != footer_spec(false, width),
{
    reveal_strlit(" hidden:on");
    reveal_strlit(" hidden:off");
    assert(footer_spec(true, width).spans.last().text.len() != footer_spec(false, width).spans.last().text.len());
}


fn key(text: &str) -> (span: Span)
    ensures
        span@ == key_span(text@),
{
    Span { text: text.to_owned(), style: Style { fg: Some(ACCENT), bg: None, bold: true } }
}

fn hint(text: &str) -> (span: Span)
    ensures
        span@ == hint_span(text@),
{
    Span { text: text.to_owned(), style: Style { fg: Some(MUTED), bg: None, bold: false } }
}

/// The footer line.
pub fn footer_line(show_hidden: bool, width: u16) -> (line: Line)
    ensures
        line@ == footer_spec(show_hidden, width as int),
{
    let mut spans: Vec<Span> = Vec::new();
    if width >= 64 {
        spans.push(key(" ↑↓"));
        spans.push(hint(" select  "));
        spans.push(key("→"));
        spans.push(hint(" open  "));
        spans.push(key("←"));
        spans.push(hint(" parent  "));
        spans.push(key("enter"));
        spans.push(hint(" go  "));
        spans.push(key("esc"));
        spans.push(hint(" cancel  "));
        spans.push(key("."));
        spans.push(hint(if show_hidden { " hidden:on" } else { " hidden:off" }));
    } else if width >= 34 {
        spans.push(key(" ↑↓"));
        spans.push(hint(" select  "));
        spans.push(key("→"));
        spans.push(hint(" open  "));
        spans.push(key("←"));
        spans.push(hint(" parent  "));
        spans.push(key("enter"));
        spans.push(hint(" go  "));
        spans.push(key("esc"));
    } else {
        spans.push(key(" ↑↓"));
        spans.push(hint("  "));
        spans.push(key("→"));
        spans.push(hint("open  "));
        spans.push(key("←"));
        spans.push(hint("back  "));
        spans.push(key("↵"));
        spans.push(hint("go"));
    }
    let line = spans_line(spans);
    proof {
        assert(line@.spans =~= footer_spec(show_hidden, width as int).spans);
    }
    line
}

/// The divider between the panes: one `│` per row.
pub open spec fn divider_spec(height: int) -> Seq<LineView> {
    Seq::new(height as nat, |i: int| styled_line_view("│"@, colored(MUTED)))
}

/// The divider's lines.
pub fn divider_lines(height: u16) -> (lines: Vec<Line>)
    ensures
        line_views(lines@) == divider_spec(height as int),
{
    let mut lines: Vec<Line> = Vec::new();
    let mut k: u16 = 0;
    while k < height
        invariant
            k <= height,
            line_views(lines@) == divider_spec(k as int),
        decreases height - k,
    {
        let ghost before = lines@;
        lines.push(styled_line("│".to_owned(), Style { fg: Some(MUTED), bg: None, bold: false }));
        proof {
            assert(line_views(lines@) =~= line_views(before).push(styled_line_view("│"@, colored(MUTED))));
            assert(divider_spec(k + 1) =~= divider_spec(k as int).push(styled_line_view("│"@, colored(MUTED))));
        }
        k += 1;
    }
    lines
}


/// How an area is split: into rows stacked top to bottom, or into columns
/// side by side.
#[derive(Clone, Copy, Debug, PartialEq, Eq, Structural)]
pub enum Axis {
    Vertical,
    Horizontal,
}

/// A constraint on the size of one part of a split area.
#[derive(Clone, Copy, Debug, PartialEq, Eq, Structural)]
pub enum Constraint {
    Length(u16),
    Min(u16),
    Percentage(u16),
}

/// A title row over a list below it.
pub open spec fn titled_constraints() -> Seq<Constraint> {
    seq![Constraint::Length(1), Constraint::Min(0)]
}

/// The header, body and footer rows of the screen.
pub open spec fn screen_constraints() -> Seq<Constraint> {
    seq![Constraint::Length(1), Constraint::Min(1), Constraint::Length(1)]
}

/// The current pane, the divider and the preview pane, side by side.
pub open spec fn pane_constraints() -> Seq<Constraint> {
    seq![Constraint::Percentage(44), Constraint::Length(1), Constraint::Min(0)]
}

/// The splits the explorer makes: rows under `titled_constraints` or
/// `screen_constraints`, columns under `pane_constraints`.
pub open spec fn drawn_split(axis: Axis, constraints: Seq<Constraint>) -> bool {
    ||| axis == Axis::Vertical && (constraints == titled_constraints() || constraints == screen_constraints())
    ||| axis == Axis::Horizontal && constraints == pane_constraints()
}

/// `part` covers `area` across `axis`: the whole width of `area` for a row,
/// its whole height for a column.
pub open spec fn spans_across(axis: Axis, part: Rect, area: Rect) -> bool {
    match axis {
        Axis::Vertical => part.x == area.x && part.width == area.width,
        Axis::Horizontal => part.y == area.y && part.height == area.height,
    }
}

/// Calls ratatui's `Layout::split` with no margin and no spacing. Claimed of
/// it: one area per constraint, each covering `area` across `axis` (its
/// `changes_to_rects` copies the position and size of the split area across
/// the axis). Where each area lies along the axis comes from the kasuari
/// solver, whose pivot choice follows the order of its hash maps; that is not
/// stated, and two calls on one input are not claimed to agree.
/// `split` panics where `try_split` fails, which kasuari reports for a
/// required constraint that cannot be met (or, it says, for a bug of its
/// own). The required constraints ratatui adds fix the two ends of the area
/// and keep every boundary between them and every part's end after its
/// start, which any area meets, as its end is never before its start; the
/// length, minimum and percentage constraints are not required ones. The
/// contract admits only the splits the explorer makes.
#[verifier::external_body]
fn split_area(axis: Axis, constraints: &[Constraint], area: Rect) -> (areas: Vec<Rect>)
    requires
        drawn_split(axis, constraints@),
    ensures
        areas@.len() == constraints@.len(),
        forall|i: int| 0 <= i < areas@.len() ==> spans_across(axis, #[trigger] areas@[i], area),
{
    let mut parts: Vec<Part> = Vec::new();
    for c in constraints {
        parts.push(match *c {
            Constraint::Length(n) => Part::Length(n),
            Constraint::Min(n) => Part::Min(n),
            Constraint::Percentage(n) => Part::Percentage(n),
        });
    }
    let layout = match axis {
        Axis::Vertical => Layout::vertical(parts),
        Axis::Horizontal => Layout::horizontal(parts),
    };
    let whole = Area { x: area.x, y: area.y, width: area.width, height: area.height };
    layout.split(whole).iter().map(|r| Rect { x: r.x, y: r.y, width: r.width, height: r.height }).collect()
}

/// Where each part of the screen is drawn: the header, body and footer rows;
/// in the body, the current pane, the divider and the preview pane; in each
/// of the two panes, its title row and its list.
#[derive(Clone, Copy, Debug, PartialEq, Eq, Structural)]
pub struct ScreenAreas {
    pub header: Rect,
    pub body: Rect,
    pub footer: Rect,
    pub current: Rect,
    pub divider: Rect,
    pub preview: Rect,
    pub current_title: Rect,
    pub current_list: Rect,
    pub preview_title: Rect,
    pub preview_list: Rect,
}

/// What the layout gives a screen of `area`, as far as it is stated: on a
/// screen of three rows or more, the header, body and footer rows span its
/// width; where it is wide enough for two panes, the panes and the divider
/// span the body's height; in a pane of one row or more, the title row and
/// the list span the pane's width.
pub open spec fn laid_out(area: Rect, a: ScreenAreas) -> bool {
    area.width > 0 && area.height >= 3 ==> {
        &&& spans_across(Axis::Vertical, a.header, area)
        &&& spans_across(Axis::Vertical, a.body, area)
        &&& spans_across(Axis::Vertical, a.footer, area)
        &&& area.width >= TWO_PANE_MIN_WIDTH ==> {
            &&& spans_across(Axis::Horizontal, a.current, a.body)
            &&& spans_across(Axis::Horizontal, a.divider, a.body)
            &&& spans_across(Axis::Horizontal, a.preview, a.body)
            &&& a.current.height > 0 ==> spans_across(Axis::Vertical, a.current_title, a.current)
                && spans_across(Axis::Vertical, a.current_list, a.current)
            &&& a.preview.height > 0 ==> spans_across(Axis::Vertical, a.preview_title, a.preview)
                && spans_across(Axis::Vertical, a.preview_list, a.preview)
        }
    }
}

/// The panels as plain values.
pub open spec fn panel_views(panels: Seq<Panel>) -> Seq<PanelView> {
    panels.map_values(|p: Panel| p@)
}

/// A line of unstyled text.
pub open spec fn text_line(text: Seq<char>) -> LineView {
    styled_line_view(text, plain())
}

/// The current listing filling `list`.
pub open spec fn current_list_panel(s: AppView, list: Rect) -> PanelView {
    PanelView { area: list, lines: current_lines(s, list.width as int, list.height as int), style: plain() }
}

/// The current listing in `pane`: a ` current` title row in `title` over the
/// listing in `list`; nothing in a pane of no rows.
pub open spec fn titled_current_panels(s: AppView, pane: Rect, title: Rect, list: Rect) -> Seq<PanelView> {
    if pane.height == 0 {
        Seq::empty()
    } else {
        seq![
            PanelView { area: title, lines: seq![text_line(" current"@)], style: bold(Color::LightBlue) },
            current_list_panel(s, list),
        ]
    }
}

/// The current listing alone, filling `pane`; nothing in a pane of no rows.
pub open spec fn current_panels(s: AppView, pane: Rect) -> Seq<PanelView> {
    if pane.height == 0 {
        Seq::empty()
    } else {
        seq![current_list_panel(s, pane)]
    }
}

/// The preview in `pane`: its title row in `title` over its lines in `list`;
/// nothing in a pane of no rows.
pub open spec fn preview_panels(s: AppView, pane: Rect, title: Rect, list: Rect) -> Seq<PanelView> {
    if pane.height == 0 {
        Seq::empty()
    } else {
        seq![
            PanelView { area: title, lines: seq![preview_title_spec(s, title.width as int)], style: plain() },
            PanelView {
                area: list,
                lines: preview_lines_spec(s, list.width as int, list.height as int),
                style: plain(),
            },
        ]
    }
}

/// The body: with `two_panes`, the current pane, the divider and the
/// preview pane; else the current listing alone, filling the body.
pub open spec fn body_panels(s: AppView, a: ScreenAreas, two_panes: bool) -> Seq<PanelView> {
    if two_panes {
        titled_current_panels(s, a.current, a.current_title, a.current_list) + seq![
            PanelView { area: a.divider, lines: divider_spec(a.divider.height as int), style: plain() },
        ] + preview_panels(s, a.preview, a.preview_title, a.preview_list)
    } else {
        current_panels(s, a.body)
    }
}

/// What the explorer draws on a cleared `area`, its parts placed in `a`:
/// nothing on an empty area; on fewer than three rows only the directory,
/// cut on the left, bold in the accent color; else the header, the body (two
/// panes from `TWO_PANE_MIN_WIDTH` columns on) and the footer.
pub open spec fn screen_panels(s: AppView, area: Rect, a: ScreenAreas) -> Seq<PanelView> {
    if area.height == 0 || area.width == 0 {
        Seq::empty()
    } else if area.height < 3 {
        seq![
            PanelView {
                area,
                lines: seq![text_line(shortened_left(lossy_text(s.current_dir), area.width as int))],
                style: bold(ACCENT),
            },
        ]
    } else {
        seq![PanelView { area: a.header, lines: seq![header_spec(s, a.header.width as int)], style: plain() }]
            + body_panels(s, a, area.width >= TWO_PANE_MIN_WIDTH) + seq![
            PanelView { area: a.footer, lines: seq![footer_spec(s.show_hidden, a.footer.width as int)], style: plain() },
        ]
    }
}

fn one_line(line: Line) -> (lines: Vec<Line>)
    ensures
        line_views(lines@) == seq![line@],
{
    let mut lines: Vec<Line> = Vec::new();
    lines.push(line);
    proof {
        assert(line_views(lines@) =~= seq![line@]);
    }
    lines
}

fn push_panel(panels: &mut Vec<Panel>, panel: Panel)
    ensures
        panel_views(final(panels)@) == panel_views(old(panels)@).push(panel@),
{
    panels.push(panel);
    proof {
        assert(panel_views(final(panels)@) =~= panel_views(old(panels)@).push(panel@));
    }
}

/// Splits a pane into its title row and its list.
fn titled_areas(pane: Rect) -> (parts: (Rect, Rect))
    ensures
        spans_across(Axis::Vertical, parts.0, pane),
        spans_across(Axis::Vertical, parts.1, pane),
{
    let mut constraints: Vec<Constraint> = Vec::new();
    constraints.push(Constraint::Length(1));
    constraints.push(Constraint::Min(0));
    assert(constraints@ =~= titled_constraints());
    let parts = split_area(Axis::Vertical, constraints.as_slice(), pane);
    assert(spans_across(Axis::Vertical, parts@[0], pane) && spans_across(Axis::Vertical, parts@[1], pane));
    (parts[0], parts[1])
}

/// Where each part of a screen of `area` is drawn, from ratatui's layout:
/// only the splits that `area` needs are made, the other areas are empty.
pub fn screen_areas(area: Rect) -> (a: ScreenAreas)
    ensures
        laid_out(area, a),
{
    let none = Rect { x: 0, y: 0, width: 0, height: 0 };
    let mut a = ScreenAreas {
        header: none,
        body: none,
        footer: none,
        current: none,
        divider: none,
        preview: none,
        current_title: none,
        current_list: none,
        preview_title: none,
        preview_list: none,
    };
    if area.width == 0 || area.height < 3 {
        return a;
    }
    let mut rows_of: Vec<Constraint> = Vec::new();
    rows_of.push(Constraint::Length(1));
    rows_of.push(Constraint::Min(1));
    rows_of.push(Constraint::Length(1));
    assert(rows_of@ =~= screen_constraints());
    let rows = split_area(Axis::Vertical, rows_of.as_slice(), area);
    assert(spans_across(Axis::Vertical, rows@[0], area));
    assert(spans_across(Axis::Vertical, rows@[1], area));
    assert(spans_across(Axis::Vertical, rows@[2], area));
    a.header = rows[0];
    a.body = rows[1];
    a.footer = rows[2];
    if area.width >= TWO_PANE_MIN_WIDTH {
        let mut panes_of: Vec<Constraint> = Vec::new();
        panes_of.push(Constraint::Percentage(44));
        panes_of.push(Constraint::Length(1));
        panes_of.push(Constraint::Min(0));
        assert(panes_of@ =~= pane_constraints());
        let panes = split_area(Axis::Horizontal, panes_of.as_slice(), a.body);
        assert(spans_across(Axis::Horizontal, panes@[0], a.body));
        assert(spans_across(Axis::Horizontal, panes@[1], a.body));
        assert(spans_across(Axis::Horizontal, panes@[2], a.body));
        a.current = panes[0];
        a.divider = panes[1];
        a.preview = panes[2];
        if a.current.height > 0 {
            let (title, list) = titled_areas(a.current);
            a.current_title = title;
            a.current_list = list;
        }
        if a.preview.height > 0 {
            let (title, list) = titled_areas(a.preview);
            a.preview_title = title;
            a.preview_list = list;
        }
    }
    a
}

/// Adds the panels of the current listing under its title row.
fn add_titled_current_panels(panels: &mut Vec<Panel>, app: &App, pane: Rect, title: Rect, list: Rect)
    requires
        app.wf(),
    ensures
        panel_views(final(panels)@) == panel_views(old(panels)@) + titled_current_panels(app@, pane, title, list),
{
    if pane.height == 0 {
        assert(panel_views(panels@) =~= panel_views(panels@) + titled_current_panels(app@, pane, title, list));
        return;
    }
    let heading = one_line(styled_line(" current".to_owned(), plain_style()));
    push_panel(panels, Panel { area: title, lines: heading, style: Style { fg: Some(Color::LightBlue), bg: None, bold: true } });
    let lines = current_entries_lines(app, list.width, list.height);
    push_panel(panels, Panel { area: list, lines, style: plain_style() });
    assert(panel_views(panels@) =~= panel_views(old(panels)@) + titled_current_panels(app@, pane, title, list));
}

/// Adds the panel of the current listing filling `pane`.
fn add_current_panels(panels: &mut Vec<Panel>, app: &App, pane: Rect)
    requires
        app.wf(),
    ensures
        panel_views(final(panels)@) == panel_views(old(panels)@) + current_panels(app@, pane),
{
    if pane.height == 0 {
        assert(panel_views(panels@) =~= panel_views(panels@) + current_panels(app@, pane));
        return;
    }
    let lines = current_entries_lines(app, pane.width, pane.height);
    push_panel(panels, Panel { area: pane, lines, style: plain_style() });
    assert(panel_views(panels@) =~= panel_views(old(panels)@) + current_panels(app@, pane));
}

/// Adds the panels of the preview.
fn add_preview_panels(panels: &mut Vec<Panel>, app: &App, pane: Rect, title: Rect, list: Rect)
    ensures
        panel_views(final(panels)@) == panel_views(old(panels)@) + preview_panels(app@, pane, title, list),
{
    if pane.height == 0 {
        assert(panel_views(panels@) =~= panel_views(panels@) + preview_panels(app@, pane, title, list));
        return;
    }
    let heading = one_line(preview_title(app, title.width));
    push_panel(panels, Panel { area: title, lines: heading, style: plain_style() });
    let lines = preview_lines(app, list.width, list.height);
    push_panel(panels, Panel { area: list, lines, style: plain_style() });
    assert(panel_views(panels@) =~= panel_views(old(panels)@) + preview_panels(app@, pane, title, list));
}

/// Adds the panels of the body.
fn add_body_panels(panels: &mut Vec<Panel>, app: &App, a: ScreenAreas, two_panes: bool)
    requires
        app.wf(),
    ensures
        panel_views(final(panels)@) == panel_views(old(panels)@) + body_panels(app@, a, two_panes),
{
    if two_panes {
        let ghost start = panel_views(panels@);
        add_titled_current_panels(panels, app, a.current, a.current_title, a.current_list);
        push_panel(panels, Panel { area: a.divider, lines: divider_lines(a.divider.height), style: plain_style() });
        add_preview_panels(panels, app, a.preview, a.preview_title, a.preview_list);
        proof {
            let d = seq![PanelView { area: a.divider, lines: divider_spec(a.divider.height as int), style: plain() }];
            assert(panel_views(panels@) =~= start + (titled_current_panels(app@, a.current, a.current_title, a.current_list) + d
                + preview_panels(app@, a.preview, a.preview_title, a.preview_list)));
        }
    } else {
        add_current_panels(panels, app, a.body);
    }
}

/// What the explorer draws on a cleared `area`, each part placed in its area
/// of `a`.
pub fn render_in(app: &App, area: Rect, a: ScreenAreas) -> (panels: Vec<Panel>)
    requires
        app.wf(),
    ensures
        panel_views(panels@) == screen_panels(app@, area, a),
{
    let mut panels: Vec<Panel> = Vec::new();
    if area.height == 0 || area.width == 0 {
        assert(panel_views(panels@) =~= screen_panels(app@, area, a));
        return panels;
    }
    if area.height < 3 {
        let text = shorten_left(dir_text(app).as_str(), area.width as usize);
        let lines = one_line(styled_line(text, plain_style()));
        push_panel(&mut panels, Panel { area, lines, style: Style { fg: Some(ACCENT), bg: None, bold: true } });
        assert(panel_views(panels@) =~= screen_panels(app@, area, a));
        return panels;
    }
    push_panel(&mut panels, Panel { area: a.header, lines: one_line(header_line(app, a.header.width)), style: plain_style() });
    add_body_panels(&mut panels, app, a, area.width >= TWO_PANE_MIN_WIDTH);
    push_panel(&mut panels, Panel { area: a.footer, lines: one_line(footer_line(app.show_hidden(), a.footer.width)), style: plain_style() });
    proof {
        let s = app@;
        let head = seq![PanelView { area: a.header, lines: seq![header_spec(s, a.header.width as int)], style: plain() }];
        let tail = seq![PanelView { area: a.footer, lines: seq![footer_spec(s.show_hidden, a.footer.width as int)], style: plain() }];
        assert(panel_views(panels@) =~= head + body_panels(s, a, area.width >= TWO_PANE_MIN_WIDTH) + tail);
    }
    panels
}

/// What the explorer draws on a cleared `area`: the panels of `render_in`,
/// placed in the areas that ratatui's layout gives `area`.
pub fn render(app: &App, area: Rect) -> (panels: Vec<Panel>)
    requires
        app.wf(),
    ensures
        exists|a: ScreenAreas| #[trigger] laid_out(area, a) && panel_views(panels@) == screen_panels(app@, area, a),
{
    let a = screen_areas(area);
    let panels = render_in(app, area, a);
    assert(laid_out(area, a) && panel_views(panels@) == screen_panels(app@, area, a));
    panels
}

} // verus!
