//! What each key press does to the explorer, and how tall the inline
//! viewport is.

use crate::app::{
    app_inv, entered, preview_follows, refiltered, refreshed, selected_name, step_down, step_up, went_up, App, AppView,
    NavigationResult, PendingRead,
};
use crate::listing::display_name_of;
use crate::paths::path_bytes;
use crate::screen::TWO_PANE_MIN_WIDTH;
use vstd::prelude::*;

verus! {

/// A key, as the terminal reports it.
#[derive(Clone, Copy, Debug, PartialEq, Eq, Structural)]
pub enum KeyCode {
    Up,
    Down,
    PageUp,
    PageDown,
    Home,
    End,
    Left,
    Right,
    Tab,
    Backspace,
    Enter,
    Esc,
    Char(char),
    /// Any other key.
    Other,
}

/// The modifier keys held with a key.
#[derive(Clone, Copy, Debug, PartialEq, Eq, Structural)]
pub struct KeyModifiers {
    pub shift: bool,
    pub control: bool,
    pub alt: bool,
    pub super_key: bool,
    pub hyper: bool,
    pub meta: bool,
}

/// A key press with its modifiers.
#[derive(Clone, Copy, Debug, PartialEq, Eq, Structural)]
pub struct KeyEvent {
    pub code: KeyCode,
    pub modifiers: KeyModifiers,
}

/// What a key press asks of the explorer.
#[derive(Clone, Copy, Debug, PartialEq, Eq, Structural)]
pub enum Command {
    Cancel,
    Accept,
    MoveUp,
    MoveDown,
    PageUp,
    PageDown,
    First,
    Last,
    Open,
    Parent,
    BeginFilter,
    PushFilter(char),
    PopFilter,
    ClearFilter,
    ToggleHidden,
    Refresh,
    Nothing,
}

/// No modifier is held.
pub open spec fn no_modifiers(m: KeyModifiers) -> bool {
    !m.shift && !m.control && !m.alt && !m.super_key && !m.hyper && !m.meta
}

/// Shift alone is held.
pub open spec fn shift_only(m: KeyModifiers) -> bool {
    m.shift && !m.control && !m.alt && !m.super_key && !m.hyper && !m.meta
}

/// The command of a key press. Ctrl-C cancels. While filtering, arrows and
/// paging move, right or Tab opens, left goes to the parent, Backspace
/// edits the filter, Enter accepts, Esc clears the filter, and a character
/// typed with at most Shift joins the filter. Otherwise the arrows and
/// `hjkl`, paging, Home/`g`, End/`G`, Tab, Backspace, `/` (filter), `.`
/// (hidden), `r` (refresh), Enter (accept), Esc and `q` (cancel) act.
pub open spec fn key_command(filtering: bool, key: KeyEvent) -> Command {
    if key.modifiers.control && key.code == KeyCode::Char('c') {
        Command::Cancel
    } else if filtering {
        match key.code {
            KeyCode::Up => Command::MoveUp,
            KeyCode::Down => Command::MoveDown,
            KeyCode::PageUp => Command::PageUp,
            KeyCode::PageDown => Command::PageDown,
            KeyCode::Home => Command::First,
            KeyCode::End => Command::Last,
            KeyCode::Right => Command::Open,
            KeyCode::Tab => Command::Open,
            KeyCode::Left => Command::Parent,
            KeyCode::Backspace => Command::PopFilter,
            KeyCode::Enter => Command::Accept,
            KeyCode::Esc => Command::ClearFilter,
            KeyCode::Char(c) => if no_modifiers(key.modifiers) || shift_only(key.modifiers) {
                Command::PushFilter(c)
            } else {
                Command::Nothing
            },
            KeyCode::Other => Command::Nothing,
        }
    } else {
        match key.code {
            KeyCode::Up => Command::MoveUp,
            KeyCode::Down => Command::MoveDown,
            KeyCode::PageUp => Command::PageUp,
            KeyCode::PageDown => Command::PageDown,
            KeyCode::Home => Command::First,
            KeyCode::End => Command::Last,
            KeyCode::Right => Command::Open,
            KeyCode::Tab => Command::Open,
            KeyCode::Left => Command::Parent,
            KeyCode::Backspace => Command::Parent,
            KeyCode::Enter => Command::Accept,
            KeyCode::Esc => Command::Cancel,
            KeyCode::Char(c) => char_command(c),
            KeyCode::Other => Command::Nothing,
        }
    }
}

/// The command of a character key outside the filter.
pub open spec fn char_command(c: char) -> Command {
    if c == 'k' {
        Command::MoveUp
    } else if c == 'j' {
        Command::MoveDown
    } else if c == 'g' {
        Command::First
    } else if c == 'G' {
        Command::Last
    } else if c == 'l' {
        Command::Open
    } else if c == 'h' {
        Command::Parent
    } else if c == '/' {
        Command::BeginFilter
    } else if c == '.' {
        Command::ToggleHidden
    } else if c == 'r' {
        Command::Refresh
    } else if c == 'q' {
        Command::Cancel
    } else {
        Command::Nothing
    }
}

/// At least one row.
pub open spec fn page_step(rows: int) -> int {
    if rows > 1 {
        rows
    } else {
        1
    }
}

/// The state after `command`, with pages of `page_rows` entries.
pub open spec fn command_outcome(s: AppView, command: Command, page_rows: int) -> AppView {
    match command {
        Command::MoveUp => refreshed(AppView { status: None, selected: step_up(s.selected, 1), ..s }),
        Command::MoveDown => refreshed(
            AppView { status: None, selected: step_down(s.selected, 1, s.entries.len() as int), ..s },
        ),
        Command::PageUp => refreshed(
            AppView { status: None, selected: step_up(s.selected, page_step(page_rows)), ..s },
        ),
        Command::PageDown => refreshed(
            AppView {
                status: None,
                selected: step_down(s.selected, page_step(page_rows), s.entries.len() as int),
                ..s
            },
        ),
        Command::First => refreshed(AppView { status: None, selected: 0, ..s }),
        Command::Last => refreshed(
            AppView {
                status: None,
                selected: if s.entries.len() > 0 {
                    s.entries.len() - 1
                } else {
                    0
                },
                ..s
            },
        ),
        Command::Open => entered(s),
        Command::Parent => went_up(s),
        Command::BeginFilter => AppView { filtering: true, status: None, ..s },
        Command::PushFilter(c) => refiltered(AppView { filter: s.filter.push(c), ..s }, selected_name(s)),
        Command::PopFilter => refiltered(
            AppView {
                filter: if s.filter.len() > 0 {
                    s.filter.drop_last()
                } else {
                    s.filter
                },
                ..s
            },
            selected_name(s),
        ),
        Command::ClearFilter => refiltered(
            AppView { filter: Seq::empty(), filtering: false, ..s },
            selected_name(s),
        ),
        Command::ToggleHidden => AppView {
            show_hidden: !s.show_hidden,
            pending: PendingRead::Reload { select: selected_name(s) },
            ..s
        },
        Command::Refresh => AppView { pending: PendingRead::Reload { select: selected_name(s) }, ..s },
        _ => s,
    }
}

/// The command of a key press.
pub fn command_for(filtering: bool, key: KeyEvent) -> (command: Command)
    ensures
        command == key_command(filtering, key),
{
    let m = key.modifiers;
    if m.control && key.code == KeyCode::Char('c') {
        return Command::Cancel;
    }
    if filtering {
        match key.code {
            KeyCode::Up => Command::MoveUp,
            KeyCode::Down => Command::MoveDown,
            KeyCode::PageUp => Command::PageUp,
            KeyCode::PageDown => Command::PageDown,
            KeyCode::Home => Command::First,
            KeyCode::End => Command::Last,
            KeyCode::Right | KeyCode::Tab => Command::Open,
            KeyCode::Left => Command::Parent,
            KeyCode::Backspace => Command::PopFilter,
            KeyCode::Enter => Command::Accept,
            KeyCode::Esc => Command::ClearFilter,
            KeyCode::Char(c) => {
                let others = m.control || m.alt || m.super_key || m.hyper || m.meta;
                if !others {
                    Command::PushFilter(c)
                } else {
                    Command::Nothing
                }
            },
            KeyCode::Other => Command::Nothing,
        }
    } else {
        match key.code {
            KeyCode::Up => Command::MoveUp,
            KeyCode::Down => Command::MoveDown,
            KeyCode::PageUp => Command::PageUp,
            KeyCode::PageDown => Command::PageDown,
            KeyCode::Home => Command::First,
            KeyCode::End => Command::Last,
            KeyCode::Right | KeyCode::Tab => Command::Open,
            KeyCode::Left | KeyCode::Backspace => Command::Parent,
            KeyCode::Enter => Command::Accept,
            KeyCode::Esc => Command::Cancel,
            KeyCode::Char(c) => {
                if c == 'k' {
                    Command::MoveUp
                } else if c == 'j' {
                    Command::MoveDown
                } else if c == 'g' {
                    Command::First
                } else if c == 'G' {
                    Command::Last
                } else if c == 'l' {
                    Command::Open
                } else if c == 'h' {
                    Command::Parent
                } else if c == '/' {
                    Command::BeginFilter
                } else if c == '.' {
                    Command::ToggleHidden
                } else if c == 'r' {
                    Command::Refresh
                } else if c == 'q' {
                    Command::Cancel
                } else {
                    Command::Nothing
                }
            },
            KeyCode::Other => Command::Nothing,
        }
    }
}

/// Each key's command, whatever modifiers are held: in and out of the
/// filter, Up and Down move the highlight, PageUp and PageDown move it a page,
/// Home and End go to the first and last entry, Right and Tab open, Left goes
/// to the parent and Enter accepts; outside the filter Backspace goes to the
/// parent and Esc cancels, inside it Backspace edits the filter and Esc
/// clears it. Control with `c` cancels in both.
pub proof fn lemma_key_table(filtering: bool, m: KeyModifiers)
    ensures
        key_command(filtering, KeyEvent { code: KeyCode::Up, modifiers: m }) == Command::MoveUp,
        key_command(filtering, KeyEvent { code: KeyCode::Down, modifiers: m }) == Command::MoveDown,
        key_command(filtering, KeyEvent { code: KeyCode::PageUp, modifiers: m }) == Command::PageUp,
        key_command(filtering, KeyEvent { code: KeyCode::PageDown, modifiers: m }) == Command::PageDown,
        key_command(filtering, KeyEvent { code: KeyCode::Home, modifiers: m }) == Command::First,
        key_command(filtering, KeyEvent { code: KeyCode::End, modifiers: m }) == Command::Last,
        key_command(filtering, KeyEvent { code: KeyCode::Right, modifiers: m }) == Command::Open,
        key_command(filtering, KeyEvent { code: KeyCode::Tab, modifiers: m }) == Command::Open,
        key_command(filtering, KeyEvent { code: KeyCode::Left, modifiers: m }) == Command::Parent,
        key_command(filtering, KeyEvent { code: KeyCode::Enter, modifiers: m }) == Command::Accept,
        key_command(filtering, KeyEvent { code: KeyCode::Other, modifiers: m }) == Command::Nothing,
        !filtering ==> key_command(filtering, KeyEvent { code: KeyCode::Backspace, modifiers: m }) == Command::Parent,
        !filtering ==> key_command(filtering, KeyEvent { code: KeyCode::Esc, modifiers: m }) == Command::Cancel,
        filtering ==> key_command(filtering, KeyEvent { code: KeyCode::Backspace, modifiers: m }) == Command::PopFilter,
        filtering ==> key_command(filtering, KeyEvent { code: KeyCode::Esc, modifiers: m }) == Command::ClearFilter,
        m.control ==> key_command(filtering, KeyEvent { code: KeyCode::Char('c'), modifiers: m }) == Command::Cancel,
{
}

/// The letter keys outside the filter, whatever modifiers are held: `k` and
/// `j` move up and down, `g` and `G` go to the first and last entry, `l`
/// opens, `h` goes to the parent, `/` starts the filter, `.` shows or hides
/// hidden entries, `r` reads the directory again and `q` cancels; `c`
/// without Control does nothing. Inside the filter a character typed with no
/// modifier or with Shift alone joins the filter, and with another modifier
/// (Control with `c` aside) does nothing.
pub proof fn lemma_character_keys(m: KeyModifiers, c: char)
    ensures
        key_command(false, KeyEvent { code: KeyCode::Char('k'), modifiers: m }) == Command::MoveUp,
        key_command(false, KeyEvent { code: KeyCode::Char('j'), modifiers: m }) == Command::MoveDown,
        key_command(false, KeyEvent { code: KeyCode::Char('g'), modifiers: m }) == Command::First,
        key_command(false, KeyEvent { code: KeyCode::Char('G'), modifiers: m }) == Command::Last,
        key_command(false, KeyEvent { code: KeyCode::Char('l'), modifiers: m }) == Command::Open,
        key_command(false, KeyEvent { code: KeyCode::Char('h'), modifiers: m }) == Command::Parent,
        key_command(false, KeyEvent { code: KeyCode::Char('/'), modifiers: m }) == Command::BeginFilter,
        key_command(false, KeyEvent { code: KeyCode::Char('.'), modifiers: m }) == Command::ToggleHidden,
        key_command(false, KeyEvent { code: KeyCode::Char('r'), modifiers: m }) == Command::Refresh,
        key_command(false, KeyEvent { code: KeyCode::Char('q'), modifiers: m }) == Command::Cancel,
        !m.control ==> key_command(false, KeyEvent { code: KeyCode::Char('c'), modifiers: m }) == Command::Nothing,
        (no_modifiers(m) || shift_only(m)) && !(m.control && c == 'c') ==> key_command(
            true,
            KeyEvent { code: KeyCode::Char(c), modifiers: m },
        ) == Command::PushFilter(c),
        !(no_modifiers(m) || shift_only(m)) && !(m.control && c == 'c') ==> key_command(
            true,
            KeyEvent { code: KeyCode::Char(c), modifiers: m },
        ) == Command::Nothing,
{
}

/// Acts on a key press: Cancel and Accept stop the explorer (Accept with
/// the directory on display), every other command changes the state as
/// `command_outcome` says and the explorer goes on.
pub fn handle_key(app: &mut App, key: KeyEvent, page_rows: usize) -> (result: NavigationResult)
    requires
        old(app).wf(),
    ensures
        final(app).wf(),
        final(app)@ == command_outcome(old(app)@, key_command(old(app)@.filtering, key), page_rows as int),
        match key_command(old(app)@.filtering, key) {
            Command::Cancel => result is Cancel,
            Command::Accept => result matches NavigationResult::Accept(dir) && path_bytes(dir) == old(app)@.current_dir,
            _ => result is Continue,
        },
{
    let command = command_for(app.is_filtering(), key);
    match command {
        Command::Cancel => return NavigationResult::Cancel,
        Command::Accept => return app.accept(),
        Command::MoveUp => app.move_up(),
        Command::MoveDown => app.move_down(),
        Command::PageUp => app.page_up(page_rows),
        Command::PageDown => app.page_down(page_rows),
        Command::First => app.move_first(),
        Command::Last => app.move_last(),
        Command::Open => app.enter_selected(),
        Command::Parent => app.go_parent(),
        Command::BeginFilter => app.begin_filter(),
        Command::PushFilter(c) => app.push_filter_char(c),
        Command::PopFilter => app.pop_filter_char(),
        Command::ClearFilter => app.clear_filter(),
        Command::ToggleHidden => app.toggle_hidden(),
        Command::Refresh => app.refresh(),
        Command::Nothing => {},
    }
    NavigationResult::Continue
}

/// Escape clears an active filter first, and cancels once no filter is
/// active.
pub proof fn lemma_escape_clears_filter_first(s: AppView, key: KeyEvent, page_rows: int)
    requires
        key.code == KeyCode::Esc,
    ensures
        key_command(true, key) == Command::ClearFilter,
        !command_outcome(s, Command::ClearFilter, page_rows).filtering,
        command_outcome(s, Command::ClearFilter, page_rows).filter.len() == 0,
        key_command(false, key) == Command::Cancel,
{
}

/// A command that only moves the highlight.
pub open spec fn is_move(c: Command) -> bool {
    c is MoveUp || c is MoveDown || c is PageUp || c is PageDown || c is First || c is Last
}

/// Moving the highlight never navigates: the directory and its listing stay,
/// the highlight stays on a listed entry, and the preview follows it.
pub proof fn lemma_moves_stay_and_preview_follows(s: AppView, c: Command, page_rows: int)
    requires
        app_inv(s),
        is_move(c),
    ensures
        command_outcome(s, c, page_rows).current_dir == s.current_dir,
        command_outcome(s, c, page_rows).all_entries == s.all_entries,
        command_outcome(s, c, page_rows).entries == s.entries,
        app_inv(command_outcome(s, c, page_rows)),
        preview_follows(command_outcome(s, c, page_rows)),
{
}

/// Paging clamps to the listing: a page is at least one row, a page down
/// stops at the last entry and a page up at the first.
pub proof fn lemma_paging_clamps(s: AppView, page_rows: int)
    requires
        app_inv(s),
        s.entries.len() > 0,
    ensures
        command_outcome(s, Command::PageDown, page_rows).selected == if s.selected + page_step(page_rows)
            < s.entries.len() - 1 {
            s.selected + page_step(page_rows)
        } else {
            s.entries.len() - 1
        },
        command_outcome(s, Command::PageUp, page_rows).selected == if s.selected - page_step(page_rows) > 0 {
            s.selected - page_step(page_rows)
        } else {
            0
        },
{
}

/// 1 where `present`, else 0.
pub open spec fn count_if(present: bool) -> int {
    if present {
        1
    } else {
        0
    }
}

/// `value` held within `low..=high`.
pub open spec fn clamped(value: int, low: int, high: int) -> int {
    if value < low {
        low
    } else if value > high {
        high
    } else {
        value
    }
}

/// The height the inline viewport wants on a terminal of `width` by
/// `height`: the header, the footer, the listing with its status row (and,
/// with two panes, the taller of it and the preview plus the title row),
/// held within 3 to 14 rows and below the terminal's height, at least one.
pub open spec fn viewport_height_spec(s: AppView, width: int, height: int) -> int {
    let current = s.entries.len() + count_if(s.status is Some);
    let body = if width >= TWO_PANE_MIN_WIDTH {
        let preview = s.preview.entries.len() + count_if(s.preview.message is Some);
        (if current > preview {
            current
        } else {
            preview
        }) + 1
    } else {
        current
    };
    let content = clamped(body + 2, 3, 14);
    let room = if height - 1 > 1 {
        height - 1
    } else {
        1
    };
    if content < room {
        content
    } else {
        room
    }
}

/// The viewport's wanted height.
pub fn desired_viewport_height(app: &App, terminal_width: u16, terminal_height: u16) -> (rows: u16)
    ensures
        rows == viewport_height_spec(app@, terminal_width as int, terminal_height as int),
{
    let status_row: usize = if app.status().is_some() { 1 } else { 0 };
    let entries = app.entries().len();
    // Past 12 rows of body the height is 14 whatever the count.
    let current: usize = if entries > 12 { 13 } else { entries + status_row };
    let body: usize = if terminal_width >= TWO_PANE_MIN_WIDTH {
        let preview = app.preview();
        let preview_count = preview.entries().len();
        let message_row: usize = if preview.message().is_some() { 1 } else { 0 };
        let preview_rows: usize = if preview_count > 12 { 13 } else { preview_count + message_row };
        (if current > preview_rows { current } else { preview_rows }) + 1
    } else {
        current
    };
    let content: u16 = if body + 2 < 3 {
        3
    } else if body + 2 > 14 {
        14
    } else {
        (body + 2) as u16
    };
    let room: u16 = if terminal_height > 2 { terminal_height - 1 } else { 1 };
    if content < room {
        content
    } else {
        room
    }
}

/// How many entry rows a page holds on a viewport of `viewport_height` rows:
/// the rows left by the header, the footer and (with two panes) the title
/// row, less the status row, at least one.
pub open spec fn page_rows_spec(s: AppView, width: int, viewport_height: int) -> int {
    let chrome: int = if width >= TWO_PANE_MIN_WIDTH {
        3
    } else {
        2
    };
    let rows = if viewport_height > chrome {
        viewport_height - chrome
    } else {
        0
    };
    let rows = rows - count_if(s.status is Some);
    if rows > 1 {
        rows
    } else {
        1
    }
}

/// The rows of a page of entries.
pub fn visible_entry_rows(app: &App, terminal_width: u16, viewport_height: u16) -> (rows: usize)
    ensures
        rows == page_rows_spec(app@, terminal_width as int, viewport_height as int),
{
    let chrome: u16 = if terminal_width >= TWO_PANE_MIN_WIDTH { 3 } else { 2 };
    let rows: usize = if viewport_height > chrome { (viewport_height - chrome) as usize } else { 0 };
    let status_row: usize = if app.status().is_some() { 1 } else { 0 };
    let rows = if rows > status_row { rows - status_row } else { 0 };
    if rows > 1 {
        rows
    } else {
        1
    }
}

/// What the terminal reports of a key: pressed, repeated while held down,
/// or let go.
#[derive(Clone, Copy, Debug, PartialEq, Eq, Structural)]
pub enum KeyKind {
    Press,
    Repeat,
    Release,
}

/// The terminal's size, and the height of the inline viewport drawn in it.
#[derive(Clone, Copy, Debug, PartialEq, Eq, Structural)]
pub struct Viewport {
    pub width: u16,
    pub terminal_height: u16,
    pub height: u16,
}

/// The viewport that a terminal of `width` by `terminal_height` cells holds
/// for `s`: as tall as `viewport_height_spec` says.
pub open spec fn fitted(s: AppView, width: u16, terminal_height: u16) -> Viewport {
    Viewport { width, terminal_height, height: viewport_height_spec(s, width as int, terminal_height as int) as u16 }
}

impl Viewport {
    /// The viewport for `app` on a terminal of `width` by `height` cells.
    pub fn new(app: &App, width: u16, height: u16) -> (view: Viewport)
        ensures
            view == fitted(app@, width, height),
    {
        Viewport { width, terminal_height: height, height: desired_viewport_height(app, width, height) }
    }

    /// The terminal now measures `width` by `height` cells: the viewport is
    /// fitted to it anew.
    pub fn resize(&mut self, app: &App, width: u16, height: u16)
        ensures
            *final(self) == fitted(app@, width, height),
    {
        *self = Viewport::new(app, width, height);
    }

    /// Fits the height to `app` after it changed, on the same terminal; true
    /// where the height changed.
    pub fn refit(&mut self, app: &App) -> (changed: bool)
        ensures
            *final(self) == fitted(app@, old(self).width, old(self).terminal_height),
            changed == (final(self).height != old(self).height),
    {
        let height = desired_viewport_height(app, self.width, self.terminal_height);
        let changed = height != self.height;
        self.height = height;
        changed
    }
}

/// Acts on a key event: a key let go does nothing; a key pressed or repeated
/// is handled as `handle_key` says, a page being the entry rows that `view`
/// shows.
pub fn key_step(app: &mut App, view: Viewport, kind: KeyKind, key: KeyEvent) -> (result: Option<NavigationResult>)
    requires
        old(app).wf(),
    ensures
        final(app).wf(),
        kind == KeyKind::Release ==> result is None && *final(app) == *old(app),
        kind != KeyKind::Release ==> match result {
            Some(r) => {
                &&& final(app)@ == command_outcome(
                    old(app)@,
                    key_command(old(app)@.filtering, key),
                    page_rows_spec(old(app)@, view.width as int, view.height as int),
                )
                &&& match key_command(old(app)@.filtering, key) {
                    Command::Cancel => r is Cancel,
                    Command::Accept => r matches NavigationResult::Accept(dir) && path_bytes(dir) == old(app)@.current_dir,
                    _ => r is Continue,
                }
            },
            None => false,
        },
{
    match kind {
        KeyKind::Release => None,
        _ => {
            let page_rows = visible_entry_rows(app, view.width, view.height);
            Some(handle_key(app, key, page_rows))
        },
    }
}

} // verus!
