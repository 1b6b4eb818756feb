//! The explorer's state: the directory on display, its listing, the
//! highlighted entry, the filter, the order and the preview.
//!
//! Reading a directory is left to the caller: an operation that needs a
//! listing records it as the pending read, the caller reads that directory
//! and hands the outcome to [`App::receive_listing`], until nothing is pending.

use crate::color::{auto_palette_spec, Theme};
use crate::listing::{
    clone_entries, display_name_of, filter_entries, filtered_entries, first_named, is_first_named, keep_shown,
    lemma_filtered_contains, position_of_name, shown_entries, sort_entries, Entry, SortDirection, SortMode,
};
use crate::order::is_listing_order;
use crate::paths::{
    copy_path, display_path, file_name_of, parent_of, path_bytes, path_file_name, path_parent, paths_equal, same_path,
    share, shown_path,
};
use std::path::PathBuf;
use std::rc::Rc;
use crate::text::{chars_of, lowercase, to_lowercase};
use vstd::prelude::*;

verus! {

broadcast use vstd::seq_lib::group_to_multiset_ensures;

/// What the preview pane shows for the highlighted entry.
#[derive(Debug)]
pub struct Preview {
    label: String,
    entries: Vec<Entry>,
    message: Option<String>,
}

/// The preview as plain values.
pub struct PreviewView {
    pub label: Seq<char>,
    pub entries: Seq<Entry>,
    pub message: Option<Seq<char>>,
}

/// The characters of an optional string.
pub open spec fn opt_chars(s: Option<String>) -> Option<Seq<char>> {
    match s {
        Some(t) => Some(t@),
        None => None,
    }
}

impl View for Preview {
    type V = PreviewView;

    closed spec fn view(&self) -> PreviewView {
        PreviewView { label: self.label@, entries: self.entries@, message: opt_chars(self.message) }
    }
}

/// The bytes of an optional name.
pub open spec fn opt_bytes(s: Option<Vec<u8>>) -> Option<Seq<u8>> {
    match s {
        Some(t) => Some(t@),
        None => None,
    }
}

/// A preview with a label, a listing and a message.
pub open spec fn preview_of(label: Seq<char>, entries: Seq<Entry>, message: Option<Seq<char>>) -> PreviewView {
    PreviewView { label, entries, message }
}

impl Preview {
    /// The label of the previewed entry.
    pub fn label(&self) -> (label: &str)
        ensures
            label@ == self@.label,
    {
        self.label.as_str()
    }

    /// The listing of the previewed directory.
    pub fn entries(&self) -> (entries: &[Entry])
        ensures
            entries@ == self@.entries,
    {
        self.entries.as_slice()
    }

    /// The message shown in place of, or above, the listing.
    pub fn message(&self) -> (message: Option<&str>)
        ensures
            match message {
                Some(m) => self@.message == Some(m@),
                None => self@.message is None,
            },
    {
        match &self.message {
            Some(m) => Some(m.as_str()),
            None => None,
        }
    }
}

/// What the explorer asks of the shell when it stops.
#[derive(Debug, PartialEq, Eq)]
pub enum NavigationResult {
    Continue,
    Accept(PathBuf),
    Cancel,
}

/// A directory read that the state is waiting for.
#[derive(Debug)]
enum Pending {
    Nothing,
    Preview { path: Rc<PathBuf>, label: String },
    Navigate { target: Rc<PathBuf>, select: Option<Vec<u8>> },
    Reload { select: Option<Vec<u8>> },
}

/// A directory read that the state is waiting for, as plain values.
pub enum PendingRead {
    /// Nothing to read.
    Nothing,
    /// The listing of the highlighted directory, for the preview labelled `label`.
    Preview { path: Seq<u8>, label: Seq<char> },
    /// The listing of `target`, which becomes the current directory; the
    /// entry called `select` is then highlighted.
    Navigate { target: Seq<u8>, select: Option<Seq<u8>> },
    /// A fresh listing of the current directory, keeping `select` highlighted.
    Reload { select: Option<Seq<u8>> },
}

/// The explorer's state as plain values.
pub struct AppView {
    pub current_dir: Seq<u8>,
    pub all_entries: Seq<Entry>,
    pub entries: Seq<Entry>,
    pub selected: int,
    pub show_hidden: bool,
    pub status: Option<Seq<char>>,
    pub preview: PreviewView,
    pub filtering: bool,
    pub filter: Seq<char>,
    pub sort_mode: SortMode,
    pub sort_direction: SortDirection,
    pub theme: Theme,
    pub pending: PendingRead,
}

/// The explorer's state.
#[derive(Debug)]
pub struct App {
    current_dir: Rc<PathBuf>,
    all_entries: Vec<Entry>,
    entries: Vec<Entry>,
    selected: usize,
    show_hidden: bool,
    status: Option<String>,
    preview: Preview,
    filtering: bool,
    filter: String,
    sort_mode: SortMode,
    sort_direction: SortDirection,
    theme: Theme,
    pending: Pending,
}

spec fn pending_view(p: Pending) -> PendingRead {
    match p {
        Pending::Nothing => PendingRead::Nothing,
        Pending::Preview { path, label } => PendingRead::Preview { path: path_bytes(*path), label: label@ },
        Pending::Navigate { target, select } => PendingRead::Navigate {
            target: path_bytes(*target),
            select: opt_bytes(select),
        },
        Pending::Reload { select } => PendingRead::Reload { select: opt_bytes(select) },
    }
}

impl View for App {
    type V = AppView;

    closed spec fn view(&self) -> AppView {
        AppView {
            current_dir: path_bytes(*self.current_dir),
            all_entries: self.all_entries@,
            entries: self.entries@,
            selected: self.selected as int,
            show_hidden: self.show_hidden,
            status: opt_chars(self.status),
            preview: self.preview@,
            filtering: self.filtering,
            filter: self.filter@,
            sort_mode: self.sort_mode,
            sort_direction: self.sort_direction,
            theme: self.theme,
            pending: pending_view(self.pending),
        }
    }
}

/// The entries shown under a filter: all of them for an empty filter, else
/// those whose lowercase name contains the lowercase filter.
pub open spec fn visible_entries(all: Seq<Entry>, filter: Seq<char>) -> Seq<Entry> {
    if filter.len() == 0 {
        all
    } else {
        filtered_entries(all, lowercase(filter))
    }
}

/// What holds of every state: the shown entries are the filtered listing,
/// the listing is in order, and the highlight is on a shown entry (or at 0
/// when none is shown).
pub open spec fn app_inv(s: AppView) -> bool {
    &&& s.entries == visible_entries(s.all_entries, s.filter)
    &&& is_listing_order(s.all_entries, s.sort_mode, s.sort_direction)
    &&& (0 <= s.selected < s.entries.len() || (s.entries.len() == 0 && s.selected == 0))
}

/// The name of the highlighted entry.
pub open spec fn selected_name(s: AppView) -> Option<Seq<u8>> {
    if 0 <= s.selected < s.entries.len() {
        Some(s.entries[s.selected].name@)
    } else {
        None
    }
}

/// The highlight after a listing changes: the first entry called `name`,
/// else the first entry.
pub open spec fn selection_in(entries: Seq<Entry>, name: Option<Seq<u8>>) -> int {
    match name {
        Some(n) => match first_named(entries, n) {
            Some(i) => i,
            None => 0,
        },
        None => 0,
    }
}

/// The preview for the highlighted entry: a message when nothing or a file
/// is highlighted; a read of the directory when a directory is.
pub open spec fn refreshed(s: AppView) -> AppView {
    if !(0 <= s.selected < s.entries.len()) {
        AppView {
            preview: preview_of("preview"@, Seq::empty(), Some("nothing selected"@)),
            pending: PendingRead::Nothing,
            ..s
        }
    } else if !s.entries[s.selected].is_dir {
        AppView {
            preview: preview_of(
                display_name_of(s.entries[s.selected]),
                Seq::empty(),
                Some("file · shown for context only"@),
            ),
            pending: PendingRead::Nothing,
            ..s
        }
    } else {
        AppView {
            pending: PendingRead::Preview {
                path: path_bytes(*s.entries[s.selected].path),
                label: display_name_of(s.entries[s.selected]),
            },
            ..s
        }
    }
}

/// The preview shows the highlighted entry: a directory's listing is
/// requested under its name, a file is named and not read, and with
/// nothing highlighted nothing is read.
pub open spec fn preview_follows(t: AppView) -> bool {
    if 0 <= t.selected < t.entries.len() {
        let e = t.entries[t.selected];
        if e.is_dir {
            t.pending == PendingRead::Preview { path: path_bytes(*e.path), label: display_name_of(e) }
        } else {
            t.preview.label == display_name_of(e) && t.pending is Nothing
        }
    } else {
        t.pending is Nothing
    }
}

/// The preview shows the highlighted entry, with nothing left to read: its
/// label is the entry's name, a file has no listing and says it is shown
/// for context, and with nothing highlighted the preview says so.
pub open spec fn preview_shows_highlight(t: AppView) -> bool {
    &&& t.pending is Nothing
    &&& if 0 <= t.selected < t.entries.len() {
        let e = t.entries[t.selected];
        &&& t.preview.label == display_name_of(e)
        &&& !e.is_dir ==> t.preview.entries.len() == 0 && t.preview.message == Some(
            "file · shown for context only"@,
        )
    } else {
        t.preview.label == "preview"@ && t.preview.message == Some("nothing selected"@)
    }
}

/// After any change of highlight the preview follows it: it shows the
/// highlighted entry at once, or asks for exactly the highlighted
/// directory's listing under its name.
pub proof fn lemma_refreshed_preview_follows(s: AppView)
    ensures
        preview_follows(refreshed(s)),
        !(refreshed(s).pending is Preview) ==> preview_shows_highlight(refreshed(s)),
{
}

/// The filter applied again, the highlight kept on `name` where it is still
/// shown, the status cleared and the preview refreshed.
pub open spec fn refiltered(s: AppView, name: Option<Seq<u8>>) -> AppView {
    let entries = visible_entries(s.all_entries, s.filter);
    refreshed(AppView { entries, selected: selection_in(entries, name), status: None, ..s })
}

/// `sorted` is `raw` in the listing order.
pub open spec fn is_sorted_listing(sorted: Seq<Entry>, raw: Seq<Entry>, mode: SortMode, direction: SortDirection) -> bool {
    is_listing_order(sorted, mode, direction) && sorted.to_multiset() == raw.to_multiset()
}

/// One step up, stopping at the first entry.
pub open spec fn step_up(selected: int, rows: int) -> int {
    if selected >= rows {
        selected - rows
    } else {
        0
    }
}

/// One step down, stopping at the last entry.
pub open spec fn step_down(selected: int, rows: int, len: int) -> int {
    if len == 0 {
        selected
    } else if selected + rows < len - 1 {
        selected + rows
    } else {
        len - 1
    }
}

/// The status after asking to open a file.
pub open spec fn not_a_directory_status() -> Seq<char> {
    "files are shown for context; de only enters directories"@
}

/// The status after asking for the parent of a root.
pub open spec fn at_root_status() -> Seq<char> {
    "already at the filesystem root"@
}

/// The state after opening the highlight: a directory's listing is
/// requested; a file is not opened and the status says so; with nothing
/// highlighted nothing changes.
pub open spec fn entered(s: AppView) -> AppView {
    if !(0 <= s.selected < s.entries.len()) {
        s
    } else if !s.entries[s.selected].is_dir {
        AppView { status: Some(not_a_directory_status()), ..s }
    } else {
        AppView {
            pending: PendingRead::Navigate { target: path_bytes(*s.entries[s.selected].path), select: None },
            ..s
        }
    }
}

/// The state after asking for the parent: its listing is requested, to
/// highlight the directory left; at a root the status says so instead.
pub open spec fn went_up(s: AppView) -> AppView {
    match path_parent(s.current_dir) {
        Some(parent) => if paths_equal(parent, s.current_dir) {
            AppView { status: Some(at_root_status()), ..s }
        } else {
            AppView { pending: PendingRead::Navigate { target: parent, select: path_file_name(s.current_dir) }, ..s }
        },
        None => AppView { status: Some(at_root_status()), ..s },
    }
}

fn text(s: &str) -> (t: String)
    ensures
        t@ == s@,
{
    s.to_owned()
}

/// `prefix`, `subject`, `": "` and `detail` run together.
fn failure_message(prefix: &str, subject: &str, detail: &str) -> (message: String)
    ensures
        message@ == prefix@ + subject@ + ": "@ + detail@,
{
    let mut out = text(prefix);
    out.append(subject);
    out.append(": ");
    out.append(detail);
    out
}

/// The shown entries of `raw` in the listing order.
fn prepared_listing(raw: &Vec<Entry>, show_hidden: bool, mode: SortMode, direction: SortDirection) -> (listed: Vec<Entry>)
    ensures
        is_sorted_listing(listed@, shown_entries(raw@, show_hidden), mode, direction),
{
    let mut entries = keep_shown(raw, show_hidden);
    sort_entries(&mut entries, mode, direction);
    entries
}

fn name_bytes(name: &Option<Vec<u8>>) -> (bytes: Option<Vec<u8>>)
    ensures
        match bytes {
            Some(c) => opt_bytes(*name) == Some(c@),
            None => name is None,
        },
{
    match name {
        Some(n) => Some(n.clone()),
        None => None,
    }
}

impl App {
    /// The state is well formed.
    pub open spec fn wf(&self) -> bool {
        app_inv(self@)
    }

    /// The explorer opened on `start`, whose raw listing (hidden entries and
    /// all, in any order) is `listing`: hidden entries are left out, the
    /// rest are listed by name, the first is highlighted and its preview
    /// requested.
    pub fn new(start: PathBuf, listing: Vec<Entry>) -> (app: App)
        ensures
            app.wf(),
            is_sorted_listing(app@.all_entries, shown_entries(listing@, false), SortMode::Name, SortDirection::Ascending),
            app@.theme@.name == "auto"@,
            app@.theme@.palette == auto_palette_spec(),
            app@ == refreshed(
                AppView {
                    current_dir: path_bytes(start),
                    all_entries: app@.all_entries,
                    entries: app@.all_entries,
                    selected: 0,
                    show_hidden: false,
                    status: None,
                    preview: preview_of("preview"@, Seq::empty(), None),
                    filtering: false,
                    filter: Seq::empty(),
                    sort_mode: SortMode::Name,
                    sort_direction: SortDirection::Ascending,
                    theme: app@.theme,
                    pending: PendingRead::Nothing,
                },
            ),
    {
        let sort_mode = SortMode::Name;
        let sort_direction = SortDirection::Ascending;
        let mut entries = keep_shown(&listing, false);
        sort_entries(&mut entries, sort_mode, sort_direction);
        let mut app = App {
            current_dir: Rc::new(start),
            all_entries: clone_entries(&entries),
            entries,
            selected: 0,
            show_hidden: false,
            status: None,
            preview: Preview { label: text("preview"), entries: Vec::new(), message: None },
            filtering: false,
            filter: String::new(),
            sort_mode,
            sort_direction,
            theme: Theme::auto(),
            pending: Pending::Nothing,
        };
        proof {
            assert(app@.preview.entries =~= Seq::<Entry>::empty());
            assert(app@.filter =~= Seq::<char>::empty());
        }
        app.refresh_preview();
        app
    }

    /// The directory on display.
    pub fn current_dir(&self) -> (dir: &PathBuf)
        ensures
            path_bytes(*dir) == self@.current_dir,
    {
        &*self.current_dir
    }

    /// The entries shown under the filter.
    pub fn entries(&self) -> (entries: &[Entry])
        ensures
            entries@ == self@.entries,
    {
        self.entries.as_slice()
    }

    /// How many entries the directory lists, filter aside.
    pub fn total_entry_count(&self) -> (count: usize)
        ensures
            count == self@.all_entries.len(),
    {
        self.all_entries.len()
    }

    /// The position of the highlight.
    pub fn selected(&self) -> (selected: usize)
        ensures
            selected == self@.selected,
    {
        self.selected
    }

    /// The highlighted entry.
    pub fn selected_entry(&self) -> (entry: Option<&Entry>)
        ensures
            match entry {
                Some(e) => 0 <= self@.selected < self@.entries.len() && *e == self@.entries[self@.selected],
                None => !(0 <= self@.selected < self@.entries.len()),
            },
    {
        if self.selected < self.entries.len() {
            Some(&self.entries[self.selected])
        } else {
            None
        }
    }

    /// Whether hidden entries are listed.
    pub fn show_hidden(&self) -> (shown: bool)
        ensures
            shown == self@.show_hidden,
    {
        self.show_hidden
    }

    /// The status line.
    pub fn status(&self) -> (status: Option<&str>)
        ensures
            match status {
                Some(s) => self@.status == Some(s@),
                None => self@.status is None,
            },
    {
        match &self.status {
            Some(s) => Some(s.as_str()),
            None => None,
        }
    }

    /// The preview of the highlighted entry.
    pub fn preview(&self) -> (preview: &Preview)
        ensures
            preview@ == self@.preview,
    {
        &self.preview
    }

    /// Whether typed characters go to the filter.
    pub fn is_filtering(&self) -> (filtering: bool)
        ensures
            filtering == self@.filtering,
    {
        self.filtering
    }

    /// The filter as typed.
    pub fn filter_query(&self) -> (query: &str)
        ensures
            query@ == self@.filter,
    {
        self.filter.as_str()
    }

    /// The order of the listing.
    pub fn sort_mode(&self) -> (mode: SortMode)
        ensures
            mode == self@.sort_mode,
    {
        self.sort_mode
    }

    /// The direction of the listing.
    pub fn sort_direction(&self) -> (direction: SortDirection)
        ensures
            direction == self@.sort_direction,
    {
        self.sort_direction
    }

    /// The theme in use.
    pub fn theme(&self) -> (theme: &Theme)
        ensures
            *theme == self@.theme,
    {
        &self.theme
    }

    /// Uses `theme` from now on.
    pub fn set_theme(&mut self, theme: Theme)
        requires
            old(self).wf(),
        ensures
            final(self).wf(),
            final(self)@ == (AppView { theme, ..old(self)@ }),
    {
        self.theme = theme;
    }

    /// The directory whose listing the state waits for, if any.
    pub fn pending_read(&self) -> (path: Option<PathBuf>)
        ensures
            match self@.pending {
                PendingRead::Nothing => path is None,
                PendingRead::Preview { path: p, .. } => path matches Some(s) && path_bytes(s) == p,
                PendingRead::Navigate { target, .. } => path matches Some(s) && path_bytes(s) == target,
                PendingRead::Reload { .. } => path matches Some(s) && path_bytes(s) == self@.current_dir,
            },
    {
        match &self.pending {
            Pending::Nothing => None,
            Pending::Preview { path, .. } => Some(copy_path(path)),
            Pending::Navigate { target, .. } => Some(copy_path(target)),
            Pending::Reload { .. } => Some(copy_path(&self.current_dir)),
        }
    }

    fn refresh_preview(&mut self)
        requires
            app_inv(old(self)@),
        ensures
            app_inv(final(self)@),
            final(self)@ == refreshed(old(self)@),
    {
        if self.selected >= self.entries.len() {
            self.preview = Preview {
                label: text("preview"),
                entries: Vec::new(),
                message: Some(text("nothing selected")),
            };
            self.pending = Pending::Nothing;
            proof {
                assert(self@.preview.entries =~= Seq::<Entry>::empty());
            }
            return;
        }
        let label = self.entries[self.selected].display_name();
        if !self.entries[self.selected].is_dir {
            self.preview = Preview {
                label,
                entries: Vec::new(),
                message: Some(text("file · shown for context only")),
            };
            self.pending = Pending::Nothing;
            proof {
                assert(self@.preview.entries =~= Seq::<Entry>::empty());
            }
            return;
        }
        let path = share(&self.entries[self.selected].path);
        self.pending = Pending::Preview { path, label };
    }

    fn apply_filter(&mut self, selected_name: Option<Vec<u8>>)
        requires
            is_listing_order(old(self)@.all_entries, old(self)@.sort_mode, old(self)@.sort_direction),
        ensures
            app_inv(final(self)@),
            final(self)@ == refiltered(
                old(self)@,
                match selected_name {
                    Some(n) => Some(n@),
                    None => None,
                },
            ),
    {
        let lower = to_lowercase(self.filter.as_str());
        let query = chars_of(lower.as_str());
        self.entries = filter_entries(&self.all_entries, &query);
        self.selected = match selected_name {
            Some(name) => match position_of_name(&self.entries, &name) {
                Some(i) => i,
                None => 0,
            },
            None => 0,
        };
        self.status = None;
        proof {
            if self@.entries.len() == 0 {
                assert(self@.selected == 0);
            }
        }
        self.refresh_preview();
    }

    fn selected_name_bytes(&self) -> (name: Option<Vec<u8>>)
        requires
            app_inv(self@),
        ensures
            match name {
                Some(n) => selected_name(self@) == Some(n@),
                None => selected_name(self@) is None,
            },
    {
        if self.selected < self.entries.len() {
            Some((*self.entries[self.selected].name).clone())
        } else {
            None
        }
    }

    /// Moves the highlight up one entry, stopping at the first.
    pub fn move_up(&mut self)
        requires
            old(self).wf(),
        ensures
            final(self).wf(),
            final(self)@ == refreshed(
                AppView { status: None, selected: step_up(old(self)@.selected, 1), ..old(self)@ },
            ),
    {
        self.status = None;
        self.selected = if self.selected >= 1 { self.selected - 1 } else { 0 };
        self.refresh_preview();
    }

    /// Moves the highlight down one entry, stopping at the last.
    pub fn move_down(&mut self)
        requires
            old(self).wf(),
        ensures
            final(self).wf(),
            final(self)@ == refreshed(
                AppView {
                    status: None,
                    selected: step_down(old(self)@.selected, 1, old(self)@.entries.len() as int),
                    ..old(self)@
                },
            ),
    {
        self.status = None;
        if self.entries.len() > 0 {
            let last = self.entries.len() - 1;
            self.selected = if self.selected < last { self.selected + 1 } else { last };
        }
        self.refresh_preview();
    }

    /// Highlights the first entry.
    pub fn move_first(&mut self)
        requires
            old(self).wf(),
        ensures
            final(self).wf(),
            final(self)@ == refreshed(AppView { status: None, selected: 0, ..old(self)@ }),
    {
        self.status = None;
        self.selected = 0;
        self.refresh_preview();
    }

    /// Highlights the last entry.
    pub fn move_last(&mut self)
        requires
            old(self).wf(),
        ensures
            final(self).wf(),
            final(self)@ == refreshed(
                AppView {
                    status: None,
                    selected: if old(self)@.entries.len() > 0 {
                        old(self)@.entries.len() - 1
                    } else {
                        0
                    },
                    ..old(self)@
                },
            ),
    {
        self.status = None;
        self.selected = if self.entries.len() > 0 { self.entries.len() - 1 } else { 0 };
        self.refresh_preview();
    }

    /// Moves the highlight up by `rows` entries (at least one), stopping at the first.
    pub fn page_up(&mut self, rows: usize)
        requires
            old(self).wf(),
        ensures
            final(self).wf(),
            final(self)@ == refreshed(
                AppView {
                    status: None,
                    selected: step_up(old(self)@.selected, if rows > 1 { rows as int } else { 1 }),
                    ..old(self)@
                },
            ),
    {
        self.status = None;
        let step = if rows > 1 { rows } else { 1 };
        self.selected = if self.selected >= step { self.selected - step } else { 0 };
        self.refresh_preview();
    }

    /// Moves the highlight down by `rows` entries (at least one), stopping at the last.
    pub fn page_down(&mut self, rows: usize)
        requires
            old(self).wf(),
        ensures
            final(self).wf(),
            final(self)@ == refreshed(
                AppView {
                    status: None,
                    selected: step_down(
                        old(self)@.selected,
                        if rows > 1 { rows as int } else { 1 },
                        old(self)@.entries.len() as int,
                    ),
                    ..old(self)@
                },
            ),
    {
        self.status = None;
        let step = if rows > 1 { rows } else { 1 };
        if self.entries.len() > 0 {
            let last = self.entries.len() - 1;
            self.selected = if self.selected < last && step < last - self.selected {
                self.selected + step
            } else {
                last
            };
        }
        self.refresh_preview();
    }

    /// Starts sending typed characters to the filter.
    pub fn begin_filter(&mut self)
        requires
            old(self).wf(),
        ensures
            final(self).wf(),
            final(self)@ == (AppView { filtering: true, status: None, ..old(self)@ }),
    {
        self.filtering = true;
        self.status = None;
    }

    /// Adds `character` to the filter, keeping the highlighted entry
    /// highlighted if it still matches.
    pub fn push_filter_char(&mut self, character: char)
        requires
            old(self).wf(),
        ensures
            final(self).wf(),
            final(self)@ == refiltered(
                AppView { filter: old(self)@.filter.push(character), ..old(self)@ },
                selected_name(old(self)@),
            ),
    {
        let name = self.selected_name_bytes();
        crate::text::push_char(&mut self.filter, character);
        self.apply_filter(name);
    }

    /// Removes the last character of the filter, if any.
    pub fn pop_filter_char(&mut self)
        requires
            old(self).wf(),
        ensures
            final(self).wf(),
            final(self)@ == refiltered(
                AppView {
                    filter: if old(self)@.filter.len() > 0 {
                        old(self)@.filter.drop_last()
                    } else {
                        old(self)@.filter
                    },
                    ..old(self)@
                },
                selected_name(old(self)@),
            ),
    {
        let name = self.selected_name_bytes();
        crate::text::pop_char(&mut self.filter);
        self.apply_filter(name);
    }

    /// Empties the filter and stops filtering.
    pub fn clear_filter(&mut self)
        requires
            old(self).wf(),
        ensures
            final(self).wf(),
            final(self)@ == refiltered(
                AppView { filter: Seq::empty(), filtering: false, ..old(self)@ },
                selected_name(old(self)@),
            ),
    {
        let name = self.selected_name_bytes();
        self.filter = String::new();
        self.filtering = false;
        self.apply_filter(name);
    }

    /// Switches between the name and the time order, keeping the highlight.
    pub fn cycle_sort(&mut self)
        requires
            old(self).wf(),
        ensures
            final(self).wf(),
            is_sorted_listing(
                final(self)@.all_entries,
                old(self)@.all_entries,
                final(self)@.sort_mode,
                old(self)@.sort_direction,
            ),
            final(self)@.sort_mode != old(self)@.sort_mode,
            final(self)@ == refiltered(
                AppView {
                    sort_mode: final(self)@.sort_mode,
                    all_entries: final(self)@.all_entries,
                    ..old(self)@
                },
                selected_name(old(self)@),
            ),
    {
        let name = self.selected_name_bytes();
        self.sort_mode = self.sort_mode.next();
        sort_entries(&mut self.all_entries, self.sort_mode, self.sort_direction);
        self.apply_filter(name);
    }

    /// Reverses the direction of the listing, keeping the highlight.
    pub fn toggle_sort_direction(&mut self)
        requires
            old(self).wf(),
        ensures
            final(self).wf(),
            is_sorted_listing(
                final(self)@.all_entries,
                old(self)@.all_entries,
                old(self)@.sort_mode,
                final(self)@.sort_direction,
            ),
            final(self)@.sort_direction != old(self)@.sort_direction,
            final(self)@ == refiltered(
                AppView {
                    sort_direction: final(self)@.sort_direction,
                    all_entries: final(self)@.all_entries,
                    ..old(self)@
                },
                selected_name(old(self)@),
            ),
    {
        let name = self.selected_name_bytes();
        self.sort_direction = self.sort_direction.opposite();
        sort_entries(&mut self.all_entries, self.sort_mode, self.sort_direction);
        self.apply_filter(name);
    }

    /// Opens the highlighted directory: its listing is requested. A file is
    /// not opened; the status says so.
    pub fn enter_selected(&mut self)
        requires
            old(self).wf(),
        ensures
            final(self).wf(),
            final(self)@ == entered(old(self)@),
    {
        if self.selected >= self.entries.len() {
            return;
        }
        if !self.entries[self.selected].is_dir {
            self.status = Some(text("files are shown for context; de only enters directories"));
            return;
        }
        let target = share(&self.entries[self.selected].path);
        self.pending = Pending::Navigate { target, select: None };
    }

    /// Goes to the parent directory, to highlight the directory left. At a
    /// root the status says so instead.
    pub fn go_parent(&mut self)
        requires
            old(self).wf(),
        ensures
            final(self).wf(),
            final(self)@ == went_up(old(self)@),
    {
        match parent_of(&self.current_dir) {
            None => {
                self.status = Some(text("already at the filesystem root"));
            },
            Some(parent) => {
                if same_path(&parent, &self.current_dir) {
                    self.status = Some(text("already at the filesystem root"));
                } else {
                    let child = file_name_of(&self.current_dir);
                    self.pending = Pending::Navigate { target: Rc::new(parent), select: child };
                }
            },
        }
    }

    /// Shows or hides hidden entries: a fresh listing is requested.
    pub fn toggle_hidden(&mut self)
        requires
            old(self).wf(),
        ensures
            final(self).wf(),
            final(self)@ == (AppView {
                show_hidden: !old(self)@.show_hidden,
                pending: PendingRead::Reload { select: selected_name(old(self)@) },
                ..old(self)@
            }),
    {
        self.show_hidden = !self.show_hidden;
        self.request_reload();
    }

    /// Requests a fresh listing of the current directory.
    pub fn refresh(&mut self)
        requires
            old(self).wf(),
        ensures
            final(self).wf(),
            final(self)@ == (AppView {
                pending: PendingRead::Reload { select: selected_name(old(self)@) },
                ..old(self)@
            }),
    {
        self.request_reload();
    }

    fn request_reload(&mut self)
        requires
            app_inv(old(self)@),
        ensures
            app_inv(final(self)@),
            final(self)@ == (AppView {
                pending: PendingRead::Reload { select: selected_name(old(self)@) },
                ..old(self)@
            }),
    {
        let select = if self.selected < self.entries.len() {
            Some((*self.entries[self.selected].name).clone())
        } else {
            None
        };
        self.pending = Pending::Reload { select };
    }

    /// Hands over the outcome of the pending read: `Ok` with the directory's
    /// raw listing (hidden entries and all, in any order), or `Err` with the
    /// reason it could not be read.
    pub fn receive_listing(&mut self, listing: Result<Vec<Entry>, String>)
        requires
            old(self).wf(),
        ensures
            final(self).wf(),
            preview_follows(old(self)@) && old(self)@.pending is Preview && listing is Ok ==> preview_shows_highlight(
                final(self)@,
            ) && (final(self)@.preview.message == Some("empty directory"@)) == (final(self)@.preview.entries.len()
                == 0),
            match (old(self)@.pending, listing) {
                (PendingRead::Nothing, _) => final(self)@ == old(self)@,
                (PendingRead::Preview { label, .. }, Ok(raw)) => {
                    &&& is_sorted_listing(
                        final(self)@.preview.entries,
                        shown_entries(raw@, old(self)@.show_hidden),
                        old(self)@.sort_mode,
                        old(self)@.sort_direction,
                    )
                    &&& final(self)@ == AppView {
                        preview: preview_of(
                            label,
                            final(self)@.preview.entries,
                            if final(self)@.preview.entries.len() == 0 {
                                Some("empty directory"@)
                            } else {
                                None
                            },
                        ),
                        pending: PendingRead::Nothing,
                        ..old(self)@
                    }
                },
                (PendingRead::Preview { label, .. }, Err(reason)) => final(self)@ == AppView {
                    preview: preview_of(label, Seq::empty(), Some("cannot preview: "@ + reason@)),
                    pending: PendingRead::Nothing,
                    ..old(self)@
                },
                (PendingRead::Navigate { target, select }, Ok(raw)) => {
                    &&& is_sorted_listing(
                        final(self)@.all_entries,
                        shown_entries(raw@, old(self)@.show_hidden),
                        old(self)@.sort_mode,
                        old(self)@.sort_direction,
                    )
                    &&& final(self)@ == refreshed(
                        AppView {
                            current_dir: target,
                            filter: Seq::empty(),
                            filtering: false,
                            all_entries: final(self)@.all_entries,
                            entries: final(self)@.all_entries,
                            selected: selection_in(final(self)@.all_entries, select),
                            status: None,
                            ..old(self)@
                        },
                    )
                },
                (PendingRead::Navigate { target, .. }, Err(reason)) => final(self)@ == AppView {
                    status: Some("cannot open "@ + shown_path(target) + ": "@ + reason@),
                    pending: PendingRead::Nothing,
                    ..old(self)@
                },
                (PendingRead::Reload { select }, Ok(raw)) => {
                    &&& is_sorted_listing(
                        final(self)@.all_entries,
                        shown_entries(raw@, old(self)@.show_hidden),
                        old(self)@.sort_mode,
                        old(self)@.sort_direction,
                    )
                    &&& final(self)@ == refiltered(
                        AppView { all_entries: final(self)@.all_entries, ..old(self)@ },
                        select,
                    )
                },
                (PendingRead::Reload { .. }, Err(reason)) => final(self)@ == AppView {
                    status: Some("cannot refresh "@ + shown_path(old(self)@.current_dir) + ": "@ + reason@),
                    pending: PendingRead::Nothing,
                    ..old(self)@
                },
            },
    {
        let mut pending = Pending::Nothing;
        std::mem::swap(&mut pending, &mut self.pending);
        match pending {
            Pending::Nothing => {
                self.pending = pending;
            },
            Pending::Preview { path, label } => match listing {
                Ok(raw) => {
                    let entries = prepared_listing(&raw, self.show_hidden, self.sort_mode, self.sort_direction);
                    let message = if entries.len() == 0 {
                        Some(text("empty directory"))
                    } else {
                        None
                    };
                    self.preview = Preview { label, entries, message };
                },
                Err(reason) => {
                    let mut message = text("cannot preview: ");
                    message.append(reason.as_str());
                    self.preview = Preview { label, entries: Vec::new(), message: Some(message) };
                    proof {
                        assert(self@.preview.entries =~= Seq::<Entry>::empty());
                    }
                },
            },
            Pending::Navigate { target, select } => match listing {
                Ok(raw) => {
                    let entries = prepared_listing(&raw, self.show_hidden, self.sort_mode, self.sort_direction);
                    self.filter = String::new();
                    self.filtering = false;
                    self.entries = clone_entries(&entries);
                    self.all_entries = entries;
                    self.current_dir = target;
                    let name = name_bytes(&select);
                    self.selected = match name {
                        Some(n) => match position_of_name(&self.entries, &n) {
                            Some(i) => i,
                            None => 0,
                        },
                        None => 0,
                    };
                    self.status = None;
                    proof {
                        assert(self@.filter =~= Seq::<char>::empty());
                    }
                    self.refresh_preview();
                },
                Err(reason) => {
                    self.status = Some(failure_message("cannot open ", display_path(&target).as_str(), reason.as_str()));
                },
            },
            Pending::Reload { select } => match listing {
                Ok(raw) => {
                    self.all_entries = prepared_listing(&raw, self.show_hidden, self.sort_mode, self.sort_direction);
                    self.apply_filter(name_bytes(&select));
                    self.status = None;
                },
                Err(reason) => {
                    self.status = Some(
                        failure_message("cannot refresh ", display_path(&self.current_dir).as_str(), reason.as_str()),
                    );
                },
            },
        }
    }

    /// Accepts the directory on display, not the highlighted entry.
    pub fn accept(&self) -> (result: NavigationResult)
        ensures
            result matches NavigationResult::Accept(dir) && path_bytes(dir) == self@.current_dir,
    {
        NavigationResult::Accept(copy_path(&self.current_dir))
    }
}


proof fn lemma_first_named_exists(entries: Seq<Entry>, name: Seq<u8>, i: int)
    requires
        0 <= i < entries.len(),
        entries[i].name@ == name,
    ensures
        exists|k: int| #[trigger] is_first_named(entries, name, k),
    decreases i,
{
    if exists|j: int| 0 <= j < i && #[trigger] entries[j].name@ == name {
        let j = choose|j: int| 0 <= j < i && #[trigger] entries[j].name@ == name;
        lemma_first_named_exists(entries, name, j);
    } else {
        assert(is_first_named(entries, name, i));
    }
}

/// A listing read with no name to keep, or with a name that no entry has,
/// is highlighted at its first entry.
pub proof fn lemma_selection_without_name(entries: Seq<Entry>, name: Seq<u8>)
    ensures
        selection_in(entries, None) == 0,
        (forall|i: int| 0 <= i < entries.len() ==> (#[trigger] entries[i]).name@ != name) ==> selection_in(
            entries,
            Some(name),
        ) == 0,
{
    if forall|i: int| 0 <= i < entries.len() ==> (#[trigger] entries[i]).name@ != name {
        if first_named(entries, name) is Some {
            let k = choose|i: int| is_first_named(entries, name, i);
            assert(is_first_named(entries, name, k));
            assert(entries[k].name@ != name);
        }
    }
}

/// Entering a directory highlights its first entry: the state that a
/// navigation read with no name to keep ends in, whatever was read, has
/// the highlight at 0.
pub proof fn lemma_entering_highlights_first(s: AppView, target: Seq<u8>, all: Seq<Entry>)
    ensures
        refreshed(
            AppView {
                current_dir: target,
                filter: Seq::empty(),
                filtering: false,
                all_entries: all,
                entries: all,
                selected: selection_in(all, None),
                status: None,
                ..s
            },
        ).selected == 0,
{
}


/// When the listing changes, the highlight stays on the remembered name
/// wherever an entry of that name is listed: it lands on the first one.
pub proof fn lemma_selection_keeps_name(entries: Seq<Entry>, name: Seq<u8>, i: int)
    requires
        0 <= i < entries.len(),
        entries[i].name@ == name,
    ensures
        0 <= selection_in(entries, Some(name)) <= i,
        entries[selection_in(entries, Some(name))].name@ == name,
{
    lemma_first_named_exists(entries, name, i);
    let k = selection_in(entries, Some(name));
    assert(is_first_named(entries, name, k));
    if k > i {
        assert(entries[i].name@ != name);
    }
}

/// An entry is shown exactly when it is in the listing and passes the filter.
proof fn lemma_visible_contains(all: Seq<Entry>, filter: Seq<char>, e: Entry)
    ensures
        visible_entries(all, filter).contains(e) <==> (all.contains(e) && (filter.len() == 0
            || lowercase(filter).len() == 0 || crate::listing::matches_query(e, lowercase(filter)))),
{
    if filter.len() > 0 {
        lemma_filtered_contains(all, lowercase(filter), e);
    }
}

/// Listing the same entries in another order keeps the same entries shown
/// under the filter, and keeps the highlighted entry highlighted.
pub proof fn lemma_reorder_keeps_selection(s: AppView, all: Seq<Entry>)
    requires
        app_inv(s),
        all.to_multiset() == s.all_entries.to_multiset(),
    ensures
        selected_name(refiltered(AppView { all_entries: all, ..s }, selected_name(s))) == selected_name(s),
{
    broadcast use vstd::seq_lib::group_to_multiset_ensures;

    let entries = visible_entries(all, s.filter);
    match selected_name(s) {
        None => {
            assert(s.entries.len() == 0);
            if entries.len() > 0 {
                let e = entries[0];
                assert(entries.contains(e));
                lemma_visible_contains(all, s.filter, e);
                assert(all.to_multiset().count(e) > 0);
                assert(s.all_entries.contains(e));
                lemma_visible_contains(s.all_entries, s.filter, e);
                assert(s.entries.contains(e));
            }
        },
        Some(n) => {
            let e = s.entries[s.selected];
            assert(s.entries.contains(e));
            lemma_visible_contains(s.all_entries, s.filter, e);
            assert(s.all_entries.to_multiset().count(e) > 0);
            assert(all.contains(e));
            lemma_visible_contains(all, s.filter, e);
            assert(entries.contains(e));
            let i = choose|i: int| 0 <= i < entries.len() && entries[i] == e;
            lemma_selection_keeps_name(entries, n, i);
        },
    }
}

/// Going to the parent asks for the parent's listing with the directory
/// just left to be highlighted, and the filter cleared; when that listing
/// shows an entry of that name, it is the one highlighted once the listing
/// is handed back.
pub proof fn lemma_parent_highlights_child(s: AppView, parent: Seq<u8>, child: Seq<u8>, all: Seq<Entry>, i: int)
    requires
        path_parent(s.current_dir) == Some(parent),
        !paths_equal(parent, s.current_dir),
        path_file_name(s.current_dir) == Some(child),
        0 <= i < all.len(),
        all[i].name@ == child,
    ensures
        went_up(s).pending == (PendingRead::Navigate { target: parent, select: Some(child) }),
        selected_name(
            refreshed(
                AppView {
                    current_dir: parent,
                    filter: Seq::empty(),
                    filtering: false,
                    all_entries: all,
                    entries: all,
                    selected: selection_in(all, Some(child)),
                    status: None,
                    ..s
                },
            ),
        ) == Some(child),
{
    lemma_selection_keeps_name(all, child, i);
}

/// A fresh listing keeps the highlighted entry highlighted: after a
/// refresh or a change of the hidden-entry setting, the highlight is on the
/// remembered name wherever an entry of that name is shown.
pub proof fn lemma_reload_keeps_selection(s: AppView, all: Seq<Entry>, name: Seq<u8>, i: int)
    requires
        0 <= i < visible_entries(all, s.filter).len(),
        visible_entries(all, s.filter)[i].name@ == name,
    ensures
        selected_name(refiltered(AppView { all_entries: all, ..s }, Some(name))) == Some(name),
{
    lemma_selection_keeps_name(visible_entries(all, s.filter), name, i);
}

/// Clearing the filter shows the whole listing again, whatever was typed.
pub proof fn lemma_clear_filter_restores(s: AppView, name: Option<Seq<u8>>)
    ensures
        refiltered(AppView { filter: Seq::empty(), filtering: false, ..s }, name).entries == s.all_entries,
        !refiltered(AppView { filter: Seq::empty(), filtering: false, ..s }, name).filtering,
{
}

/// The filter ignores case: two queries with the same lowercase form show
/// the same entries.
pub proof fn lemma_filter_ignores_case(all: Seq<Entry>, a: Seq<char>, b: Seq<char>)
    requires
        a.len() > 0,
        b.len() > 0,
        lowercase(a) == lowercase(b),
    ensures
        visible_entries(all, a) == visible_entries(all, b),
{
}

/// Editing the filter only narrows what is shown of the current directory:
/// the directory, its listing and the hidden-entry setting stay, and every
/// shown entry is one of the listing's.
pub proof fn lemma_filter_is_scoped(s: AppView, filter: Seq<char>, name: Option<Seq<u8>>, e: Entry)
    requires
        refiltered(AppView { filter, ..s }, name).entries.contains(e),
    ensures
        refiltered(AppView { filter, ..s }, name).current_dir == s.current_dir,
        refiltered(AppView { filter, ..s }, name).all_entries == s.all_entries,
        refiltered(AppView { filter, ..s }, name).show_hidden == s.show_hidden,
        s.all_entries.contains(e),
{
    lemma_visible_contains(s.all_entries, filter, e);
}

} // verus!
