use std::path::{Path, PathBuf};
use de::app::{App, NavigationResult};
use de::listing::{sort_entries, Entry, SortDirection, SortMode};

fn entry(dir: &str, name: &str, is_dir: bool, seconds: i128) -> Entry {
    Entry::new(
        name.as_bytes().to_vec(),
        PathBuf::from(format!("{dir}/{name}")),
        is_dir,
        false,
        Some(seconds * 1_000_000_000),
    )
}

/// A small directory tree: `/t` holds `zeta/`, `Alpha/` (with `inside.txt`),
/// `.secret/` and `notes.txt`.
fn listing_of(path: &str) -> Result<Vec<Entry>, String> {
    match path {
        "/t" => Ok(vec![
            entry("/t", "zeta", true, 20),
            entry("/t", "Alpha", true, 10),
            entry("/t", ".secret", true, 5),
            entry("/t", "notes.txt", false, 30),
        ]),
        "/t/Alpha" => Ok(vec![entry("/t/Alpha", "inside.txt", false, 1)]),
        "/t/zeta" | "/t/.secret" => Ok(Vec::new()),
        _ => Err("No such file or directory".to_owned()),
    }
}

fn settle(app: &mut App) {
    while let Some(path) = app.pending_read() {
        app.receive_listing(listing_of(path.to_str().unwrap()));
    }
}

fn fixture() -> App {
    let mut app = App::new(PathBuf::from("/t"), listing_of("/t").unwrap());
    settle(&mut app);
    app
}

fn names(app: &App) -> Vec<String> {
    app.entries().iter().map(|e| e.display_name()).collect()
}

#[test]
fn lists_directories_first_and_hides_dotfiles() {
    let app = fixture();
    assert_eq!(names(&app), ["Alpha/", "zeta/", "notes.txt"]);
    assert!(app.entries().iter().all(|entry| entry.modified.is_some()));
}

#[test]
fn toggling_hidden_preserves_selection() {
    let mut app = fixture();
    app.move_down();
    settle(&mut app);
    assert_eq!(app.selected_entry().unwrap().display_name(), "zeta/");

    app.toggle_hidden();
    settle(&mut app);

    assert!(app.show_hidden());
    assert_eq!(app.selected_entry().unwrap().display_name(), "zeta/");
    assert!(app.entries().iter().any(|entry| entry.name.as_slice() == b".secret"));
}

#[test]
fn enters_a_directory_and_parent_selects_the_child() {
    let mut app = fixture();
    app.enter_selected();
    settle(&mut app);
    assert_eq!(app.current_dir(), Path::new("/t/Alpha"));

    app.go_parent();
    settle(&mut app);

    assert_eq!(app.current_dir(), Path::new("/t"));
    assert_eq!(app.selected_entry().unwrap().display_name(), "Alpha/");
}

#[test]
fn selecting_a_file_does_not_navigate() {
    let mut app = fixture();
    app.move_last();
    settle(&mut app);
    app.enter_selected();
    settle(&mut app);
    assert_eq!(app.current_dir(), Path::new("/t"));
    assert!(app.status().unwrap().contains("only enters directories"));
}

#[test]
fn accept_returns_the_displayed_directory_not_the_highlighted_child() {
    let app = fixture();
    assert_eq!(app.accept(), NavigationResult::Accept(PathBuf::from("/t")));
}

#[test]
fn preview_follows_the_highlight_without_navigating() {
    let mut app = fixture();
    assert_eq!(app.current_dir(), Path::new("/t"));
    assert_eq!(app.preview().label(), "Alpha/");
    assert_eq!(app.preview().entries()[0].display_name(), "inside.txt");

    app.move_down();
    settle(&mut app);

    assert_eq!(app.current_dir(), Path::new("/t"));
    assert_eq!(app.preview().label(), "zeta/");
    assert_eq!(app.preview().message(), Some("empty directory"));

    app.move_last();
    settle(&mut app);
    assert_eq!(app.preview().label(), "notes.txt");
    assert_eq!(app.preview().message(), Some("file · shown for context only"));
}

#[test]
fn filter_is_case_insensitive_scoped_and_reversible() {
    let mut app = fixture();
    app.begin_filter();
    for character in "ALP".chars() {
        app.push_filter_char(character);
        settle(&mut app);
    }

    assert!(app.is_filtering());
    assert_eq!(app.filter_query(), "ALP");
    assert_eq!(app.total_entry_count(), 3);
    assert_eq!(app.entries().len(), 1);
    assert_eq!(app.selected_entry().unwrap().display_name(), "Alpha/");
    assert_eq!(app.preview().label(), "Alpha/");

    app.pop_filter_char();
    settle(&mut app);
    assert_eq!(app.filter_query(), "AL");
    app.clear_filter();
    settle(&mut app);
    assert!(!app.is_filtering());
    assert!(app.filter_query().is_empty());
    assert_eq!(app.entries().len(), 3);
}

#[test]
fn page_navigation_clamps_to_the_available_entries() {
    let mut app = fixture();
    app.page_down(2);
    assert_eq!(app.selected(), 2);

    app.page_up(1);
    assert_eq!(app.selected(), 1);

    app.page_down(99);
    assert_eq!(app.selected(), 2);
    app.page_up(99);
    assert_eq!(app.selected(), 0);
}

#[test]
fn sort_criterion_and_direction_are_independent_and_preserve_selection() {
    let mut app = fixture();

    assert_eq!(app.sort_mode(), SortMode::Name);
    assert_eq!(app.sort_direction(), SortDirection::Ascending);
    assert_eq!(app.selected_entry().unwrap().display_name(), "Alpha/");

    app.cycle_sort();
    settle(&mut app);
    assert_eq!(app.sort_mode(), SortMode::Modified);
    assert_eq!(app.sort_direction(), SortDirection::Ascending);
    assert_eq!(names(&app), ["Alpha/", "zeta/", "notes.txt"]);
    assert_eq!(app.selected_entry().unwrap().display_name(), "Alpha/");

    app.toggle_sort_direction();
    settle(&mut app);
    assert_eq!(app.sort_mode(), SortMode::Modified);
    assert_eq!(app.sort_direction(), SortDirection::Descending);
    assert_eq!(names(&app), ["zeta/", "Alpha/", "notes.txt"]);
    assert_eq!(app.selected_entry().unwrap().display_name(), "Alpha/");
    assert_eq!(app.preview().label(), "Alpha/");

    app.cycle_sort();
    settle(&mut app);
    assert_eq!(app.sort_mode(), SortMode::Name);
    assert_eq!(app.sort_direction(), SortDirection::Descending);
    assert_eq!(names(&app), ["zeta/", "Alpha/", "notes.txt"]);
    assert_eq!(app.selected_entry().unwrap().display_name(), "Alpha/");

    let mut incomplete_metadata = vec![
        Entry::new(b"unknown".to_vec(), PathBuf::from("unknown"), false, false, None),
        Entry::new(b"known".to_vec(), PathBuf::from("known"), false, false, Some(0)),
    ];
    sort_entries(&mut incomplete_metadata, SortMode::Modified, SortDirection::Ascending);
    assert_eq!(incomplete_metadata[0].name.as_slice(), b"known");
    sort_entries(&mut incomplete_metadata, SortMode::Modified, SortDirection::Descending);
    assert_eq!(incomplete_metadata[0].name.as_slice(), b"known");
}

#[test]
fn names_sort_case_insensitively_then_by_exact_name() {
    let mut entries = vec![
        entry("/d", "b", false, 0),
        entry("/d", "B", false, 0),
        entry("/d", "a", false, 0),
        entry("/d", "C", true, 0),
    ];
    sort_entries(&mut entries, SortMode::Name, SortDirection::Ascending);
    let order: Vec<String> = entries.iter().map(|e| e.display_name()).collect();
    assert_eq!(order, ["C/", "a", "B", "b"]);

    sort_entries(&mut entries, SortMode::Name, SortDirection::Descending);
    let order: Vec<String> = entries.iter().map(|e| e.display_name()).collect();
    assert_eq!(order, ["C/", "b", "B", "a"]);
}

#[test]
fn failed_reads_are_reported_in_the_status() {
    let mut app = App::new(PathBuf::from("/gone"), Vec::new());
    settle(&mut app);
    assert!(app.entries().is_empty());
    assert_eq!(app.preview().message(), Some("nothing selected"));

    app.refresh();
    settle(&mut app);
    assert_eq!(app.status(), Some("cannot refresh /gone: No such file or directory"));

    app.go_parent();
    settle(&mut app);
    assert_eq!(app.status(), Some("cannot open /: No such file or directory"));
    assert_eq!(app.current_dir(), Path::new("/gone"));
}

#[test]
fn the_root_has_no_parent() {
    let mut app = App::new(PathBuf::from("/"), Vec::new());
    settle(&mut app);
    app.go_parent();
    assert_eq!(app.status(), Some("already at the filesystem root"));
    assert!(app.pending_read().is_none());
}

#[test]
fn a_failed_preview_says_why() {
    let mut app = App::new(PathBuf::from("/t"), vec![entry("/t", "locked", true, 0)]);
    let pending = app.pending_read();
    assert_eq!(pending.as_deref(), Some(Path::new("/t/locked")));
    app.receive_listing(Err("Permission denied".to_owned()));
    assert_eq!(app.preview().label(), "locked/");
    assert_eq!(app.preview().message(), Some("cannot preview: Permission denied"));
}

#[test]
fn display_names_mark_directories_and_links() {
    let link = Entry::new(b"docs".to_vec(), PathBuf::from("/t/docs"), true, true, None);
    assert_eq!(link.display_name(), "docs/@");
    assert_eq!(SortMode::Name.label(), "name");
    assert_eq!(SortMode::Modified.label(), "time");
    assert_eq!(SortDirection::Ascending.symbol(), "↑");
    assert_eq!(SortDirection::Descending.symbol(), "↓");
}

#[test]
fn names_keep_their_bytes_and_show_as_text() {
    let odd = Entry::new(vec![b'f', 0xff, b'o'], PathBuf::from("/b/odd"), true, false, Some(0));
    assert_eq!(odd.display_name(), "f\u{FFFD}o/");
    let plain = Entry::new(b"fa".to_vec(), PathBuf::from("/b/fa"), true, false, Some(0));
    let hidden = Entry::new(vec![b'.', 0xfe], PathBuf::from("/b/hid"), false, false, Some(0));
    let mut app = App::new(PathBuf::from("/b"), vec![odd, plain, hidden]);
    let names: Vec<Vec<u8>> = app.entries().iter().map(|e| e.name.as_slice().to_vec()).collect();
    assert_eq!(names, vec![b"fa".to_vec(), vec![b'f', 0xff, b'o']]);
    app.move_down();
    app.toggle_hidden();
    let listing = vec![
        Entry::new(vec![b'f', 0xff, b'o'], PathBuf::from("/b/odd"), true, false, Some(0)),
        Entry::new(b"fa".to_vec(), PathBuf::from("/b/fa"), true, false, Some(0)),
        Entry::new(vec![b'.', 0xfe], PathBuf::from("/b/hid"), false, false, Some(0)),
    ];
    app.receive_listing(Ok(listing));
    assert_eq!(app.entries().len(), 3);
    assert_eq!(app.selected_entry().unwrap().name.as_slice(), &[b'f', 0xff, b'o']);
}
