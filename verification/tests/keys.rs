use std::path::{Path, PathBuf};
use de::app::{App, NavigationResult};
use de::keys::{
    command_for, desired_viewport_height, handle_key, key_step, visible_entry_rows, Command, KeyCode, KeyEvent,
    KeyKind, KeyModifiers, Viewport,
};
use de::listing::Entry;

const NONE: KeyModifiers = KeyModifiers {
    shift: false,
    control: false,
    alt: false,
    super_key: false,
    hyper: false,
    meta: false,
};

const CONTROL: KeyModifiers = KeyModifiers {
    shift: false,
    control: true,
    alt: false,
    super_key: false,
    hyper: false,
    meta: false,
};

const SHIFT: KeyModifiers = KeyModifiers {
    shift: true,
    control: false,
    alt: false,
    super_key: false,
    hyper: false,
    meta: false,
};

const ALT: KeyModifiers = KeyModifiers {
    shift: false,
    control: false,
    alt: true,
    super_key: false,
    hyper: false,
    meta: false,
};

fn key(code: KeyCode, modifiers: KeyModifiers) -> KeyEvent {
    KeyEvent { code, modifiers }
}

fn entry(dir: &str, name: &str, is_dir: bool) -> Entry {
    Entry::new(name.as_bytes().to_vec(), PathBuf::from(format!("{dir}/{name}")), is_dir, false, Some(0))
}

fn listing_of(path: &str) -> Result<Vec<Entry>, String> {
    match path {
        "/p" => Ok(vec![entry("/p", "source", true), entry("/p", "notes.txt", false)]),
        "/p/source" => Ok(vec![entry("/p/source", "main.rs", false)]),
        _ => Err("No such file or directory".to_owned()),
    }
}

fn settle(app: &mut App) {
    while let Some(path) = app.pending_read() {
        app.receive_listing(listing_of(path.to_str().unwrap()));
    }
}

fn fixture() -> App {
    let mut app = App::new(PathBuf::from("/p"), listing_of("/p").unwrap());
    settle(&mut app);
    app
}

#[test]
fn slash_enters_filter_mode_and_escape_clears_before_canceling() {
    let mut app = fixture();

    let slash = key(KeyCode::Char('/'), NONE);
    assert_eq!(handle_key(&mut app, slash, 5), NavigationResult::Continue);
    assert!(app.is_filtering());

    let character = key(KeyCode::Char('s'), NONE);
    assert_eq!(handle_key(&mut app, character, 5), NavigationResult::Continue);
    settle(&mut app);
    assert_eq!(app.filter_query(), "s");
    assert_eq!(app.entries().len(), 2);

    let escape = key(KeyCode::Esc, NONE);
    assert_eq!(handle_key(&mut app, escape, 5), NavigationResult::Continue);
    settle(&mut app);
    assert!(!app.is_filtering());
    assert!(app.filter_query().is_empty());
    assert_eq!(app.entries().len(), 2);
    assert_eq!(handle_key(&mut app, escape, 5), NavigationResult::Cancel);
}

#[test]
fn control_c_cancels_even_while_filtering() {
    let mut app = fixture();
    handle_key(&mut app, key(KeyCode::Char('/'), NONE), 5);
    assert_eq!(handle_key(&mut app, key(KeyCode::Char('c'), CONTROL), 5), NavigationResult::Cancel);
    assert_eq!(command_for(false, key(KeyCode::Char('c'), CONTROL)), Command::Cancel);
}

#[test]
fn enter_accepts_the_directory_on_display() {
    let mut app = fixture();
    handle_key(&mut app, key(KeyCode::Down, NONE), 5);
    settle(&mut app);
    assert_eq!(handle_key(&mut app, key(KeyCode::Enter, NONE), 5), NavigationResult::Accept(PathBuf::from("/p")));
}

#[test]
fn letters_navigate_outside_the_filter_and_type_inside_it() {
    assert_eq!(command_for(false, key(KeyCode::Char('j'), NONE)), Command::MoveDown);
    assert_eq!(command_for(false, key(KeyCode::Char('k'), NONE)), Command::MoveUp);
    assert_eq!(command_for(false, key(KeyCode::Char('g'), NONE)), Command::First);
    assert_eq!(command_for(false, key(KeyCode::Char('G'), SHIFT)), Command::Last);
    assert_eq!(command_for(false, key(KeyCode::Char('l'), NONE)), Command::Open);
    assert_eq!(command_for(false, key(KeyCode::Char('h'), NONE)), Command::Parent);
    assert_eq!(command_for(false, key(KeyCode::Char('.'), NONE)), Command::ToggleHidden);
    assert_eq!(command_for(false, key(KeyCode::Char('r'), NONE)), Command::Refresh);
    assert_eq!(command_for(false, key(KeyCode::Char('q'), NONE)), Command::Cancel);
    assert_eq!(command_for(false, key(KeyCode::Char('x'), NONE)), Command::Nothing);
    assert_eq!(command_for(false, key(KeyCode::Backspace, NONE)), Command::Parent);
    assert_eq!(command_for(false, key(KeyCode::Tab, NONE)), Command::Open);

    assert_eq!(command_for(true, key(KeyCode::Char('j'), NONE)), Command::PushFilter('j'));
    assert_eq!(command_for(true, key(KeyCode::Char('Q'), SHIFT)), Command::PushFilter('Q'));
    assert_eq!(command_for(true, key(KeyCode::Char('q'), ALT)), Command::Nothing);
    assert_eq!(command_for(true, key(KeyCode::Backspace, NONE)), Command::PopFilter);
    assert_eq!(command_for(true, key(KeyCode::Left, NONE)), Command::Parent);
    assert_eq!(command_for(true, key(KeyCode::Esc, NONE)), Command::ClearFilter);
    assert_eq!(command_for(true, key(KeyCode::Other, NONE)), Command::Nothing);
}

#[test]
fn right_opens_the_highlighted_directory() {
    let mut app = fixture();
    assert_eq!(handle_key(&mut app, key(KeyCode::Right, NONE), 5), NavigationResult::Continue);
    settle(&mut app);
    assert_eq!(app.current_dir(), Path::new("/p/source"));
    assert_eq!(app.entries()[0].display_name(), "main.rs");
}

#[test]
fn viewport_height_follows_the_content() {
    let app = fixture();
    // Two entries and the preview's one entry, title row, header and footer.
    assert_eq!(desired_viewport_height(&app, 80, 40), 5);
    // One pane: two entries, header and footer.
    assert_eq!(desired_viewport_height(&app, 40, 40), 4);
    // Held below the terminal's height.
    assert_eq!(desired_viewport_height(&app, 80, 4), 3);
    assert_eq!(desired_viewport_height(&app, 80, 0), 1);

    let many: Vec<Entry> = (0..40).map(|i| entry("/m", &format!("f{i:02}"), false)).collect();
    let mut big = App::new(PathBuf::from("/m"), many);
    settle(&mut big);
    assert_eq!(desired_viewport_height(&big, 80, 40), 14);
    assert_eq!(desired_viewport_height(&big, 40, 10), 9);
}

#[test]
fn a_page_is_the_visible_entry_rows() {
    let app = fixture();
    assert_eq!(visible_entry_rows(&app, 80, 10), 7);
    assert_eq!(visible_entry_rows(&app, 40, 10), 8);
    assert_eq!(visible_entry_rows(&app, 80, 2), 1);
}

#[test]
fn a_key_let_go_does_nothing() {
    let mut app = fixture();
    let view = Viewport::new(&app, 80, 40);
    assert!(key_step(&mut app, view, KeyKind::Release, key(KeyCode::Down, NONE)).is_none());
    assert_eq!(app.selected_entry().unwrap().display_name(), "source/");
    assert!(matches!(key_step(&mut app, view, KeyKind::Press, key(KeyCode::Down, NONE)), Some(NavigationResult::Continue)));
    assert_eq!(app.selected_entry().unwrap().display_name(), "notes.txt");
    assert!(matches!(key_step(&mut app, view, KeyKind::Repeat, key(KeyCode::Up, NONE)), Some(NavigationResult::Continue)));
    assert_eq!(app.selected_entry().unwrap().display_name(), "source/");
    assert!(matches!(key_step(&mut app, view, KeyKind::Press, key(KeyCode::Esc, NONE)), Some(NavigationResult::Cancel)));
}

#[test]
fn the_viewport_is_fitted_on_resize_and_after_a_change() {
    let mut app = fixture();
    let mut view = Viewport::new(&app, 80, 40);
    assert_eq!(view, Viewport { width: 80, terminal_height: 40, height: 5 });
    view.resize(&app, 40, 3);
    assert_eq!(view, Viewport { width: 40, terminal_height: 3, height: 2 });
    view.resize(&app, 80, 40);
    assert!(!view.refit(&app));
    key_step(&mut app, view, KeyKind::Press, key(KeyCode::Right, NONE));
    settle(&mut app);
    assert_eq!(app.current_dir(), Path::new("/p/source"));
    assert!(view.refit(&app));
    assert_eq!(view, Viewport { width: 80, terminal_height: 40, height: 4 });
}
