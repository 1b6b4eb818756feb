use std::path::PathBuf;
use de::app::App;
use de::listing::Entry;
use de::screen::{
    fill_row, render, render_in, screen_areas, shorten_left, shorten_right, Panel, Rect, ScreenAreas,
    TWO_PANE_MIN_WIDTH,
};

fn entry(dir: &str, name: &str, is_dir: bool) -> Entry {
    Entry::new(name.as_bytes().to_vec(), PathBuf::from(format!("{dir}/{name}")), is_dir, false, Some(0))
}

fn settle(app: &mut App, listing_of: &dyn Fn(&str) -> Result<Vec<Entry>, String>) {
    while let Some(path) = app.pending_read() {
        app.receive_listing(listing_of(path.to_str().unwrap()));
    }
}

fn text_of(panels: &[Panel]) -> String {
    let mut out = String::new();
    for panel in panels {
        for line in &panel.lines {
            for span in &line.spans {
                out.push_str(&span.text);
            }
            out.push('\n');
        }
    }
    out
}

fn area(width: u16, height: u16) -> Rect {
    Rect { x: 0, y: 0, width, height }
}

#[test]
fn wide_render_shows_current_and_destination_panes() {
    let listing_of = |path: &str| match path {
        "/w" => Ok(vec![entry("/w", "project", true), entry("/w", "README.md", false)]),
        "/w/project" => Ok(vec![entry("/w/project", "main.rs", false)]),
        _ => Err("missing".to_owned()),
    };
    let mut app = App::new(PathBuf::from("/w"), listing_of("/w").unwrap());
    settle(&mut app, &listing_of);

    let panels = render(&app, area(78, 8));
    let rendered = text_of(&panels);
    assert!(rendered.contains("current"));
    assert!(rendered.contains("next · project/"));
    assert!(rendered.contains("main.rs"));
    assert!(rendered.contains('│'));
    assert!(rendered.contains("hidden:off"));
    for panel in &panels {
        assert!(panel.area.x + panel.area.width <= 78);
        assert!(panel.area.y + panel.area.height <= 8);
    }
}

#[test]
fn narrow_render_collapses_to_one_pane_without_wrapping() {
    let listing_of = |path: &str| match path {
        "/n" => Ok(vec![entry("/n", "a-very-long-directory-name", true)]),
        "/n/a-very-long-directory-name" => Ok(Vec::new()),
        _ => Err("missing".to_owned()),
    };
    let mut app = App::new(PathBuf::from("/n"), listing_of("/n").unwrap());
    settle(&mut app, &listing_of);

    let panels = render(&app, area(24, 5));
    let rendered = text_of(&panels);
    assert!(panels.iter().all(|p| p.area.width <= 24));
    assert!(rendered.contains("↵go"));
    assert!(!rendered.contains("next ·"));
    assert!(rendered.contains("› a-very-long-directory…"));
    assert!(24 < TWO_PANE_MIN_WIDTH);
}

#[test]
fn a_short_viewport_shows_only_the_directory() {
    let app = App::new(PathBuf::from("/a/rather/long/path/to/somewhere"), Vec::new());
    let panels = render(&app, area(12, 2));
    assert_eq!(panels.len(), 1);
    assert_eq!(text_of(&panels), "…o/somewhere\n");
    assert!(render(&app, area(0, 5)).is_empty());
    assert!(render(&app, area(5, 0)).is_empty());
}

#[test]
fn the_listing_scrolls_to_keep_the_highlight_visible() {
    let names: Vec<Entry> = (0..10).map(|i| entry("/s", &format!("file{i}"), false)).collect();
    let mut app = App::new(PathBuf::from("/s"), names);
    for _ in 0..7 {
        app.move_down();
    }
    let panels = render(&app, area(40, 6));
    let rendered = text_of(&panels);
    assert!(rendered.contains("› file7"));
    assert!(!rendered.contains("file3"));
    assert!(rendered.contains("file4"));
}

#[test]
fn text_is_cut_to_the_width_it_gets() {
    assert_eq!(shorten_right("abcdef", 6), "abcdef");
    assert_eq!(shorten_right("abcdef", 4), "abc…");
    assert_eq!(shorten_right("abcdef", 1), "…");
    assert_eq!(shorten_right("abcdef", 0), "");
    assert_eq!(shorten_right("日本語テキスト", 5), "日本…");
    assert_eq!(shorten_left("/home/user/projects", 10), "…/projects");
    assert_eq!(shorten_left("abc", 1), "…");
    assert_eq!(fill_row("› ", "name", 8), "› name  ");
    assert_eq!(fill_row("  ", "a-long-name", 8), "  a-lon…");
}

#[test]
fn the_layout_splits_the_screen_into_rows_and_panes() {
    let a = screen_areas(area(80, 10));
    assert_eq!(a.header, Rect { x: 0, y: 0, width: 80, height: 1 });
    assert_eq!(a.body, Rect { x: 0, y: 1, width: 80, height: 8 });
    assert_eq!(a.footer, Rect { x: 0, y: 9, width: 80, height: 1 });
    assert_eq!(a.current.width + a.divider.width + a.preview.width, 80);
    assert_eq!(a.divider.width, 1);
    assert_eq!(a.current.height, 8);
    assert_eq!(a.current_title, Rect { x: a.current.x, y: 1, width: a.current.width, height: 1 });
    assert_eq!(a.preview_list.height, 7);
    let narrow = screen_areas(area(30, 10));
    assert_eq!(narrow.body, Rect { x: 0, y: 1, width: 30, height: 8 });
    assert_eq!(narrow.current, Rect { x: 0, y: 0, width: 0, height: 0 });
    assert_eq!(screen_areas(area(30, 2)).header, Rect { x: 0, y: 0, width: 0, height: 0 });
}

#[test]
fn panels_go_where_the_areas_say() {
    let app = App::new(PathBuf::from("/r"), vec![entry("/r", "notes.txt", false)]);
    let at = |x: u16, y: u16, width: u16, height: u16| Rect { x, y, width, height };
    let a = ScreenAreas {
        header: at(0, 0, 60, 1),
        body: at(0, 1, 60, 4),
        footer: at(0, 5, 60, 1),
        current: at(0, 1, 20, 4),
        divider: at(20, 1, 1, 4),
        preview: at(21, 1, 39, 4),
        current_title: at(0, 1, 20, 1),
        current_list: at(0, 2, 20, 3),
        preview_title: at(21, 1, 39, 1),
        preview_list: at(21, 2, 39, 3),
    };
    let panels = render_in(&app, area(60, 6), a);
    let placed: Vec<Rect> = panels.iter().map(|p| p.area).collect();
    assert_eq!(
        placed,
        vec![a.header, a.current_title, a.current_list, a.divider, a.preview_title, a.preview_list, a.footer]
    );
    assert_eq!(panels[3].lines.len(), 4);
    assert_eq!(panels[2].lines.len(), 1);
    let one_pane = render_in(&app, area(40, 6), a);
    let placed: Vec<Rect> = one_pane.iter().map(|p| p.area).collect();
    assert_eq!(placed, vec![a.header, a.body, a.footer]);
}
