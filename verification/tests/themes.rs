use std::path::PathBuf;
use de::color::Color;
use de::config::DateFormat;
use de::error::ErrorKind;
use de::store::{create_custom_theme, legacy_theme_path, save_theme, theme_config_path};
use de::theme::{is_builtin_name, parse_color, validate_theme_name, Config, THEME_ENV};

#[test]
fn built_in_themes_cycle_in_both_directions() {
    let catalog = Config::built_ins();
    assert_eq!(catalog.next("auto").name(), "light");
    assert_eq!(catalog.previous("auto").name(), "rose");
    assert_eq!(catalog.next("rose").name(), "auto");
}

#[test]
fn cycling_forward_then_back_returns_to_the_start() {
    let catalog = Config::built_ins();
    for name in catalog.names() {
        let next = catalog.next(&name);
        assert_eq!(catalog.previous(next.name()).name(), name);
        let previous = catalog.previous(&name);
        assert_eq!(catalog.next(previous.name()).name(), name);
    }
    assert_eq!(catalog.next("no-such-theme").name(), "light");
    assert_eq!(catalog.previous("no-such-theme").name(), "rose");
    assert_eq!(catalog.next("DARK").name(), "mono");
}

#[test]
fn config_loads_a_saved_custom_theme_with_overrides() {
    let catalog = Config::from_toml(
        r##"
[theme]
selected = "midnight"

[display]
date_format = "relative"

[themes.midnight]
extends = "dark"
accent = "#123456"
selection_bg = "light-cyan"
dim_muted = true
"##,
    )
    .unwrap();

    assert_eq!(catalog.saved_theme(), Some("midnight"));
    assert_eq!(catalog.display().date_format(), &DateFormat::Relative);
    let midnight = catalog.find("midnight").unwrap();
    assert_eq!(midnight.palette().accent, Color::Rgb(0x12, 0x34, 0x56));
    assert_eq!(midnight.palette().text, Color::White);
    assert_eq!(midnight.palette().emphasis_background, Color::LightCyan);
    assert!(midnight.palette().dim_muted);
}

#[test]
fn legacy_top_level_theme_is_still_read() {
    let config = Config::from_toml("theme = \"dark\"\n").unwrap();
    assert_eq!(config.saved_theme(), Some("dark"));
}

#[test]
fn grouped_theme_selection_updates_without_losing_other_settings() {
    let saved = save_theme("forest", Some("[theme]\nselected = \"auto\"\nfuture_setting = \"keep\"\n"))
        .unwrap()
        .to_string();
    assert!(saved.contains("selected = \"forest\""));
    assert!(saved.contains("future_setting = \"keep\""));
}

#[test]
fn saving_only_changes_theme_and_preserves_comments_and_tables() {
    let saved = save_theme(
        "night",
        Some("# keep this comment\ntheme = \"auto\" # keep inline\n\n[themes.night]\nextends = \"dark\"\n"),
    )
    .unwrap()
    .to_string();
    assert!(saved.contains("# keep this comment"));
    assert!(saved.contains("# keep inline"));
    assert!(saved.contains("[theme]"), "saved config:\n{saved}");
    assert!(saved.contains("selected = \"night\""));
    assert!(!saved.contains("theme = \"auto\""));
    assert!(saved.contains("[themes.night]"));
}

#[test]
fn a_saved_theme_reads_back() {
    let saved = save_theme("ocean", None).unwrap().to_string();
    let config = Config::from_toml(&saved).unwrap();
    assert_eq!(config.saved_theme(), Some("ocean"));
    assert_eq!(save_theme("no way", None).unwrap_err().kind(), ErrorKind::InvalidInput);
    assert_eq!(save_theme("ocean", Some("theme = 3\n")).unwrap_err().kind(), ErrorKind::InvalidData);
    assert_eq!(save_theme("ocean", Some("[theme\n")).unwrap_err().kind(), ErrorKind::InvalidData);
}

#[test]
fn scaffold_is_non_destructive_and_loadable() {
    let existing = "# preferences\n[theme]\nselected = \"forest\"\n";
    let contents = create_custom_theme("midnight", Some(existing)).unwrap().to_string();
    assert!(contents.contains("# preferences"));
    assert!(contents.contains("selected = \"forest\""));
    assert!(contents.contains("[themes.midnight]"));
    assert!(Config::from_toml(&contents).unwrap().find("midnight").is_some());
    assert_eq!(
        create_custom_theme("midnight", Some(&contents)).unwrap_err().kind(),
        ErrorKind::AlreadyExists
    );
    assert_eq!(
        create_custom_theme("MIDNIGHT", Some(&contents)).unwrap_err().kind(),
        ErrorKind::AlreadyExists
    );
}

#[test]
fn custom_theme_names_are_checked() {
    assert_eq!(create_custom_theme("dark", None).unwrap_err().kind(), ErrorKind::AlreadyExists);
    assert_eq!(create_custom_theme("", None).unwrap_err().kind(), ErrorKind::InvalidInput);
    assert_eq!(create_custom_theme("themes", Some("themes = 1\n")).unwrap_err().kind(), ErrorKind::InvalidData);
    let fresh = create_custom_theme("neon", None).unwrap().to_string();
    let catalog = Config::from_toml(&fresh).unwrap();
    let neon = catalog.find(" NEON ").unwrap();
    assert_eq!(neon.palette().accent, Color::Rgb(0x7d, 0xd3, 0xfc));
    assert_eq!(neon.palette().text, Color::Reset);
    assert_eq!(catalog.names().len(), 9);
}

#[test]
fn invalid_custom_values_are_rejected() {
    let bad_color = Config::from_toml(
        r##"[themes.neon]
extends = "dark"
accent = "#123"
"##,
    )
    .unwrap_err();
    assert_eq!(bad_color.kind(), ErrorKind::InvalidData);

    let bad_parent = Config::from_toml("[themes.neon]\nextends = \"another-custom-theme\"\n").unwrap_err();
    assert_eq!(bad_parent.kind(), ErrorKind::InvalidData);

    let non_ascii_hex = Config::from_toml("[themes.neon]\nextends = \"dark\"\naccent = \"#aéaaa\"\n").unwrap_err();
    assert_eq!(non_ascii_hex.kind(), ErrorKind::InvalidData);

    let duplicate =
        Config::from_toml("[themes.night]\nextends = \"dark\"\n[themes.NIGHT]\nextends = \"light\"\n").unwrap_err();
    assert_eq!(duplicate.kind(), ErrorKind::InvalidData);
}

#[test]
fn auto_and_mono_use_adaptive_reverse_emphasis() {
    let catalog = Config::built_ins();
    assert!(catalog.find("auto").unwrap().palette().reverse_emphasis);
    assert!(catalog.find("mono").unwrap().palette().reverse_emphasis);
    assert!(!catalog.find("dark").unwrap().palette().reverse_emphasis);
}

#[test]
fn colors_parse_from_hex_and_names() {
    assert_eq!(parse_color("#FF8000"), Some(Color::Rgb(255, 128, 0)));
    assert_eq!(parse_color("  light-cyan "), Some(Color::LightCyan));
    assert_eq!(parse_color("Default"), Some(Color::Reset));
    assert_eq!(parse_color("#12345"), None);
    assert_eq!(parse_color("mauve"), None);
}

#[test]
fn theme_names_are_validated() {
    assert!(validate_theme_name("my_theme-2").is_ok());
    assert_eq!(validate_theme_name("").unwrap_err().kind(), ErrorKind::InvalidInput);
    assert_eq!(validate_theme_name("a b").unwrap_err().kind(), ErrorKind::InvalidInput);
    assert_eq!(validate_theme_name(&"x".repeat(33)).unwrap_err().kind(), ErrorKind::InvalidInput);
    assert!(is_builtin_name("Forest"));
    assert!(!is_builtin_name("forests"));
    assert_eq!(THEME_ENV, "DE_THEME");
}

#[test]
fn the_catalog_loads_from_what_is_on_disk() {
    let from_config = Config::load(Some("theme = \"amber\"\n"), Some("rose")).unwrap();
    assert_eq!(from_config.saved_theme(), Some("amber"));
    let from_legacy = Config::load(None, Some("  Rose\n")).unwrap();
    assert_eq!(from_legacy.saved_theme(), Some("rose"));
    assert_eq!(Config::load(None, Some("neon")).unwrap_err().kind(), ErrorKind::InvalidData);
    assert_eq!(Config::load(None, None).unwrap().saved_theme(), None);
}

#[test]
fn the_config_file_lives_under_xdg_or_home() {
    let x = Some(PathBuf::from("/x"));
    let h = Some(PathBuf::from("/h"));
    assert_eq!(theme_config_path(x, h.clone()).unwrap(), PathBuf::from("/x/de/config.toml"));
    assert_eq!(
        theme_config_path(Some(PathBuf::from("relative")), h).unwrap(),
        PathBuf::from("/h/.config/de/config.toml")
    );
    assert_eq!(theme_config_path(None, None).unwrap_err().kind(), ErrorKind::NotFound);
    assert_eq!(legacy_theme_path(&PathBuf::from("/x/de/config.toml")), PathBuf::from("/x/de/theme"));
}

#[test]
fn a_legacy_theme_line_takes_its_comments_to_the_table() {
    let saved = save_theme("night", Some("# keep this comment\ntheme = \"auto\" # keep inline\n"))
        .unwrap()
        .to_string();
    assert!(saved.starts_with("# keep this comment\n[theme] # keep inline\n"), "saved config:\n{saved}");
    assert!(saved.contains("selected = \"night\""));
}
