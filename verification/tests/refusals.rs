use de::error::{ConfigError, ErrorKind};
use de::store::{create_custom_theme, save_theme, theme_config_path};
use de::theme::Config;

fn refusal(contents: &str) -> ConfigError {
    Config::from_toml(contents).unwrap_err()
}

#[test]
fn each_configuration_refusal_names_its_cause() {
    let cases: Vec<(&str, &str)> = vec![
        ("display = 1\n", "display must be a table"),
        ("[display]\ndate_format = 1\n", "display.date_format must be a string"),
        ("[display]\nmodified = 1\n", "display.modified must be true or false"),
        ("[display]\ntime_format = \"7h\"\n", "unknown display.time_format \"7h\"; use 12h or 24h"),
        ("[display]\ntimezone = \"tz\"\n", "unknown display.timezone \"tz\"; use local or utc"),
        (
            "[display]\ndate_format = \"x\"\n",
            "unknown display.date_format \"x\"; use iso, us, european, relative, or custom",
        ),
        (
            "[display]\ndate_format = \"custom\"\n",
            "display.custom_format is required when date_format is custom",
        ),
        (
            "[display]\ndate_format = \"custom\"\ncustom_format = \"\"\n",
            "display.custom_format cannot be empty",
        ),
        ("[theme]\nselected = 1\n", "theme.selected must be a string"),
        ("theme = 1\n", "theme must be a table; the legacy top-level value must be a string"),
        ("themes = 1\n", "themes must be a table"),
        (
            "[themes.\"bad name\"]\n",
            "invalid custom theme name \"bad name\": theme names must be 1-32 ASCII letters, numbers, hyphens, or underscores",
        ),
        ("[themes.Dark]\n", "custom theme \"Dark\" conflicts with another theme"),
        ("[themes]\nneon = 1\n", "custom theme \"neon\" must be a table"),
        ("[themes.neon]\nextends = 1\n", "\"extends\" in custom theme \"neon\" must be a string"),
        ("[themes.neon]\ndim_muted = \"no\"\n", "\"dim_muted\" in custom theme \"neon\" must be true or false"),
        ("[themes.neon]\nextends = \"neon2\"\n", "custom theme \"neon\" extends unknown built-in theme \"neon2\""),
        ("[themes.neon]\nmuted = \"#12\"\n", "invalid color \"#12\" for \"muted\" in custom theme \"neon\""),
    ];
    for (contents, message) in cases {
        let error = refusal(contents);
        assert_eq!(error.kind(), ErrorKind::InvalidData, "{contents}");
        assert_eq!(error.message(), message);
    }
    let error = refusal("[theme\n");
    assert!(matches!(error, ConfigError::InvalidToml(_)));
    assert!(error.message().starts_with("invalid config.toml: "));
    assert!(error.message().len() > "invalid config.toml: ".len());
}

#[test]
fn each_file_edit_refusal_names_its_cause() {
    let error = save_theme("a/b", None).unwrap_err();
    assert_eq!(error.kind(), ErrorKind::InvalidInput);
    assert_eq!(error.message(), "theme names must be 1-32 ASCII letters, numbers, hyphens, or underscores");

    let error = create_custom_theme("Rose", None).unwrap_err();
    assert_eq!(error.kind(), ErrorKind::AlreadyExists);
    assert_eq!(error.message(), "\"Rose\" is a built-in theme");

    let error = create_custom_theme("neon", Some("[themes.NEON]\n")).unwrap_err();
    assert_eq!(error.kind(), ErrorKind::AlreadyExists);
    assert_eq!(error.message(), "custom theme \"neon\" already exists");

    let error = Config::load(None, Some("plaid")).unwrap_err();
    assert_eq!(error.kind(), ErrorKind::InvalidData);
    assert_eq!(error.message(), "unknown legacy saved theme \"plaid\"");

    let error = theme_config_path(None, None).unwrap_err();
    assert_eq!(error.kind(), ErrorKind::NotFound);
    assert_eq!(error.message(), "cannot find a config directory; set XDG_CONFIG_HOME or HOME");
}
