use de::config::{validate_custom_format, DateFormat, DisplaySettings, TimeFormat, Timezone};
use de::error::{ConfigError, ErrorKind};
use toml_edit::DocumentMut;

fn parse(contents: &str) -> Result<DisplaySettings, ConfigError> {
    let document = contents.parse::<DocumentMut>().unwrap();
    DisplaySettings::from_document(&document)
}

#[test]
fn defaults_match_the_existing_display() {
    assert_eq!(parse("").unwrap(), DisplaySettings::default_settings());
    let defaults = DisplaySettings::default_settings();
    assert!(defaults.shows_modified());
    assert_eq!(defaults.date_format(), &DateFormat::Iso);
    assert_eq!(defaults.time_format(), TimeFormat::TwentyFourHour);
    assert_eq!(defaults.timezone(), Timezone::Local);
}

#[test]
fn parses_all_display_preferences() {
    let settings = parse(
        "[display]\nmodified = false\ndate_format = \"us\"\ntime_format = \"12h\"\ntimezone = \"utc\"\n",
    )
    .unwrap();

    assert!(!settings.shows_modified());
    assert_eq!(settings.date_format(), &DateFormat::Us);
    assert_eq!(settings.time_format(), TimeFormat::TwelveHour);
    assert_eq!(settings.timezone(), Timezone::Utc);
}

#[test]
fn accepts_relative_and_valid_custom_formats() {
    assert_eq!(
        parse("[display]\ndate_format = \"relative\"\n").unwrap().date_format(),
        &DateFormat::Relative
    );
    assert_eq!(
        parse("[display]\ndate_format = \"custom\"\ncustom_format = \"%b %e, %Y at %l:%M %p\"\n",)
            .unwrap()
            .date_format(),
        &DateFormat::Custom("%b %e, %Y at %l:%M %p".into())
    );
}

#[test]
fn rejects_invalid_values_and_custom_directives() {
    for contents in [
        "[display]\ndate_format = \"wat\"\n",
        "[display]\ntime_format = \"13h\"\n",
        "[display]\ntimezone = \"mars\"\n",
        "[display]\ndate_format = \"custom\"\n",
        "[display]\ndate_format = \"custom\"\ncustom_format = \"%Q\"\n",
        "[display]\ndate_format = \"custom\"\ncustom_format = \"%F%n%T\"\n",
    ] {
        assert_eq!(parse(contents).unwrap_err().kind(), ErrorKind::InvalidData);
    }
}

#[test]
fn display_must_be_a_table_of_the_right_types() {
    assert_eq!(parse("display = 3\n").unwrap_err().kind(), ErrorKind::InvalidData);
    assert_eq!(parse("[display]\nmodified = \"yes\"\n").unwrap_err().kind(), ErrorKind::InvalidData);
    assert_eq!(parse("[display]\ntimezone = 4\n").unwrap_err().kind(), ErrorKind::InvalidData);
}

#[test]
fn custom_formats_are_checked_by_chrono() {
    assert!(validate_custom_format("%Y-%m-%d %H:%M").is_ok());
    assert!(validate_custom_format("plain text").is_ok());
    assert_eq!(validate_custom_format("").unwrap_err().kind(), ErrorKind::InvalidData);
    assert_eq!(validate_custom_format("%Q").unwrap_err().kind(), ErrorKind::InvalidData);
    assert_eq!(validate_custom_format("a\tb").unwrap_err().kind(), ErrorKind::InvalidData);
}

#[test]
fn refusals_explain_themselves() {
    let error = parse("[display]\ntime_format = \"13h\"\n").unwrap_err();
    assert_eq!(error.message(), "unknown display.time_format \"13h\"; use 12h or 24h");
    let error = parse("[display]\ndate_format = \"custom\"\ncustom_format = \"%Q\"\n").unwrap_err();
    assert_eq!(
        error.message(),
        "display.custom_format contains an invalid directive or control character: \"%Q\""
    );
    assert_eq!(parse("display = 1\n").unwrap_err().message(), "display must be a table");
}
