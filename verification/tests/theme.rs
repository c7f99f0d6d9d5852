use git_review::style::{Color, Modifier, Style};
use git_review::tui::theme::{
    color_is_readable, get_color, parse_color, ColorParseError, ThemeSettings, ADDED_BG_KEY,
};
use git_review::tui::Theme;

fn config() -> git2::Config {
    let path = std::path::Path::new("/tmp/git-review-theme-test.config");
    git2::Config::open(path).unwrap()
}

#[test]
fn applies_individual_color_property_from_git_config() {
    let mut config = config();
    config.set_str(ADDED_BG_KEY, "#112233").unwrap();
    let mut theme = Theme::default();

    theme.added_bg = get_color(config.get_string(ADDED_BG_KEY).ok().as_deref()).unwrap();

    assert_eq!(theme.added_bg, Color::Rgb(0x11, 0x22, 0x33));
}

#[test]
fn parses_indexed_color() {
    assert_eq!(parse_color("123").unwrap(), Color::Indexed(123));
}

#[test]
fn rejects_unknown_color() {
    assert!(parse_color("octarine").is_err());
}

#[test]
fn parses_names_case_and_space_insensitively() {
    assert_eq!(parse_color("  Dark-Grey\t").unwrap(), Color::DarkGray);
    assert_eq!(parse_color("LIGHT-cyan").unwrap(), Color::LightCyan);
    assert_eq!(parse_color("grey").unwrap(), Color::Gray);
    assert_eq!(parse_color("Default").unwrap(), Color::Reset);
    assert_eq!(parse_color("reset").unwrap(), Color::Reset);
    assert_eq!(parse_color("\u{a0}white\u{3000}").unwrap(), Color::White);
}

#[test]
fn parses_hex_colors() {
    assert_eq!(parse_color("#A0b1C2").unwrap(), Color::Rgb(0xa0, 0xb1, 0xc2));
    assert_eq!(parse_color("#+f0000").unwrap(), Color::Rgb(0x0f, 0, 0));
    assert_eq!(parse_color("#12345").unwrap_err(), ColorParseError::HexFormat);
    assert_eq!(parse_color("#zz0000").unwrap_err(), ColorParseError::InvalidRed);
    assert_eq!(parse_color("#00zz00").unwrap_err(), ColorParseError::InvalidGreen);
    assert_eq!(parse_color("#0000zz").unwrap_err(), ColorParseError::InvalidBlue);
    assert_eq!(parse_color("#ffé12").unwrap_err(), ColorParseError::InvalidGreen);
}

#[test]
fn parses_palette_indices() {
    assert_eq!(parse_color("0").unwrap(), Color::Indexed(0));
    assert_eq!(parse_color("+255").unwrap(), Color::Indexed(255));
    assert_eq!(parse_color("007").unwrap(), Color::Indexed(7));
    assert_eq!(parse_color("256").unwrap_err(), ColorParseError::Unknown);
    assert_eq!(parse_color("+").unwrap_err(), ColorParseError::Unknown);
    assert_eq!(parse_color("").unwrap_err(), ColorParseError::Unknown);
}

#[test]
fn flags_hex_colors_that_cut_a_character() {
    assert!(!color_is_readable("#fé123"));
    assert!(color_is_readable("#ffé12"));
    assert!(color_is_readable("red"));
}

#[test]
fn built_in_theme() {
    let theme = Theme::new();
    assert_eq!(theme.added_bg, Color::Green);
    assert_eq!(theme.removed_bg, Color::Red);
    assert_eq!(theme.binary_bg, Color::Gray);
    assert_eq!(theme.selected_modifier, Modifier { bits: 65 });
    assert_eq!(
        theme.hunk_header,
        Style { fg: Some(Color::Cyan), bg: None, add_modifier: Modifier { bits: 1 } }
    );
    assert_eq!(theme.selected_bg, None);
    assert_eq!(theme, Theme::default());
}

#[test]
fn loads_configured_colors() {
    let settings = ThemeSettings {
        added_bg: Some("blue".to_owned()),
        removed_bg: Some("not a color".to_owned()),
        binary_bg: None,
        selector_highlight_fg: Some("#010203".to_owned()),
        warning_fg: Some("9".to_owned()),
    };
    let theme = Theme::load(&settings);
    assert_eq!(theme.added_bg, Color::Blue);
    assert_eq!(theme.removed_bg, Color::Red);
    assert_eq!(theme.binary_bg, Color::Gray);
    assert_eq!(theme.selector_highlight.fg, Some(Color::Rgb(1, 2, 3)));
    assert_eq!(theme.selector_highlight.add_modifier, Modifier { bits: 1 });
    assert_eq!(theme.warning.fg, Some(Color::Indexed(9)));
    let unset = ThemeSettings {
        added_bg: None,
        removed_bg: None,
        binary_bg: None,
        selector_highlight_fg: None,
        warning_fg: None,
    };
    assert_eq!(Theme::load(&unset), Theme::default());
    assert_eq!(get_color(None), None);
}
