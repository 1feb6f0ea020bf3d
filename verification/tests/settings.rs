use dstl::app::{Mode, SinglePaneMode};
use dstl::config::{
    first_or, key_variants, parse_cursor_shape, parse_hex_color, parse_search_position,
    parse_start_mode, replace_char, resolve_theme_colors, BorderKind, CursorShape, DstlConfig,
    LauncherTheme, RawConfig, SearchPosition, StartMode, ThemeColor, ThemeColors, ThemeSource,
};

fn source(border: Option<&str>, focus: Option<&str>, highlight: Option<&str>, cursor: Option<&str>) -> ThemeSource {
    ThemeSource {
        border: border.map(|s| s.to_string()),
        focus: focus.map(|s| s.to_string()),
        highlight: highlight.map(|s| s.to_string()),
        cursor_color: cursor.map(|s| s.to_string()),
    }
}

fn unset() -> RawConfig {
    RawConfig {
        dmenu: None,
        terminal: None,
        timeout: None,
        max_recent_apps: None,
        recent_first: None,
        search_position: None,
        startup_mode: None,
        focus_search_on_switch: None,
        cursor_shape: None,
        cursor_blink_interval: None,
        border_style: None,
        highlight_type: None,
    }
}

fn colors() -> ThemeColors {
    ThemeColors {
        border: "#111111".to_string(),
        focus: "#222222".to_string(),
        highlight: "#333333".to_string(),
        cursor_color: "#444444".to_string(),
    }
}

#[test]
fn hex_colors_of_three_six_and_eight_digits() {
    assert_eq!(parse_hex_color("#fff"), Some((255, 255, 255)));
    assert_eq!(parse_hex_color("#1aF"), Some((17, 170, 255)));
    assert_eq!(parse_hex_color("#1e90ff"), Some((30, 144, 255)));
    assert_eq!(parse_hex_color("#1E90FF80"), Some((30, 144, 255)));
    assert_eq!(parse_hex_color("  #000000  "), Some((0, 0, 0)));
    assert_eq!(parse_hex_color("#1e90ffzz"), Some((30, 144, 255)));
}

#[test]
fn hex_colors_that_spell_nothing() {
    assert_eq!(parse_hex_color(""), None);
    assert_eq!(parse_hex_color("#"), None);
    assert_eq!(parse_hex_color("fff"), None);
    assert_eq!(parse_hex_color("#ff"), None);
    assert_eq!(parse_hex_color("#ffff"), None);
    assert_eq!(parse_hex_color("#fffff"), None);
    assert_eq!(parse_hex_color("#fffffff"), None);
    assert_eq!(parse_hex_color("#ggg"), None);
    assert_eq!(parse_hex_color("#12345g"), None);
    assert_eq!(parse_hex_color("# fff"), None);
    assert_eq!(parse_hex_color("#+ff"), None);
    assert_eq!(parse_hex_color("red"), None);
}

#[test]
fn hex_pairs_are_read_as_the_standard_library_reads_them() {
    assert_eq!(parse_hex_color("#+f+0+a"), Some((15, 0, 10)));
    assert_eq!(parse_hex_color("#-f0000"), None);
    assert_eq!(parse_hex_color("#f+0000"), None);
    for text in ["00", "ff", "+f", "f+", "-1", "g0", "0G", "7f", "A9", "++", " 1"] {
        let expected = u8::from_str_radix(text, 16).ok();
        let color = format!("#{}0000", text);
        assert_eq!(parse_hex_color(&color).map(|c| c.0), expected, "{:?}", text);
    }
}

#[test]
fn theme_colors() {
    assert_eq!(LauncherTheme::parse_color("#ff8000"), ThemeColor::Rgb(255, 128, 0));
    assert_eq!(LauncherTheme::parse_color("#f80"), ThemeColor::Rgb(255, 136, 0));
    assert_eq!(LauncherTheme::parse_color("orange"), ThemeColor::Reset);
    assert_eq!(LauncherTheme::parse_color(""), ThemeColor::Reset);
}

#[test]
fn border_types() {
    assert_eq!(LauncherTheme::parse_border_type("plain"), BorderKind::Plain);
    assert_eq!(LauncherTheme::parse_border_type("Rounded"), BorderKind::Rounded);
    assert_eq!(LauncherTheme::parse_border_type("THICK"), BorderKind::Thick);
    assert_eq!(LauncherTheme::parse_border_type("double"), BorderKind::Double);
    assert_eq!(LauncherTheme::parse_border_type("dotted"), BorderKind::Plain);
    assert_eq!(LauncherTheme::parse_border_type(""), BorderKind::Plain);
}

#[test]
fn enumerated_settings() {
    assert_eq!(parse_search_position("bottom"), SearchPosition::Bottom);
    assert_eq!(parse_search_position("Bottom"), SearchPosition::Bottom);
    assert_eq!(parse_search_position("top"), SearchPosition::Top);
    assert_eq!(parse_search_position("left"), SearchPosition::Top);
    assert_eq!(parse_start_mode("dual"), StartMode::Dual);
    assert_eq!(parse_start_mode("DUAL"), StartMode::Dual);
    assert_eq!(parse_start_mode("single"), StartMode::Single);
    assert_eq!(parse_start_mode(""), StartMode::Single);
    assert_eq!(parse_cursor_shape("underline"), CursorShape::Underline);
    assert_eq!(parse_cursor_shape("Pipe"), CursorShape::Pipe);
    assert_eq!(parse_cursor_shape("block"), CursorShape::Block);
    assert_eq!(parse_cursor_shape("beam"), CursorShape::Block);
}

#[test]
fn key_spellings() {
    assert_eq!(replace_char("a_b-c_d", '_', '-'), "a-b-c-d");
    assert_eq!(replace_char("", '_', '-'), "");
    assert_eq!(
        key_variants("dstl.max_recent-apps"),
        vec!["dstl.max_recent-apps", "dstl.max-recent-apps", "dstl.max_recent_apps"]
    );
}

#[test]
fn first_spelling_that_is_set_wins() {
    assert_eq!(first_or(vec![None, Some(2), Some(3)], 9), 2);
    assert_eq!(first_or(vec![Some(1), None, Some(3)], 9), 1);
    assert_eq!(first_or(vec![None, None, None], 9), 9);
    assert_eq!(first_or(Vec::<Option<u8>>::new(), 9), 9);
    assert_eq!(first_or(vec![None, None, Some("x".to_string())], "d".to_string()), "x");
}

#[test]
fn theme_from_first_import_with_border() {
    let aliased = vec![
        source(None, Some("#a"), None, None),
        source(Some("#b"), None, Some("#h"), None),
        source(Some("#c"), Some("#f"), None, None),
    ];
    let top = source(Some("#top"), Some("#tf"), None, None);
    let c = resolve_theme_colors(&aliased, &top, &None);
    assert_eq!(c.border, "#b");
    assert_eq!(c.focus, "#00ff00");
    assert_eq!(c.highlight, "#h");
    assert_eq!(c.cursor_color, "#00ff00");
}

#[test]
fn theme_from_top_level_then_theme_document() {
    let top = source(Some("#top"), Some("#tf"), None, Some("#tc"));
    let doc = source(Some("#doc"), None, None, None);
    let c = resolve_theme_colors(&Vec::new(), &top, &Some(doc.clone()));
    assert_eq!((c.border.as_str(), c.focus.as_str(), c.highlight.as_str(), c.cursor_color.as_str()), ("#top", "#tf", "#0000ff", "#tc"));
    let bare = source(None, Some("#tf"), Some("#th"), None);
    let c = resolve_theme_colors(&vec![source(None, None, None, None)], &bare, &Some(doc));
    assert_eq!((c.border.as_str(), c.focus.as_str(), c.highlight.as_str(), c.cursor_color.as_str()), ("#doc", "#00ff00", "#0000ff", "#00ff00"));
    let c = resolve_theme_colors(&Vec::new(), &bare, &None);
    assert_eq!((c.border.as_str(), c.focus.as_str(), c.highlight.as_str(), c.cursor_color.as_str()), ("#ffffff", "#tf", "#th", "#tf"));
    let c = resolve_theme_colors(&Vec::new(), &source(None, None, None, None), &None);
    assert_eq!((c.border.as_str(), c.focus.as_str(), c.highlight.as_str(), c.cursor_color.as_str()), ("#ffffff", "#00ff00", "#0000ff", "#00ff00"));
}

#[test]
fn defaults_of_unset_settings() {
    let c = DstlConfig::from_raw(&unset(), colors());
    assert!(!c.dmenu);
    assert_eq!(c.terminal, "foot");
    assert_eq!(c.timeout, 0);
    assert_eq!(c.max_recent_apps, 15);
    assert!(!c.recent_first);
    assert_eq!(c.search_position, SearchPosition::Top);
    assert_eq!(c.start_mode, StartMode::Single);
    assert!(c.focus_search_on_switch);
    assert_eq!(c.colors.border, "#111111");
    assert_eq!(c.colors.focus, "#222222");
    assert_eq!(c.colors.highlight, "#333333");
    assert_eq!(c.colors.cursor_color, "#444444");
    assert_eq!(c.colors.border_style, "plain");
    assert_eq!(c.colors.highlight_type, "background");
    assert_eq!(c.colors.cursor_shape, CursorShape::Block);
    assert_eq!(c.colors.cursor_blink_interval, 0);
    assert_eq!(c.single_pane_mode(), SinglePaneMode::DesktopApps);
    assert_eq!(c.pane_mode(), Mode::SinglePane);
}

#[test]
fn settings_that_are_set() {
    let raw = RawConfig {
        dmenu: Some(true),
        terminal: Some("kitty".to_string()),
        timeout: Some(30),
        max_recent_apps: Some(3),
        recent_first: Some(true),
        search_position: Some("BOTTOM".to_string()),
        startup_mode: Some("Dual".to_string()),
        focus_search_on_switch: Some(false),
        cursor_shape: Some("pipe".to_string()),
        cursor_blink_interval: Some(500),
        border_style: Some("rounded".to_string()),
        highlight_type: Some("foreground".to_string()),
    };
    let c = DstlConfig::from_raw(&raw, colors());
    assert!(c.dmenu);
    assert_eq!(c.terminal, "kitty");
    assert_eq!(c.timeout, 30);
    assert_eq!(c.max_recent_apps, 3);
    assert!(c.recent_first);
    assert_eq!(c.search_position, SearchPosition::Bottom);
    assert_eq!(c.start_mode, StartMode::Dual);
    assert!(!c.focus_search_on_switch);
    assert_eq!(c.colors.cursor_shape, CursorShape::Pipe);
    assert_eq!(c.colors.cursor_blink_interval, 500);
    assert_eq!(c.colors.border_style, "rounded");
    assert_eq!(c.colors.highlight_type, "foreground");
    assert_eq!(c.single_pane_mode(), SinglePaneMode::Dmenu);
    assert_eq!(c.pane_mode(), Mode::DualPane);
    let d = c.duplicate();
    assert_eq!(d.terminal, "kitty");
    assert_eq!(d.colors.border, "#111111");
    assert_eq!(d.max_recent_apps, 3);
}
