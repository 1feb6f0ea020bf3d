use dstl::app::{App, Focus, Mode, SinglePaneMode};
use dstl::config::{CursorShape, DstlConfig, RawConfig, ThemeColors};
use dstl::entry::AppEntry;
use dstl::icons::{category_icon, CategoryIcon};
use dstl::launch::launch_plan;
use dstl::ui::{
    cursor_column_in_bar, cursor_style, dual_pane_view, list_selection, names_shown,
    parse_highlight_type, reset_cursor_color, search_bar_view, set_cursor_color,
    single_pane_view, timed_out, CursorStyle, HighlightKind,
};

fn strings(items: &[&str]) -> Vec<String> {
    items.iter().map(|s| s.to_string()).collect()
}

fn config() -> DstlConfig {
    let raw = RawConfig {
        dmenu: None,
        terminal: Some("kitty".to_string()),
        timeout: None,
        max_recent_apps: None,
        recent_first: None,
        search_position: None,
        startup_mode: None,
        focus_search_on_switch: None,
        cursor_shape: None,
        cursor_blink_interval: None,
        border_style: None,
        highlight_type: None,
    };
    let colors = ThemeColors {
        border: "#ffffff".to_string(),
        focus: "#00ff00".to_string(),
        highlight: "#0000ff".to_string(),
        cursor_color: "#00ff00".to_string(),
    };
    DstlConfig::from_raw(&raw, colors)
}

fn entry(name: &str, category: &str, command: &str, terminal: bool) -> AppEntry {
    AppEntry {
        name: name.to_string(),
        category: category.to_string(),
        command: command.to_string(),
        terminal,
    }
}

fn app(mode: Mode) -> App {
    App {
        mode,
        single_pane_mode: SinglePaneMode::DesktopApps,
        should_quit: false,
        search_query: String::new(),
        cursor_position: 0,
        categories: strings(&["Recent", "Utilities", "Network", "Games"]),
        apps: vec![
            entry("Firefox", "Network", "firefox", false),
            entry("Files", "Utilities", "nautilus", false),
            entry("Mail", "Network", "mail", false),
        ],
        recent_apps: Vec::new(),
        selected_category: 0,
        selected_app: 0,
        focus: Focus::Search,
        app_to_launch: None,
        config: config(),
    }
}

#[test]
fn icons_for_labels() {
    assert_eq!(category_icon("Recent"), CategoryIcon::Recent);
    assert_eq!(category_icon("Utilities"), CategoryIcon::Utilities);
    assert_eq!(category_icon("Development"), CategoryIcon::Development);
    assert_eq!(category_icon("Network"), CategoryIcon::Network);
    assert_eq!(category_icon("Audio/Video"), CategoryIcon::AudioVideo);
    assert_eq!(category_icon("Graphics"), CategoryIcon::Graphics);
    assert_eq!(category_icon("System"), CategoryIcon::System);
    assert_eq!(category_icon("Office"), CategoryIcon::Office);
    assert_eq!(category_icon("Games"), CategoryIcon::Games);
    assert_eq!(category_icon("Education"), CategoryIcon::Education);
    assert_eq!(category_icon("Settings"), CategoryIcon::Settings);
    assert_eq!(category_icon("CLI"), CategoryIcon::Other);
    assert_eq!(category_icon("games"), CategoryIcon::Other);
    assert_eq!(category_icon(""), CategoryIcon::Other);
}

#[test]
fn launch_plans() {
    let cfg = config();
    let gui = launch_plan(&entry("Firefox", "Network", "firefox", false), &cfg);
    assert_eq!((gui.program.as_str(), gui.flag.as_str(), gui.command.as_str()), ("sh", "-c", "firefox"));
    let term = launch_plan(&entry("Top", "System", "htop", true), &cfg);
    assert_eq!((term.program.as_str(), term.flag.as_str(), term.command.as_str()), ("kitty", "-e", "htop"));
    let cli = launch_plan(&entry("ls", "CLI", "ls", false), &cfg);
    assert_eq!((cli.program.as_str(), cli.flag.as_str()), ("kitty", "-e"));
    let tool = launch_plan(&entry("Build", "Development", "make all", false), &cfg);
    assert_eq!((tool.program.as_str(), tool.flag.as_str(), tool.command.as_str()), ("kitty", "-e", "make all"));
}

#[test]
fn list_selection_falls_back_to_first() {
    assert_eq!(list_selection(2, 5), 2);
    assert_eq!(list_selection(5, 5), 0);
    assert_eq!(list_selection(0, 0), 0);
    assert_eq!(list_selection(usize::MAX, 3), 0);
}

#[test]
fn highlight_types() {
    assert_eq!(parse_highlight_type("foreground"), HighlightKind::Foreground);
    assert_eq!(parse_highlight_type("Foreground"), HighlightKind::Foreground);
    assert_eq!(parse_highlight_type("background"), HighlightKind::Background);
    assert_eq!(parse_highlight_type("other"), HighlightKind::Background);
}

#[test]
fn search_bar_scrolls_with_the_cursor() {
    let v = search_bar_view("hello", 0, 10);
    assert_eq!((v.text.as_str(), v.cursor_column), ("hello", 0));
    let v = search_bar_view("hello", 5, 10);
    assert_eq!((v.text.as_str(), v.cursor_column), ("hello", 5));
    let v = search_bar_view("hello world", 11, 5);
    assert_eq!((v.text.as_str(), v.cursor_column), ("orld", 4));
    let v = search_bar_view("hello world", 5, 5);
    assert_eq!((v.text.as_str(), v.cursor_column), ("ello ", 4));
    let v = search_bar_view("hello world", 4, 5);
    assert_eq!((v.text.as_str(), v.cursor_column), ("hello", 4));
    let v = search_bar_view("héllo", 2, 3);
    assert_eq!((v.text.as_str(), v.cursor_column), ("hél", 2));
}

#[test]
fn search_bar_edge_cases() {
    let v = search_bar_view("", 0, 0);
    assert_eq!((v.text.as_str(), v.cursor_column), ("", 0));
    let v = search_bar_view("abc", 2, 0);
    assert_eq!((v.text.as_str(), v.cursor_column), ("", 0));
    let v = search_bar_view("abc", 50, 4);
    assert_eq!((v.text.as_str(), v.cursor_column), ("", 3));
    let v = search_bar_view("abc", usize::MAX, 1);
    assert_eq!((v.text.as_str(), v.cursor_column), ("", 0));
    let v = search_bar_view("abc", 1, usize::MAX);
    assert_eq!((v.text.as_str(), v.cursor_column), ("abc", 1));
}

#[test]
fn cursor_column_is_bounded_by_the_room() {
    assert_eq!(cursor_column_in_bar(3, 20), 3);
    assert_eq!(cursor_column_in_bar(16, 20), 16);
    assert_eq!(cursor_column_in_bar(17, 20), 16);
    assert_eq!(cursor_column_in_bar(5, 3), 0);
    assert_eq!(cursor_column_in_bar(0, 0), 0);
}

#[test]
fn cursor_styles() {
    let mut theme = config().colors;
    assert_eq!(cursor_style(&theme), CursorStyle::BlinkingBlock);
    theme.cursor_shape = CursorShape::Underline;
    assert_eq!(cursor_style(&theme), CursorStyle::BlinkingUnderline);
    theme.cursor_shape = CursorShape::Pipe;
    assert_eq!(cursor_style(&theme), CursorStyle::BlinkingBar);
    theme.cursor_blink_interval = 400;
    assert_eq!(cursor_style(&theme), CursorStyle::SteadyBar);
    theme.cursor_shape = CursorShape::Block;
    assert_eq!(cursor_style(&theme), CursorStyle::SteadyBlock);
    theme.cursor_shape = CursorShape::Underline;
    assert_eq!(cursor_style(&theme), CursorStyle::SteadyUnderline);
}

#[test]
fn idle_timeout() {
    assert!(!timed_out(0, 0));
    assert!(!timed_out(0, 1000));
    assert!(!timed_out(10, 9));
    assert!(timed_out(10, 10));
    assert!(timed_out(10, 11));
}

#[test]
fn cursor_color_sequences() {
    assert_eq!(set_cursor_color("#1e90ff").unwrap(), "\x1b]12;rgb:1e/90/ff\x07");
    assert_eq!(set_cursor_color("#0a0").unwrap(), "\x1b]12;rgb:00/aa/00\x07");
    assert_eq!(set_cursor_color(" #FFFFFF ").unwrap(), "\x1b]12;rgb:ff/ff/ff\x07");
    assert_eq!(set_cursor_color("green"), None);
    assert_eq!(reset_cursor_color(), "\x1b]112\x07");
}

#[test]
fn dual_pane_frame() {
    let mut a = app(Mode::DualPane);
    let v = dual_pane_view(&a);
    assert_eq!(v.categories, strings(&["Utilities", "Network"]));
    assert_eq!(v.category_index, 0);
    assert_eq!(v.apps, strings(&["Files"]));
    assert_eq!(v.app_index, 0);
    a.selected_category = 1;
    a.selected_app = 7;
    let v = dual_pane_view(&a);
    assert_eq!(v.category_index, 1);
    assert_eq!(v.apps, strings(&["Firefox", "Mail"]));
    assert_eq!(v.app_index, 1);
    assert_eq!(a.selected_app, 7);
    a.selected_category = 5;
    let v = dual_pane_view(&a);
    assert_eq!(v.category_index, 0);
    assert_eq!(v.apps, Vec::<String>::new());
    assert_eq!(v.app_index, 0);
    a.search_query = "zzz".to_string();
    let v = dual_pane_view(&a);
    assert_eq!(v.categories, Vec::<String>::new());
    assert_eq!(v.category_index, 0);
}

#[test]
fn single_pane_frame() {
    let mut a = app(Mode::SinglePane);
    a.selected_app = 2;
    let v = single_pane_view(&a);
    assert_eq!(v.categories, Vec::<String>::new());
    assert_eq!(v.apps, strings(&["Firefox", "Files", "Mail"]));
    assert_eq!(v.app_index, 2);
    a.selected_app = 3;
    assert_eq!(single_pane_view(&a).app_index, 0);
    a.search_query = "ma".to_string();
    assert_eq!(names_shown(&a), strings(&["Mail"]));
}
