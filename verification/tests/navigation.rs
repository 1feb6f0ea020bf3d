use dstl::app::{App, Focus, Mode, SinglePaneMode};
use dstl::catalog::Sources;
use dstl::config::{DstlConfig, RawConfig, SearchPosition, ThemeColors};
use dstl::desktop::DesktopFile;
use dstl::entry::AppEntry;
use dstl::events::{
    commit, count_filtered_apps_in_current_category, get_matching_category_indices,
    get_selected_app, handle_key, selected_index, switch_mode, update_selection_after_search,
    visible_indices, Key, KeyOutcome,
};

fn strings(items: &[&str]) -> Vec<String> {
    items.iter().map(|s| s.to_string()).collect()
}

fn config(position: &str, focus_search_on_switch: bool) -> DstlConfig {
    let raw = RawConfig {
        dmenu: None,
        terminal: None,
        timeout: None,
        max_recent_apps: None,
        recent_first: None,
        search_position: Some(position.to_string()),
        startup_mode: None,
        focus_search_on_switch: Some(focus_search_on_switch),
        cursor_shape: None,
        cursor_blink_interval: None,
        border_style: None,
        highlight_type: None,
    };
    let colors = ThemeColors {
        border: "#ffffff".to_string(),
        focus: "#00ff00".to_string(),
        highlight: "#0000ff".to_string(),
        cursor_color: "#00ff00".to_string(),
    };
    DstlConfig::from_raw(&raw, colors)
}

fn entry(name: &str, category: &str) -> AppEntry {
    AppEntry {
        name: name.to_string(),
        category: category.to_string(),
        command: format!("run-{}", name.to_lowercase()),
        terminal: false,
    }
}

fn catalog() -> Vec<AppEntry> {
    vec![
        entry("Firefox", "Network"),
        entry("Files", "Utilities"),
        entry("Fizz", "Utilities"),
        entry("Doom", "Games"),
        entry("Thunderbird", "Network"),
    ]
}

fn app(mode: Mode, position: &str) -> App {
    App {
        mode,
        single_pane_mode: SinglePaneMode::DesktopApps,
        should_quit: false,
        search_query: String::new(),
        cursor_position: 0,
        categories: strings(&["Recent", "Utilities", "Network", "Games"]),
        apps: catalog(),
        recent_apps: Vec::new(),
        selected_category: 0,
        selected_app: 0,
        focus: Focus::Search,
        app_to_launch: None,
        config: config(position, false),
    }
}

fn shown(app: &App) -> Vec<String> {
    visible_indices(app).iter().map(|&i| app.apps[i].name.clone()).collect()
}

fn shown_categories(app: &App) -> Vec<String> {
    get_matching_category_indices(app).iter().map(|&c| app.categories[c].clone()).collect()
}

fn type_text(app: &mut App, text: &str) {
    for c in text.chars() {
        assert_eq!(handle_key(app, Key::Char(c)), KeyOutcome::Continue);
    }
}

fn file(name: &str, content: &str) -> DesktopFile {
    DesktopFile { file_name: name.to_string(), content: Some(content.to_string()) }
}

fn sources() -> Sources {
    Sources {
        desktop_files: vec![
            file("z.desktop", "[Desktop Entry]\nName=Zed\nExec=zed %F\nCategories=Development;\n"),
            file("d.desktop", "[Desktop Entry]\nName=Doom\nExec=doom\nCategories=Game;\n"),
        ],
        desktop_hint: "GNOME".to_string(),
        path_names: strings(&["zip", "awk"]),
    }
}

#[test]
fn scenario_prefix_query_in_flat_list() {
    let mut a = app(Mode::SinglePane, "top");
    a.apps = vec![entry("Firefox", "Network"), entry("Files", "Utilities"), entry("Fizz", "Utilities")];
    type_text(&mut a, "fi");
    assert_eq!(shown(&a), strings(&["Firefox", "Files", "Fizz"]));
    type_text(&mut a, "r");
    assert_eq!(a.search_query, "fir");
    assert_eq!(shown(&a), strings(&["Firefox"]));
    let names: Vec<String> = a.visible_apps().iter().map(|e| e.name.clone()).collect();
    assert_eq!(names, strings(&["Firefox"]));
}

#[test]
fn prefix_matches_come_before_fuzzy_matches() {
    let mut a = app(Mode::SinglePane, "top");
    a.apps = vec![entry("Profile", "Utilities"), entry("Files", "Utilities"), entry("Ruffle", "Games"), entry("Fizz", "Utilities")];
    type_text(&mut a, "fi");
    let names = shown(&a);
    assert_eq!(&names[..2], &strings(&["Files", "Fizz"])[..]);
    assert!(names.contains(&"Profile".to_string()));
    assert!(!names.contains(&"Ruffle".to_string()));
}

#[test]
fn empty_query_shows_catalog_order() {
    let a = app(Mode::SinglePane, "top");
    assert_eq!(shown(&a), strings(&["Firefox", "Files", "Fizz", "Doom", "Thunderbird"]));
    assert_eq!(count_filtered_apps_in_current_category(&a), 5);
}

#[test]
fn recent_slot_is_shown_only_with_a_live_recent_entry() {
    let mut a = app(Mode::DualPane, "top");
    assert_eq!(shown_categories(&a), strings(&["Utilities", "Network", "Games"]));
    a.recent_apps = strings(&["gone"]);
    assert_eq!(shown_categories(&a), strings(&["Utilities", "Network", "Games"]));
    a.recent_apps = strings(&["gone", "Doom"]);
    assert_eq!(shown_categories(&a), strings(&["Recent", "Utilities", "Network", "Games"]));
    assert_eq!(shown(&a), strings(&["Doom"]));
}

#[test]
fn no_empty_category_is_shown() {
    let mut a = app(Mode::DualPane, "top");
    a.categories = strings(&["Recent", "Utilities", "Network", "Games", "Office"]);
    a.recent_apps = strings(&["Files", "Doom"]);
    for query in ["", "f", "fi", "doom", "xyz123", "t"] {
        a.search_query = query.to_string();
        let cats = get_matching_category_indices(&a);
        for (place, _) in cats.iter().enumerate() {
            a.selected_category = place;
            assert!(count_filtered_apps_in_current_category(&a) > 0, "query {:?} place {}", query, place);
        }
        assert!(!shown_categories(&a).contains(&"Office".to_string()));
    }
}

#[test]
fn category_lists_keep_catalog_order_and_rank_by_score() {
    let mut a = app(Mode::DualPane, "top");
    a.selected_category = 1;
    assert_eq!(shown(&a), strings(&["Firefox", "Thunderbird"]));
    a.search_query = "t".to_string();
    assert_eq!(shown_categories(&a), strings(&["Network"]));
    a.selected_category = 0;
    assert_eq!(shown(&a), strings(&["Thunderbird"]));
}

#[test]
fn recent_category_lists_recent_order_and_is_filtered() {
    let mut a = app(Mode::DualPane, "top");
    a.recent_apps = strings(&["Thunderbird", "missing", "Files", "Firefox"]);
    assert_eq!(shown(&a), strings(&["Thunderbird", "Files", "Firefox"]));
    a.search_query = "fi".to_string();
    assert_eq!(shown(&a), strings(&["Files", "Firefox"]));
}

#[test]
fn scenario_unmatched_category_disappears_and_selection_moves() {
    let mut a = app(Mode::DualPane, "top");
    a.selected_category = 2;
    assert_eq!(shown(&a), strings(&["Doom"]));
    type_text(&mut a, "fire");
    assert_eq!(shown_categories(&a), strings(&["Network"]));
    assert_eq!(a.selected_category, 0);
    assert_eq!(a.selected_app, 0);
    assert_eq!(shown(&a), strings(&["Firefox"]));
}

#[test]
fn scenario_no_category_matches() {
    let mut a = app(Mode::DualPane, "top");
    a.selected_category = 2;
    a.selected_app = 0;
    a.search_query = "xyz12".to_string();
    a.cursor_position = 5;
    type_text(&mut a, "3");
    assert_eq!(a.search_query, "xyz123");
    assert_eq!(shown_categories(&a), Vec::<String>::new());
    assert!(!shown_categories(&a).contains(&"Games".to_string()));
    assert_eq!(a.selected_category, 2);
    assert_eq!(a.selected_app, 0);
    assert_eq!(shown(&a), Vec::<String>::new());
    assert!(get_selected_app(&a).is_none());
    assert_eq!(handle_key(&mut a, Key::Tab), KeyOutcome::Continue);
    assert_eq!(a.focus, Focus::Categories);
    assert_eq!(handle_key(&mut a, Key::Up), KeyOutcome::Continue);
    assert_eq!(a.focus, Focus::Search);
    let mut b = app(Mode::DualPane, "bottom");
    type_text(&mut b, "xyz123");
    b.focus = Focus::Categories;
    handle_key(&mut b, Key::Up);
    assert_eq!(b.focus, Focus::Categories);
    handle_key(&mut b, Key::Down);
    assert_eq!(b.focus, Focus::Search);
}

#[test]
fn scenario_mode_toggle_resets_selection() {
    let mut a = app(Mode::SinglePane, "top");
    a.focus = Focus::Apps;
    a.selected_app = 3;
    a.selected_category = 2;
    assert_eq!(handle_key(&mut a, Key::Char('m')), KeyOutcome::ToggleMode);
    assert_eq!(a.mode, Mode::SinglePane);
    switch_mode(&mut a, &sources());
    assert_eq!(a.mode, Mode::DualPane);
    assert_eq!(a.selected_category, 0);
    assert_eq!(a.selected_app, 0);
    assert_eq!(a.focus, Focus::Categories);
    assert_eq!(a.categories, strings(&["Recent", "Development", "Games"]));
    assert_eq!(a.apps.len(), 2);
    assert_eq!(a.apps[0].command, "zed");

    let mut b = app(Mode::SinglePane, "top");
    b.config = config("top", true);
    b.focus = Focus::Apps;
    b.selected_app = 2;
    switch_mode(&mut b, &sources());
    assert_eq!(b.mode, Mode::DualPane);
    assert_eq!(b.selected_category, 0);
    assert_eq!(b.selected_app, 0);
    assert_eq!(b.focus, Focus::Search);
}

#[test]
fn toggle_back_to_single_pane_sorts_and_focuses_list() {
    let mut a = app(Mode::DualPane, "top");
    a.selected_category = 1;
    a.selected_app = 1;
    a.toggle_mode(&sources());
    assert_eq!(a.mode, Mode::SinglePane);
    assert_eq!(a.focus, Focus::Apps);
    assert_eq!(a.selected_category, 0);
    assert_eq!(a.selected_app, 0);
    let names: Vec<String> = a.apps.iter().map(|e| e.name.clone()).collect();
    assert_eq!(names, strings(&["Doom", "Zed"]));
    a.single_pane_mode = SinglePaneMode::Dmenu;
    a.toggle_mode(&sources());
    assert_eq!(a.mode, Mode::DualPane);
    assert_eq!(a.focus, Focus::Categories);
    a.toggle_mode(&sources());
    let names: Vec<String> = a.apps.iter().map(|e| e.name.clone()).collect();
    assert_eq!(names, strings(&["awk", "zip"]));
    assert_eq!(a.categories, strings(&["CLI"]));
}

#[test]
fn new_session_starts_in_search() {
    let cfg = config("top", false);
    let a = App::new(SinglePaneMode::Dmenu, Mode::SinglePane, &cfg, &sources(), strings(&["zip"]));
    assert_eq!(a.mode, Mode::SinglePane);
    assert_eq!(a.focus, Focus::Search);
    assert_eq!(a.search_query, "");
    assert_eq!(a.cursor_position, 0);
    assert_eq!(a.selected_app, 0);
    assert_eq!(a.selected_category, 0);
    assert!(!a.should_quit);
    assert_eq!(a.app_to_launch, None);
    assert_eq!(a.recent_apps, strings(&["zip"]));
    assert_eq!(a.categories, strings(&["CLI"]));
    assert_eq!(a.apps.len(), 2);
    assert_eq!(a.config.search_position, SearchPosition::Top);
    let b = App::new(SinglePaneMode::Dmenu, Mode::DualPane, &cfg, &sources(), Vec::new());
    assert_eq!(b.mode, Mode::DualPane);
    assert_eq!(b.apps[0].name, "Zed");
}

#[test]
fn edits_happen_at_the_cursor() {
    let mut a = app(Mode::SinglePane, "top");
    type_text(&mut a, "ac");
    assert_eq!(a.cursor_position, 2);
    handle_key(&mut a, Key::Left);
    assert_eq!(a.cursor_position, 1);
    type_text(&mut a, "b");
    assert_eq!(a.search_query, "abc");
    assert_eq!(a.cursor_position, 2);
    handle_key(&mut a, Key::Home);
    assert_eq!(a.cursor_position, 0);
    handle_key(&mut a, Key::Left);
    assert_eq!(a.cursor_position, 0);
    handle_key(&mut a, Key::Backspace);
    assert_eq!(a.search_query, "abc");
    handle_key(&mut a, Key::Delete);
    assert_eq!(a.search_query, "bc");
    assert_eq!(a.cursor_position, 0);
    handle_key(&mut a, Key::End);
    assert_eq!(a.cursor_position, 2);
    handle_key(&mut a, Key::Right);
    assert_eq!(a.cursor_position, 2);
    handle_key(&mut a, Key::Delete);
    assert_eq!(a.search_query, "bc");
    handle_key(&mut a, Key::Backspace);
    assert_eq!(a.search_query, "b");
    assert_eq!(a.cursor_position, 1);
}

#[test]
fn edits_count_characters_not_bytes() {
    let mut a = app(Mode::SinglePane, "top");
    type_text(&mut a, "éq");
    assert_eq!(a.search_query, "éq");
    assert_eq!(a.cursor_position, 2);
    handle_key(&mut a, Key::Left);
    type_text(&mut a, "q");
    assert_eq!(a.search_query, "éqq");
    handle_key(&mut a, Key::Home);
    handle_key(&mut a, Key::Delete);
    assert_eq!(a.search_query, "qq");
}

#[test]
fn cursor_beyond_the_query_edits_at_the_end() {
    let mut a = app(Mode::SinglePane, "top");
    a.search_query = "ab".to_string();
    a.cursor_position = 9;
    handle_key(&mut a, Key::Backspace);
    assert_eq!(a.search_query, "ab");
    assert_eq!(a.cursor_position, 9);
    type_text(&mut a, "c");
    assert_eq!(a.search_query, "abc");
    assert_eq!(a.cursor_position, 3);
}

#[test]
fn every_edit_leaves_a_valid_selection() {
    for mode in [Mode::SinglePane, Mode::DualPane] {
        let mut a = app(mode, "top");
        a.recent_apps = strings(&["Fizz"]);
        a.selected_app = 4;
        a.selected_category = 3;
        let keys = [
            Key::Char('f'), Key::Char('i'), Key::Char('z'), Key::Backspace, Key::Char('r'),
            Key::Char('x'), Key::Backspace, Key::Backspace, Key::Backspace, Key::Char('d'),
            Key::Home, Key::Delete, Key::Char('t'), Key::Char('h'),
        ];
        for key in keys {
            let before = a.search_query.clone();
            handle_key(&mut a, key);
            if a.search_query != before {
                let count = count_filtered_apps_in_current_category(&a);
                assert_eq!(a.selected_app, 0);
                assert!(count == 0 || a.selected_app < count);
                if count > 0 {
                    assert!(get_selected_app(&a).is_some());
                }
            }
        }
    }
}

#[test]
fn update_selection_after_search_rules() {
    let mut a = app(Mode::DualPane, "top");
    a.selected_category = 2;
    a.selected_app = 7;
    update_selection_after_search(&mut a);
    assert_eq!((a.selected_category, a.selected_app), (0, 0));
    a.search_query = "zzz".to_string();
    a.selected_category = 2;
    a.selected_app = 7;
    update_selection_after_search(&mut a);
    assert_eq!((a.selected_category, a.selected_app), (2, 0));
    a.search_query = "do".to_string();
    update_selection_after_search(&mut a);
    assert_eq!((a.selected_category, a.selected_app), (0, 0));
    let mut b = app(Mode::SinglePane, "top");
    b.search_query = "f".to_string();
    b.selected_category = 2;
    b.selected_app = 7;
    update_selection_after_search(&mut b);
    assert_eq!((b.selected_category, b.selected_app), (2, 0));
}

#[test]
fn tab_cycles_through_panes() {
    let mut a = app(Mode::SinglePane, "top");
    handle_key(&mut a, Key::Tab);
    assert_eq!(a.focus, Focus::Apps);
    handle_key(&mut a, Key::Tab);
    assert_eq!(a.focus, Focus::Search);
    let mut b = app(Mode::DualPane, "top");
    handle_key(&mut b, Key::Tab);
    assert_eq!(b.focus, Focus::Categories);
    handle_key(&mut b, Key::Tab);
    assert_eq!(b.focus, Focus::Apps);
    handle_key(&mut b, Key::Tab);
    assert_eq!(b.focus, Focus::Search);
}

#[test]
fn moves_in_the_flat_list_with_search_on_top() {
    let mut a = app(Mode::SinglePane, "top");
    handle_key(&mut a, Key::Up);
    assert_eq!(a.focus, Focus::Search);
    handle_key(&mut a, Key::Down);
    assert_eq!(a.focus, Focus::Apps);
    assert_eq!(a.selected_app, 0);
    for expected in 1..5 {
        handle_key(&mut a, Key::Down);
        assert_eq!(a.selected_app, expected);
    }
    handle_key(&mut a, Key::Char('j'));
    assert_eq!(a.selected_app, 4);
    assert_eq!(a.focus, Focus::Apps);
    handle_key(&mut a, Key::Char('k'));
    assert_eq!(a.selected_app, 3);
    handle_key(&mut a, Key::Char('h'));
    assert_eq!(a.selected_app, 2);
    handle_key(&mut a, Key::Char('l'));
    assert_eq!(a.selected_app, 3);
    a.selected_app = 0;
    handle_key(&mut a, Key::Char('h'));
    assert_eq!((a.selected_app, a.focus), (0, Focus::Apps));
    handle_key(&mut a, Key::Up);
    assert_eq!(a.focus, Focus::Search);
}

#[test]
fn moves_in_the_flat_list_with_search_at_bottom() {
    let mut a = app(Mode::SinglePane, "bottom");
    handle_key(&mut a, Key::Down);
    assert_eq!(a.focus, Focus::Search);
    handle_key(&mut a, Key::Up);
    assert_eq!(a.focus, Focus::Apps);
    handle_key(&mut a, Key::Up);
    assert_eq!((a.selected_app, a.focus), (0, Focus::Apps));
    a.selected_app = 4;
    handle_key(&mut a, Key::Down);
    assert_eq!((a.selected_app, a.focus), (4, Focus::Search));
}

#[test]
fn single_item_list_leaves_towards_the_search_bar() {
    let mut a = app(Mode::SinglePane, "bottom");
    a.apps = vec![entry("Only", "Utilities")];
    a.focus = Focus::Apps;
    handle_key(&mut a, Key::Down);
    assert_eq!(a.focus, Focus::Search);
    let mut b = app(Mode::SinglePane, "top");
    b.apps = Vec::new();
    b.focus = Focus::Apps;
    handle_key(&mut b, Key::Down);
    assert_eq!(b.focus, Focus::Apps);
    handle_key(&mut b, Key::Up);
    assert_eq!(b.focus, Focus::Search);
}

#[test]
fn moves_between_categories() {
    let mut a = app(Mode::DualPane, "top");
    handle_key(&mut a, Key::Down);
    assert_eq!(a.focus, Focus::Categories);
    a.selected_app = 1;
    handle_key(&mut a, Key::Down);
    assert_eq!((a.selected_category, a.selected_app), (1, 0));
    assert_eq!(shown(&a), strings(&["Firefox", "Thunderbird"]));
    handle_key(&mut a, Key::Char('j'));
    assert_eq!(a.selected_category, 2);
    handle_key(&mut a, Key::Down);
    assert_eq!((a.selected_category, a.focus), (2, Focus::Categories));
    handle_key(&mut a, Key::Char('h'));
    assert_eq!(a.selected_category, 1);
    handle_key(&mut a, Key::Char('k'));
    assert_eq!(a.selected_category, 0);
    handle_key(&mut a, Key::Char('k'));
    assert_eq!((a.selected_category, a.focus), (0, Focus::Search));
}

#[test]
fn left_and_right_switch_panes_in_dual_mode() {
    let mut a = app(Mode::DualPane, "top");
    a.focus = Focus::Categories;
    handle_key(&mut a, Key::Right);
    assert_eq!(a.focus, Focus::Apps);
    handle_key(&mut a, Key::Right);
    assert_eq!(a.focus, Focus::Apps);
    handle_key(&mut a, Key::Left);
    assert_eq!(a.focus, Focus::Categories);
    handle_key(&mut a, Key::Char('l'));
    assert_eq!(a.focus, Focus::Apps);
    handle_key(&mut a, Key::Char('l'));
    assert_eq!((a.focus, a.selected_app), (Focus::Apps, 1));
    handle_key(&mut a, Key::Char('h'));
    assert_eq!(a.focus, Focus::Categories);
    let mut b = app(Mode::SinglePane, "top");
    b.focus = Focus::Apps;
    handle_key(&mut b, Key::Left);
    handle_key(&mut b, Key::Right);
    assert_eq!((b.focus, b.selected_app), (Focus::Apps, 0));
}

#[test]
fn letters_are_typed_while_searching_and_commands_elsewhere() {
    let mut a = app(Mode::SinglePane, "top");
    type_text(&mut a, "qmkjhl");
    assert_eq!(a.search_query, "qmkjhl");
    assert_eq!(a.focus, Focus::Search);
    a.focus = Focus::Apps;
    assert_eq!(handle_key(&mut a, Key::Char('q')), KeyOutcome::Quit);
    assert_eq!(handle_key(&mut a, Key::Char('m')), KeyOutcome::ToggleMode);
    assert_eq!(handle_key(&mut a, Key::Char('x')), KeyOutcome::Continue);
    assert_eq!(handle_key(&mut a, Key::Backspace), KeyOutcome::Continue);
    assert_eq!(handle_key(&mut a, Key::Other), KeyOutcome::Continue);
    assert_eq!(a.search_query, "qmkjhl");
    assert_eq!(handle_key(&mut a, Key::Esc), KeyOutcome::Quit);
    a.focus = Focus::Search;
    assert_eq!(handle_key(&mut a, Key::Esc), KeyOutcome::Quit);
    assert!(!a.should_quit);
}

#[test]
fn commit_launches_the_selected_entry_and_records_it() {
    let mut a = app(Mode::SinglePane, "top");
    a.recent_apps = strings(&["Doom", "Fizz"]);
    type_text(&mut a, "fi");
    a.selected_app = 2;
    assert_eq!(selected_index(&a), Some(2));
    assert_eq!(get_selected_app(&a).unwrap().name, "Fizz");
    assert_eq!(handle_key(&mut a, Key::Enter), KeyOutcome::Launch(2));
    assert_eq!(a.app_to_launch.as_deref(), Some("run-fizz"));
    assert!(a.should_quit);
    assert_eq!(a.recent_apps, strings(&["Fizz", "Doom"]));
}

#[test]
fn commit_without_selection_does_nothing() {
    let mut a = app(Mode::SinglePane, "top");
    type_text(&mut a, "xyz123");
    assert_eq!(handle_key(&mut a, Key::Enter), KeyOutcome::Continue);
    assert_eq!(a.app_to_launch, None);
    assert!(!a.should_quit);
    assert_eq!(commit(&mut a), None);
    let mut b = app(Mode::SinglePane, "top");
    b.selected_app = 5;
    assert_eq!(handle_key(&mut b, Key::Enter), KeyOutcome::Continue);
    assert!(b.recent_apps.is_empty());
}

#[test]
fn commit_reads_the_same_list_as_the_renderer() {
    let mut a = app(Mode::DualPane, "top");
    a.recent_apps = strings(&["Thunderbird", "Files"]);
    for (query, category, place) in [("", 0, 1), ("", 2, 1), ("f", 1, 1), ("t", 0, 0)] {
        a.search_query = query.to_string();
        a.selected_category = category;
        a.selected_app = place;
        let list = shown(&a);
        let picked = get_selected_app(&a).map(|e| e.name.clone());
        assert_eq!(picked.as_ref(), list.get(place));
        let view = dstl::ui::dual_pane_view(&a);
        assert_eq!(view.apps, list);
    }
}
