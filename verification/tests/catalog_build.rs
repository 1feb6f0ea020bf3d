use dstl::app::{Mode, SinglePaneMode};
use dstl::catalog::{
    any_in_category, application_dirs, build_category_list, executables_dir,
    is_desktop_file_name, load_catalog, load_desktop_apps, load_for_mode, load_from_path,
    sort_by_name, source_kind, SourceKind, Sources,
};
use dstl::desktop::DesktopFile;
use dstl::entry::AppEntry;

fn cs(s: &str) -> Vec<char> {
    s.chars().collect()
}

fn file(name: &str, content: &str) -> DesktopFile {
    DesktopFile { file_name: name.to_string(), content: Some(content.to_string()) }
}

fn desktop(name: &str, command: &str, categories: &str) -> String {
    format!("[Desktop Entry]\nName={}\nExec={}\nCategories={}\n", name, command, categories)
}

fn names(apps: &[AppEntry]) -> Vec<String> {
    apps.iter().map(|a| a.name.clone()).collect()
}

fn entry(name: &str, category: &str) -> AppEntry {
    AppEntry {
        name: name.to_string(),
        category: category.to_string(),
        command: name.to_lowercase(),
        terminal: false,
    }
}

#[test]
fn desktop_suffix() {
    assert!(is_desktop_file_name(&cs("firefox.desktop")));
    assert!(is_desktop_file_name(&cs("a.b.desktop")));
    assert!(!is_desktop_file_name(&cs(".desktop")));
    assert!(!is_desktop_file_name(&cs("firefox.desktop.bak")));
    assert!(!is_desktop_file_name(&cs("firefox.Desktop")));
    assert!(!is_desktop_file_name(&cs("desktop")));
    assert!(!is_desktop_file_name(&cs("")));
}

#[test]
fn builds_entries_in_scan_order() {
    let files = vec![
        file("firefox.desktop", &desktop("Firefox", "firefox %u", "Network;WebBrowser;")),
        file("readme.txt", &desktop("Readme", "cat", "Utility;")),
        file("files.desktop", &desktop("Files", "nautilus --new-window %U", "")),
        file("doom.desktop", &desktop("Doom", "doom", "Game;ActionGame;")),
    ];
    let (categories, apps) = load_desktop_apps(&files, "GNOME");
    assert_eq!(names(&apps), vec!["Firefox", "Files", "Doom"]);
    assert_eq!(apps[0].category, "Network");
    assert_eq!(apps[0].command, "firefox");
    assert!(!apps[0].terminal);
    assert_eq!(apps[1].category, "Utilities");
    assert_eq!(apps[1].command, "nautilus --new-window");
    assert_eq!(apps[2].category, "Games");
    assert_eq!(categories, vec!["Recent", "Utilities", "Network", "Games"]);
}

#[test]
fn first_file_of_a_name_shadows_later_ones() {
    let files = vec![
        file("app.desktop", &desktop("Local", "local", "Utility;")),
        file("app.desktop", &desktop("System", "system", "Utility;")),
    ];
    let (_, apps) = load_desktop_apps(&files, "");
    assert_eq!(names(&apps), vec!["Local"]);
}

#[test]
fn shadowing_holds_for_unreadable_and_hidden_files() {
    let files = vec![
        DesktopFile { file_name: "a.desktop".to_string(), content: None },
        file("a.desktop", &desktop("A", "a", "")),
        file("b.desktop", "[Desktop Entry]\nName=B\nExec=b\nNoDisplay=true\n"),
        file("b.desktop", &desktop("B", "b", "")),
        file("c.desktop", &desktop("C", "c", "")),
    ];
    let (_, apps) = load_desktop_apps(&files, "");
    assert_eq!(names(&apps), vec!["C"]);
}

#[test]
fn first_entry_of_a_name_wins() {
    let files = vec![
        file("one.desktop", &desktop("Editor", "one", "Development;")),
        file("two.desktop", &desktop("Editor", "two", "Office;")),
        file("three.desktop", &desktop("editor", "three", "Office;")),
    ];
    let (categories, apps) = load_desktop_apps(&files, "");
    assert_eq!(names(&apps), vec!["Editor", "editor"]);
    assert_eq!(apps[0].command, "one");
    assert_eq!(categories, vec!["Recent", "Development", "Office"]);
}

#[test]
fn generic_name_stands_in_for_name() {
    let files = vec![file("x.desktop", "[Desktop Entry]\nGenericName=Viewer\nExec=view %f\nTerminal=true\n")];
    let (_, apps) = load_desktop_apps(&files, "");
    assert_eq!(names(&apps), vec!["Viewer"]);
    assert_eq!(apps[0].command, "view");
    assert!(apps[0].terminal);
}

#[test]
fn desktop_rules_filter_entries() {
    let files = vec![
        file("g.desktop", "[Desktop Entry]\nName=G\nExec=g\nOnlyShowIn=GNOME;\n"),
        file("k.desktop", "[Desktop Entry]\nName=K\nExec=k\nOnlyShowIn=KDE;\n"),
        file("n.desktop", "[Desktop Entry]\nName=N\nExec=n\nNotShowIn=GNOME;\n"),
    ];
    let (_, apps) = load_desktop_apps(&files, "ubuntu:GNOME");
    assert_eq!(names(&apps), vec!["G"]);
    let (_, apps) = load_desktop_apps(&files, "KDE");
    assert_eq!(names(&apps), vec!["K", "N"]);
}

#[test]
fn every_listed_category_has_an_entry() {
    let files = vec![
        file("a.desktop", &desktop("A", "a", "Settings;")),
        file("b.desktop", &desktop("B", "b", "Education;")),
        file("c.desktop", &desktop("C", "c", "Settings;")),
    ];
    let (categories, apps) = load_desktop_apps(&files, "");
    assert_eq!(categories, vec!["Recent", "Education", "Settings"]);
    for label in categories.iter().skip(1) {
        assert!(apps.iter().any(|a| &a.category == label));
        assert!(any_in_category(&apps, label));
    }
    for a in &apps {
        assert!(categories.contains(&a.category));
    }
    assert!(!any_in_category(&apps, "Games"));
}

#[test]
fn empty_scan_gives_recent_slot_only() {
    let (categories, apps) = load_desktop_apps(&Vec::new(), "");
    assert_eq!(categories, vec!["Recent"]);
    assert!(apps.is_empty());
    assert_eq!(build_category_list(&Vec::new()), vec!["Recent"]);
}

#[test]
fn category_list_has_fixed_order() {
    let apps = vec![entry("a", "Settings"), entry("b", "Utilities"), entry("c", "CLI"), entry("d", "Games")];
    assert_eq!(build_category_list(&apps), vec!["Recent", "Utilities", "Games", "Settings"]);
}

#[test]
fn path_listing_gives_cli_entries() {
    let listing = vec!["ls".to_string(), "Bash".to_string()];
    let (categories, apps) = load_from_path(&listing);
    assert_eq!(categories, vec!["CLI"]);
    assert_eq!(names(&apps), vec!["ls", "Bash"]);
    for a in &apps {
        assert_eq!(a.category, "CLI");
        assert_eq!(a.command, a.name);
        assert!(a.terminal);
        assert!(a.needs_terminal());
    }
    let (categories, apps) = load_from_path(&Vec::new());
    assert_eq!(categories, vec!["CLI"]);
    assert!(apps.is_empty());
}

#[test]
fn sort_by_name_is_case_blind_and_stable() {
    let apps = vec![entry("zsh", "CLI"), entry("Bash", "CLI"), entry("awk", "CLI"), entry("bash", "CLI"), entry("BASH", "CLI")];
    let sorted = sort_by_name(&apps);
    assert_eq!(names(&sorted), vec!["awk", "Bash", "bash", "BASH", "zsh"]);
    assert_eq!(sorted[1].command, "bash");
    assert!(sort_by_name(&Vec::new()).is_empty());
}

#[test]
fn flat_catalogs_are_sorted() {
    let sources = Sources {
        desktop_files: vec![
            file("z.desktop", &desktop("Zed", "zed", "Development;")),
            file("a.desktop", &desktop("alacritty", "alacritty", "System;")),
            file("m.desktop", &desktop("Mail", "mail", "Network;")),
        ],
        desktop_hint: String::new(),
        path_names: vec!["zip".to_string(), "Xorg".to_string(), "cat".to_string()],
    };
    let (categories, apps) = load_for_mode(SinglePaneMode::DesktopApps, &sources);
    assert_eq!(names(&apps), vec!["alacritty", "Mail", "Zed"]);
    assert_eq!(categories, vec!["Recent", "Development", "Network", "System"]);
    let (categories, apps) = load_for_mode(SinglePaneMode::Dmenu, &sources);
    assert_eq!(names(&apps), vec!["cat", "Xorg", "zip"]);
    assert_eq!(categories, vec!["CLI"]);
    let (_, apps) = load_catalog(Mode::DualPane, SinglePaneMode::Dmenu, &sources);
    assert_eq!(names(&apps), vec!["Zed", "alacritty", "Mail"]);
    let (_, apps) = load_catalog(Mode::SinglePane, SinglePaneMode::Dmenu, &sources);
    assert_eq!(names(&apps), vec!["cat", "Xorg", "zip"]);
}

#[test]
fn scanned_directories() {
    assert_eq!(
        application_dirs(Some("/home/ann".to_string())),
        vec!["/home/ann/.local/share/applications", "/usr/share/applications"]
    );
    assert_eq!(
        application_dirs(None),
        vec!["/home/.local/share/applications", "/usr/share/applications"]
    );
    assert_eq!(application_dirs(Some(String::new()))[0], "/.local/share/applications");
    assert_eq!(executables_dir(), "/usr/bin");
}

#[test]
fn source_kinds() {
    assert_eq!(source_kind(Mode::SinglePane, SinglePaneMode::Dmenu), SourceKind::PathListing);
    assert_eq!(source_kind(Mode::SinglePane, SinglePaneMode::DesktopApps), SourceKind::DesktopFiles);
    assert_eq!(source_kind(Mode::DualPane, SinglePaneMode::Dmenu), SourceKind::DesktopFiles);
    assert_eq!(source_kind(Mode::DualPane, SinglePaneMode::DesktopApps), SourceKind::DesktopFiles);
}
