use workset::discovery::{discover_apps, display_name, parse_lnk_target};
use workset::models::{AppSettings, DiscoveredApp};
use workset::numbers::{format_i64, parse_i64};
use workset::settings::{defaults, load, parse_bool, save, StoredSettings};
use workset::windows::{describe_window, find_window, window_placement, Placement, WindowFacts};

#[test]
fn defaults_are_documented_values() {
    let d = defaults();
    assert_eq!(d.theme, "system");
    assert_eq!(d.default_timeout_ms, 15000);
    assert_eq!(d.default_match_policy, "exe_and_title");
    assert!(!d.confirm_before_launch);
    assert!(d.notifications_enabled);
}

#[test]
fn flags_and_numbers_parse() {
    assert_eq!(parse_bool(" YES "), Some(true));
    assert_eq!(parse_bool("Off"), Some(false));
    assert_eq!(parse_bool("maybe"), None);
    assert_eq!(parse_i64("15000"), Some(15000));
    assert_eq!(parse_i64("-42"), Some(-42));
    assert_eq!(parse_i64("+7"), Some(7));
    assert_eq!(parse_i64("-9223372036854775808"), Some(i64::MIN));
    assert_eq!(parse_i64("9223372036854775808"), None);
    assert_eq!(parse_i64(" 1"), None);
    assert_eq!(parse_i64("-"), None);
    assert_eq!(parse_i64(""), None);
    assert_eq!(format_i64(i64::MIN), "-9223372036854775808");
    assert_eq!(format_i64(0), "0");
    assert_eq!(format_i64(1205), "1205");
}

#[test]
fn load_after_save_gives_the_settings_back() {
    let s = AppSettings {
        theme: "dark".to_owned(),
        default_timeout_ms: -5,
        default_match_policy: "exe_only".to_owned(),
        confirm_before_launch: true,
        notifications_enabled: false,
    };
    let entries = save(&s);
    let get = |k: &str| entries.iter().find(|e| e.0 == k).map(|e| e.1.clone());
    let back = load(StoredSettings {
        theme: get("theme"),
        default_timeout_ms: get("default_timeout_ms"),
        default_match_policy: get("default_match_policy"),
        confirm_before_launch: get("confirm_before_launch"),
        notifications_enabled: get("notifications_enabled"),
    });
    assert_eq!(back, s);
    let empty = load(StoredSettings {
        theme: None,
        default_timeout_ms: Some("abc".to_owned()),
        default_match_policy: None,
        confirm_before_launch: Some("bogus".to_owned()),
        notifications_enabled: None,
    });
    assert_eq!(empty, defaults());
}

fn app(name: &str, exe: &str, source: &str) -> DiscoveredApp {
    DiscoveredApp {
        name: name.to_owned(),
        exe_path: exe.to_owned(),
        source: source.to_owned(),
        icon: String::new(),
    }
}

#[test]
fn discovery_dedups_and_sorts() {
    let found = vec![
        app("Zed", "C:\\Z.lnk", "start_menu"),
        app("alpha", "C:\\A.EXE", "installed"),
        app("Alpha2", "c:\\a.exe", "running"),
        app("blank", "   ", "running"),
        app("Beta", "C:\\B.exe", "running"),
    ];
    let out = discover_apps(found);
    let names: Vec<&str> = out.iter().map(|a| a.name.as_str()).collect();
    assert_eq!(names, vec!["alpha", "Beta", "Zed"]);
    assert_eq!(out[0].source, "installed");
    assert_eq!(parse_lnk_target("C:\\x\\App.lnk"), "C:\\x\\App.lnk");
    assert_eq!(display_name("C:\\x\\My App.lnk"), "My App");
    assert_eq!(display_name("C:/x/.hidden"), ".hidden");
    assert_eq!(display_name("C:\\x\\  .lnk"), "Unknown");
}

fn facts() -> WindowFacts {
    WindowFacts {
        hwnd: 7,
        visible: true,
        title: "Doc - Editor".to_owned(),
        class: "EditorWnd".to_owned(),
        rect: Some((10, 20, 110, 220)),
        pid: 5,
        own_pid: 1,
        cloaked: false,
        iconic: false,
        zoomed: true,
        exe_path: "C:\\e.exe".to_owned(),
    }
}

#[test]
fn window_listing_rules() {
    let w = describe_window(&facts()).unwrap();
    assert_eq!((w.x, w.y, w.w, w.h), (10, 20, 100, 200));
    assert_eq!(w.state, "maximized");
    let mut f = facts();
    f.class = "Progman".to_owned();
    assert!(describe_window(&f).is_none());
    let mut f = facts();
    f.pid = 1;
    assert!(describe_window(&f).is_none());
    let mut f = facts();
    f.title = "  ".to_owned();
    assert!(describe_window(&f).is_none());
    let mut f = facts();
    f.rect = Some((0, 0, 0, 10));
    assert!(describe_window(&f).is_none());
    let wins = vec![w.clone()];
    assert_eq!(find_window(&wins, 7), Some(w));
    assert_eq!(find_window(&wins, 8), None);
}

#[test]
fn placements() {
    assert_eq!(window_placement(1, 2, 3, 4, "minimized"), Placement::Minimize);
    assert_eq!(window_placement(1, 2, 3, 4, "fullscreen"), Placement::Maximize { x: 1, y: 2, w: 3, h: 4 });
    assert_eq!(window_placement(-1920, 0, 0, 5, "maximized"), Placement::Maximize { x: -1920, y: 0, w: 1, h: 5 });
    assert_eq!(
        window_placement(1, 2, 0, -4, "normal"),
        Placement::Restore { x: 1, y: 2, w: 1, h: 1 }
    );
}
