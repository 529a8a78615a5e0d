use workset::matching::{find_best, find_best_with, is_title_match, score_window};
use workset::models::{CapturedWindow, MatchRules};

fn win(exe: &str, title: &str, class: &str) -> CapturedWindow {
    CapturedWindow {
        hwnd: 1,
        pid: 10,
        exe_path: exe.to_owned(),
        title: title.to_owned(),
        class: class.to_owned(),
        x: 0,
        y: 0,
        w: 100,
        h: 100,
        monitor_id: String::new(),
        state: "normal".to_owned(),
    }
}

fn rules(exe: &str, title: &str) -> MatchRules {
    MatchRules {
        exe_contains: if exe.is_empty() { None } else { Some(exe.to_owned()) },
        title_contains: if title.is_empty() { None } else { Some(title.to_owned()) },
        title_regex: None,
        window_class: None,
        use_regex: false,
    }
}

#[test]
fn scoring_weights() {
    let w = win("C:\\App\\demo.exe", "Demo - Document", "DemoClass");
    let r = rules("demo.exe", "document");
    assert_eq!(score_window(&w, &r, None), 70);
    assert_eq!(score_window(&w, &r, Some(1)), 85);
}

#[test]
fn class_exact_case_insensitive() {
    let w = win("C:\\a.exe", "t", "Notepad");
    let mut r = rules("", "");
    r.window_class = Some("notepad".to_owned());
    assert_eq!(score_window(&w, &r, None), 30);
}

#[test]
fn regex_match_and_bad_pattern() {
    let w = win("C:\\a.exe", "Project - Editor", "");
    let mut r = rules("", "");
    r.title_regex = Some("^Project.*".to_owned());
    assert_eq!(score_window(&w, &r, None), 25);
    assert!(is_title_match("Project - Editor", &r));

    r.title_regex = Some("([bad".to_owned());
    // invalid regex degrades instead of panicking
    assert_eq!(score_window(&w, &r, None), 0);
    assert!(is_title_match("anything", &r)); // falls back to empty contains
}

#[test]
fn system_penalty_and_best() {
    let sys = win("C:\\Windows\\System32\\sihost.exe", "sihost", "");
    let app = win("C:\\App\\demo.exe", "Demo", "");
    let r = rules("exe", "");
    assert!(score_window(&sys, &r, None) < score_window(&app, &r, None));
    let best = find_best(&[sys, app], &r).unwrap();
    assert_eq!(best.title, "Demo");
    assert!(find_best(&[], &r).is_none());
}

#[test]
fn ties_keep_the_first_and_nothing_positive_gives_none() {
    let mut a = win("C:\\x\\tool.exe", "A", "");
    a.hwnd = 1;
    let mut b = win("C:\\y\\tool.exe", "B", "");
    b.hwnd = 2;
    let r = rules("tool", "");
    assert_eq!(find_best(&[a.clone(), b.clone()], &r).unwrap().hwnd, 1);
    let none = rules("absent", "");
    assert!(find_best(&[a.clone(), b.clone()], &none).is_none());
    // freshness alone is enough to make a window a candidate
    assert_eq!(find_best_with(&[a, b], &none, Some(5)).unwrap().hwnd, 1);
}

#[test]
fn blank_rules_are_ignored_and_title_is_case_insensitive() {
    let w = win("C:\\App\\demo.exe", "Report – Q3", "");
    let mut r = rules("   ", "  report ");
    assert_eq!(score_window(&w, &r, None), 20);
    assert!(is_title_match("MY REPORT", &r));
    assert!(!is_title_match("other", &r));
    r.title_contains = None;
    assert!(is_title_match("whatever", &r));
}

#[test]
fn title_hit_alone_never_picks_a_window() {
    let w = win("C:\\Other\\tool.exe", "Quarterly Report", "");
    let r = rules("", "report");
    assert_eq!(score_window(&w, &r, None), 20);
    assert!(find_best(&[w.clone()], &r).is_none());
    // with more evidence the same window is picked
    assert_eq!(find_best_with(&[w.clone()], &r, Some(1)).unwrap().title, "Quarterly Report");
    let r2 = rules("tool", "report");
    assert_eq!(find_best(&[w], &r2).unwrap().title, "Quarterly Report");
}
