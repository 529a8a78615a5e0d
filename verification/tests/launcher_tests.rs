use workset::coords::NativeRect;
use workset::error::WorksetError;
use workset::launcher::{
    choose_target_monitor, effective_rules, new_windows, poll_new_window, step, wait_budget_ms,
    LaunchAction, LaunchContext, LaunchEvent, LaunchStage,
};
use workset::models::{CapturedWindow, FloatBits, MatchRules, MonitorInfo, WorkspaceApp};
use workset::processes::LaunchPlan;

fn fb(v: f64) -> FloatBits {
    FloatBits { bits: v.to_bits() }
}

fn app(policy: &str) -> WorkspaceApp {
    WorkspaceApp {
        id: "a1".to_owned(),
        workspace_id: "w1".to_owned(),
        sort_order: 0,
        name: "Demo".to_owned(),
        exe_path: "C:\\App\\demo.exe".to_owned(),
        args: vec!["--new-window".to_owned()],
        cwd: String::new(),
        url: String::new(),
        app_icon: String::new(),
        match_rules: MatchRules::empty(),
        launch_delay_ms: 250,
        target_monitor: "right".to_owned(),
        x: fb(0.0),
        y: fb(0.0),
        w: fb(0.5),
        h: fb(0.5),
        window_state: "normal".to_owned(),
        launch_policy: policy.to_owned(),
    }
}

fn mon(id: &str, x: i32, primary: bool) -> MonitorInfo {
    MonitorInfo {
        id: id.to_owned(),
        x,
        y: 0,
        w: 1920,
        h: 1080,
        work_x: x,
        work_y: 0,
        work_w: 1920,
        work_h: 1040,
        scale: fb(1.0),
        is_primary: primary,
        name: format!("Display {id}"),
    }
}

fn win(hwnd: i64, exe: &str, title: &str) -> CapturedWindow {
    CapturedWindow {
        hwnd,
        pid: 77,
        exe_path: exe.to_owned(),
        title: title.to_owned(),
        class: String::new(),
        x: 0,
        y: 0,
        w: 100,
        h: 100,
        monitor_id: String::new(),
        state: "normal".to_owned(),
    }
}

fn record(pid: Option<u32>, hwnd: Option<i64>, status: &str, message: &str, rect: Option<NativeRect>) -> LaunchAction {
    LaunchAction::Record { pid, hwnd, status: status.to_owned(), message: message.to_owned(), rect }
}

fn emit(status: &str, message: &str) -> LaunchAction {
    LaunchAction::Emit { status: status.to_owned(), message: message.to_owned() }
}

fn monitors() -> Vec<MonitorInfo> {
    vec![mon("left", -1920, false), mon("right", 0, true)]
}

fn work_right() -> NativeRect {
    NativeRect { x: 0, y: 0, w: 1920, h: 1040 }
}

#[test]
fn effective_rules_fall_back_to_the_exe_stem() {
    let a = app("always_new");
    assert_eq!(effective_rules(&a).exe_contains.as_deref(), Some("demo"));
    let mut b = app("always_new");
    b.match_rules.exe_contains = Some("   ".to_owned());
    b.exe_path = "C:\\Links\\Tool.lnk.lnk".to_owned();
    assert_eq!(effective_rules(&b).exe_contains.as_deref(), Some("Tool"));
    let mut c = app("always_new");
    c.match_rules.exe_contains = Some("keep".to_owned());
    c.match_rules.title_contains = Some("Doc".to_owned());
    let r = effective_rules(&c);
    assert_eq!(r.exe_contains.as_deref(), Some("keep"));
    assert_eq!(r.title_contains.as_deref(), Some("Doc"));
    let mut d = app("always_new");
    d.exe_path = "  ".to_owned();
    assert_eq!(effective_rules(&d).exe_contains, None);
}

#[test]
fn target_monitor_by_id_then_primary_then_first() {
    let ms = monitors();
    assert_eq!(choose_target_monitor(&ms, "left").unwrap().id, "left");
    assert_eq!(choose_target_monitor(&ms, "gone").unwrap().id, "right");
    let none_primary = vec![mon("a", 0, false), mon("b", 1920, false)];
    assert_eq!(choose_target_monitor(&none_primary, "gone").unwrap().id, "a");
    assert!(choose_target_monitor(&[], "left").is_none());
}

#[test]
fn skip_policy_records_and_stops() {
    let c = LaunchContext::new(&app(" skip "), &[], 5000);
    let (stage, acts) = step(&c, LaunchStage::Start, LaunchEvent::Begin);
    assert_eq!(stage, LaunchStage::Finished(Ok(())));
    assert_eq!(acts, vec![record(None, None, "done", "skipped by policy", None), emit("done", "Skipped (policy)")]);
}

#[test]
fn no_monitor_is_recorded_as_a_failure() {
    let c = LaunchContext::new(&app("always_new"), &[], 5000);
    let (stage, acts) = step(&c, LaunchStage::Start, LaunchEvent::Begin);
    assert_eq!(stage, LaunchStage::Finished(Err(WorksetError::Windows("no monitors available".to_owned()))));
    let msg = "windows error: no monitors available";
    assert_eq!(acts, vec![record(None, None, "failed", msg, None), emit("failed", msg)]);
}

#[test]
fn reuse_policies_look_first() {
    let c = LaunchContext::new(&app("reuse"), &monitors(), 5000);
    let (stage, acts) = step(&c, LaunchStage::Start, LaunchEvent::Begin);
    assert_eq!(stage, LaunchStage::LookingForWindow);
    assert_eq!(acts, vec![LaunchAction::ListWindows]);

    let running = vec![win(9, "C:\\Other\\x.exe", "X"), win(7, "C:\\App\\demo.exe", "Demo Doc")];
    let (stage, acts) = step(&c, LaunchStage::LookingForWindow, LaunchEvent::Windows(running.clone()));
    assert_eq!(stage, LaunchStage::Finished(Ok(())));
    let msg = "reusing window 'Demo Doc' (hwnd 7)";
    assert_eq!(acts, vec![
        LaunchAction::Place { hwnd: 7, work: work_right(), report: false },
        record(Some(77), Some(7), "done", msg, None),
        emit("done", msg),
    ]);

    let f = LaunchContext::new(&app("focus"), &monitors(), 5000);
    let (_, acts) = step(&f, LaunchStage::LookingForWindow, LaunchEvent::Windows(running));
    assert_eq!(acts[0], LaunchAction::Focus { hwnd: 7 });

    let (stage, acts) = step(&c, LaunchStage::LookingForWindow, LaunchEvent::Windows(vec![]));
    let msg = "no matching window found (policy only matches)";
    assert_eq!(stage, LaunchStage::Finished(Err(WorksetError::NotFound(msg.to_owned()))));
    assert_eq!(acts, vec![record(None, None, "failed", msg, None), emit("failed", msg)]);
}

#[test]
fn if_not_running_without_a_window_starts() {
    let c = LaunchContext::new(&app("if_not_running"), &monitors(), 5000);
    let (stage, acts) = step(&c, LaunchStage::LookingForWindow, LaunchEvent::Windows(vec![]));
    assert_eq!(stage, LaunchStage::Delaying);
    assert_eq!(acts, vec![emit("launching", "Starting…"), LaunchAction::Pause { ms: 250 }]);
    let mut neg = app("always_new");
    neg.launch_delay_ms = -5;
    let c2 = LaunchContext::new(&neg, &monitors(), 5000);
    let (stage, acts) = step(&c2, LaunchStage::Start, LaunchEvent::Begin);
    assert_eq!(stage, LaunchStage::Delaying);
    assert_eq!(acts[1], LaunchAction::Pause { ms: 0 });
}

#[test]
fn after_the_delay() {
    let c = LaunchContext::new(&app("always_new"), &monitors(), 5000);
    let (stage, acts) = step(&c, LaunchStage::Delaying, LaunchEvent::Resumed { cancelled: true });
    assert_eq!(stage, LaunchStage::Finished(Err(WorksetError::Timeout("launch cancelled".to_owned()))));
    assert!(acts.is_empty());
    let (stage, acts) = step(&c, LaunchStage::Delaying, LaunchEvent::Resumed { cancelled: false });
    assert_eq!(stage, LaunchStage::Probing);
    assert_eq!(acts, vec![LaunchAction::Probe]);

    let mut empty = app("always_new");
    empty.exe_path = " ".to_owned();
    let ce = LaunchContext::new(&empty, &monitors(), 5000);
    let (stage, acts) = step(&ce, LaunchStage::Delaying, LaunchEvent::Resumed { cancelled: false });
    let msg = "nothing to launch: exe_path and url are both empty";
    assert_eq!(stage, LaunchStage::Finished(Err(WorksetError::Validation(msg.to_owned()))));
    assert_eq!(acts, vec![record(None, None, "failed", msg, None), emit("failed", msg)]);

    let mut url = empty.clone();
    url.url = " https://example.com ".to_owned();
    let cu = LaunchContext::new(&url, &monitors(), 5000);
    let (stage, acts) = step(&cu, LaunchStage::Delaying, LaunchEvent::Resumed { cancelled: false });
    assert_eq!(stage, LaunchStage::Spawning);
    let plan = LaunchPlan {
        program: "cmd".to_owned(),
        args: vec!["/C".to_owned(), "start".to_owned(), String::new(), "https://example.com".to_owned()],
        cwd: None,
    };
    assert_eq!(acts, vec![LaunchAction::Spawn(plan)]);
}

#[test]
fn probing_the_executable() {
    let c = LaunchContext::new(&app("always_new"), &monitors(), 5000);
    let (stage, acts) = step(&c, LaunchStage::Probing, LaunchEvent::Probed { exists: false, is_dir: false, cwd_is_dir: false });
    let detail = "executable not found: C:\\App\\demo.exe";
    assert_eq!(stage, LaunchStage::Finished(Err(WorksetError::NotFound(detail.to_owned()))));
    let msg = "invalid executable: not found: executable not found: C:\\App\\demo.exe";
    assert_eq!(acts, vec![record(None, None, "failed", msg, None), emit("failed", msg)]);

    let (stage, acts) = step(&c, LaunchStage::Probing, LaunchEvent::Probed { exists: true, is_dir: false, cwd_is_dir: false });
    assert_eq!(stage, LaunchStage::Spawning);
    let plan = LaunchPlan { program: "C:\\App\\demo.exe".to_owned(), args: vec!["--new-window".to_owned()], cwd: None };
    assert_eq!(acts, vec![LaunchAction::Spawn(plan)]);

    let mut bad_cwd = app("always_new");
    bad_cwd.cwd = "D:\\nowhere".to_owned();
    let cb = LaunchContext::new(&bad_cwd, &monitors(), 5000);
    let (stage, acts) = step(&cb, LaunchStage::Probing, LaunchEvent::Probed { exists: true, is_dir: false, cwd_is_dir: false });
    assert_eq!(stage, LaunchStage::Finished(Err(WorksetError::Validation("working directory does not exist: D:\\nowhere".to_owned()))));
    let msg = "validation error: working directory does not exist: D:\\nowhere";
    assert_eq!(acts, vec![record(None, None, "failed", msg, None), emit("failed", msg)]);
}

#[test]
fn spawn_wait_and_place() {
    let c = LaunchContext::new(&app("always_new"), &monitors(), 4000);
    let (stage, acts) = step(&c, LaunchStage::Spawning, LaunchEvent::Spawned(Ok(42)));
    assert_eq!(stage, LaunchStage::AwaitingWindow { pid: 42 });
    assert_eq!(acts, vec![
        record(Some(42), None, "waiting", "spawned pid 42, waiting for window…", None),
        emit("waiting", "Waiting for window…"),
        LaunchAction::AwaitWindow { timeout_ms: 4000 },
    ]);
    let spawn_err = WorksetError::Windows("failed to launch 'x': denied".to_owned());
    let (stage, acts) = step(&c, LaunchStage::Spawning, LaunchEvent::Spawned(Err(spawn_err.clone())));
    assert_eq!(stage, LaunchStage::Finished(Err(spawn_err)));
    let msg = "windows error: failed to launch 'x': denied";
    assert_eq!(acts, vec![record(None, None, "failed", msg, None), emit("failed", msg)]);

    let timeout = WorksetError::Timeout("no matching window appeared within 4000 ms".to_owned());
    let (stage, acts) = step(&c, LaunchStage::AwaitingWindow { pid: 42 }, LaunchEvent::WindowFound(Err(timeout.clone())));
    assert_eq!(stage, LaunchStage::Finished(Err(timeout)));
    let msg = "launched pid 42 but operation timed out: no matching window appeared within 4000 ms";
    assert_eq!(acts, vec![record(Some(42), None, "failed", msg, None), emit("failed", msg)]);

    let (stage, acts) = step(&c, LaunchStage::AwaitingWindow { pid: 42 }, LaunchEvent::WindowFound(Ok(win(-3, "C:\\App\\demo.exe", "Demo"))));
    assert_eq!(stage, LaunchStage::Positioning { pid: 42, hwnd: -3 });
    assert_eq!(acts, vec![emit("positioning", "Positioning…"), LaunchAction::Place { hwnd: -3, work: work_right(), report: true }]);

    let rect = NativeRect { x: 0, y: 0, w: 960, h: 520 };
    let (stage, acts) = step(&c, LaunchStage::Positioning { pid: 42, hwnd: -3 }, LaunchEvent::Placed { rect, result: Ok(()) });
    assert_eq!(stage, LaunchStage::Finished(Ok(())));
    let msg = "launched on Display right (hwnd -3)";
    assert_eq!(acts, vec![record(Some(42), Some(-3), "done", msg, Some(rect)), emit("done", msg)]);

    let gone = WorksetError::Windows("window no longer exists".to_owned());
    let (stage, acts) = step(&c, LaunchStage::Positioning { pid: 42, hwnd: -3 }, LaunchEvent::Placed { rect, result: Err(gone.clone()) });
    assert_eq!(stage, LaunchStage::Finished(Err(gone)));
    let msg = "window found (hwnd -3) but positioning failed: windows error: window no longer exists";
    assert_eq!(acts, vec![record(Some(42), Some(-3), "failed", msg, Some(rect)), emit("failed", msg)]);
}

#[test]
fn unexpected_events_change_nothing_and_the_end_is_final() {
    let c = LaunchContext::new(&app("always_new"), &monitors(), 4000);
    let (stage, acts) = step(&c, LaunchStage::Probing, LaunchEvent::Begin);
    assert_eq!(stage, LaunchStage::Probing);
    assert!(acts.is_empty());
    let (stage, acts) = step(&c, LaunchStage::Finished(Ok(())), LaunchEvent::Begin);
    assert_eq!(stage, LaunchStage::Finished(Ok(())));
    assert!(acts.is_empty());
}

#[test]
fn polling_only_counts_new_windows() {
    let mut rules = MatchRules::empty();
    rules.exe_contains = Some("demo".to_owned());
    let before = vec![win(1, "C:\\App\\demo.exe", "Old")];
    let now = vec![win(1, "C:\\App\\demo.exe", "Old"), win(2, "C:\\App\\demo.exe", "New")];
    assert_eq!(new_windows(&before, &now).len(), 1);
    assert_eq!(poll_new_window(&before, &now, &rules, false, 900).unwrap().unwrap().hwnd, 2);
    assert!(poll_new_window(&now, &now, &rules, false, 900).is_none());
    let late = poll_new_window(&now, &now, &rules, true, 900).unwrap();
    assert_eq!(late, Err(WorksetError::Timeout("no matching window appeared within 900 ms".to_owned())));
    assert_eq!(wait_budget_ms(100), 250);
    assert_eq!(wait_budget_ms(9000), 9000);
}
