use workset::error::WorksetError;
use workset::models::{FloatBits, MatchRules, MonitorInfo, SessionInfo, SessionWindowRow, Workspace, WorkspaceApp, CapturedWindow};
use workset::session_launch::{effective_timeout, session_step, SessionAction, SessionEvent, SessionStage};
use workset::sessions::{
    check_closable, close_all_outcome, close_all_result, close_attempted, close_target,
    force_kill_target, is_offscreen, plan_close_all, recovery_candidates, recovery_monitor,
    session_app_target, should_recover, CloseTarget,
};
use workset::store::{new_session_with, record_row};

fn fb(v: f64) -> FloatBits {
    FloatBits { bits: v.to_bits() }
}

fn app(id: &str) -> WorkspaceApp {
    WorkspaceApp {
        id: id.to_owned(),
        workspace_id: "w1".to_owned(),
        sort_order: 0,
        name: "Demo".to_owned(),
        exe_path: "C:\\App\\demo.exe".to_owned(),
        args: vec![],
        cwd: String::new(),
        url: String::new(),
        app_icon: String::new(),
        match_rules: MatchRules::empty(),
        launch_delay_ms: 0,
        target_monitor: String::new(),
        x: fb(0.0),
        y: fb(0.0),
        w: fb(0.5),
        h: fb(0.5),
        window_state: "normal".to_owned(),
        launch_policy: "always_new".to_owned(),
    }
}

fn workspace(name: &str, apps: Vec<WorkspaceApp>) -> Workspace {
    Workspace {
        id: "w1".to_owned(),
        name: name.to_owned(),
        description: String::new(),
        icon: String::new(),
        color: "#0078d4".to_owned(),
        is_favorite: false,
        hotkey: String::new(),
        launch_settings: "{}".to_owned(),
        created_at: String::new(),
        updated_at: String::new(),
        apps,
    }
}

fn log(level: &str, message: &str) -> SessionAction {
    SessionAction::Log { level: level.to_owned(), message: message.to_owned() }
}

fn status(s: &str) -> SessionAction {
    SessionAction::SetStatus(s.to_owned())
}

#[test]
fn invalid_workspace_fails_the_session() {
    let ws = workspace("  ", vec![app("a")]);
    let (stage, acts) = session_step(&ws, true, SessionStage::Start, SessionEvent::Begin);
    let e = WorksetError::Validation("workspace name must not be empty".to_owned());
    assert_eq!(stage, SessionStage::Finished(Err(e)));
    assert_eq!(acts, vec![status("failed"), log("failed", "validation error: workspace name must not be empty")]);
}

#[test]
fn every_app_is_launched_in_order() {
    let ws = workspace("Dev", vec![app("a"), app("b")]);
    let (stage, acts) = session_step(&ws, true, SessionStage::Start, SessionEvent::Begin);
    assert_eq!(stage, SessionStage::Checking(0));
    assert_eq!(acts, vec![log("info", "starting launch of workspace 'Dev' (2 app(s))"), SessionAction::CheckCancel]);
    let (stage, acts) = session_step(&ws, true, stage, SessionEvent::Checked { cancelled: false });
    assert_eq!(stage, SessionStage::Launching(0));
    assert_eq!(acts, vec![SessionAction::LaunchApp(0)]);
    let (stage, acts) = session_step(&ws, true, stage, SessionEvent::AppDone);
    assert_eq!(stage, SessionStage::Checking(1));
    assert_eq!(acts, vec![SessionAction::CheckCancel]);
    let (stage, acts) = session_step(&ws, true, stage, SessionEvent::Checked { cancelled: false });
    assert_eq!(acts, vec![SessionAction::LaunchApp(1)]);
    let (stage, acts) = session_step(&ws, true, stage, SessionEvent::AppDone);
    assert_eq!(stage, SessionStage::Finished(Ok(())));
    assert_eq!(acts, vec![
        status("done"),
        log("done", "launch finished"),
        SessionAction::Notify { title: "Workset".to_owned(), body: "Workspace 'Dev' launched".to_owned() },
    ]);
}

#[test]
fn cancellation_and_empty_workspaces() {
    let ws = workspace("Dev", vec![app("a"), app("b")]);
    let (stage, acts) = session_step(&ws, false, SessionStage::Checking(1), SessionEvent::Checked { cancelled: true });
    assert_eq!(stage, SessionStage::Finished(Ok(())));
    assert_eq!(acts, vec![log("cancelled", "launch cancelled by user"), status("cancelled"), SessionAction::EmitCancelled { index: 1 }]);
    let empty = workspace("Empty", vec![]);
    let (stage, acts) = session_step(&empty, false, SessionStage::Start, SessionEvent::Begin);
    assert_eq!(stage, SessionStage::Finished(Ok(())));
    assert_eq!(acts, vec![log("info", "starting launch of workspace 'Empty' (0 app(s))"), status("done"), log("done", "launch finished")]);
    let (stage, acts) = session_step(&ws, false, SessionStage::Start, SessionEvent::AppDone);
    assert_eq!(stage, SessionStage::Start);
    assert!(acts.is_empty());
}

#[test]
fn timeouts() {
    assert_eq!(effective_timeout(Some(50), 15000), 50);
    assert_eq!(effective_timeout(None, 15000), 15000);
    assert_eq!(effective_timeout(None, 10), 1000);
    assert_eq!(effective_timeout(None, -5), 1000);
}

fn row(id: &str, app_id: &str, pid: Option<i64>, hwnd: Option<i64>) -> SessionWindowRow {
    SessionWindowRow {
        id: id.to_owned(),
        session_id: "s1".to_owned(),
        app_id: app_id.to_owned(),
        pid,
        hwnd,
        status: "done".to_owned(),
        message: String::new(),
        last_rect: "{}".to_owned(),
        launched_at: String::new(),
    }
}

#[test]
fn close_targets() {
    let t = close_target(&row("s1:a", "a", Some(0x1_0000_0005), Some(77)));
    assert_eq!(t, CloseTarget { row_id: "s1:a".to_owned(), hwnd: 77, pid: Some(5) });
    let t = close_target(&row("s1:b", "b", Some(0), None));
    assert_eq!(t, CloseTarget { row_id: "s1:b".to_owned(), hwnd: 0, pid: None });
    let rows = vec![row("s1:a", "a", Some(10), Some(1)), row("s1:a2", "a", Some(11), Some(2))];
    assert_eq!(session_app_target(&rows, "a").unwrap().hwnd, 1);
    assert_eq!(
        session_app_target(&rows, "zz"),
        Err(WorksetError::NotFound("no tracked window for app zz".to_owned()))
    );
    assert_eq!(check_closable(0, true), Err(WorksetError::NotFound("window no longer exists".to_owned())));
    assert_eq!(check_closable(5, false), Err(WorksetError::NotFound("window no longer exists".to_owned())));
    assert_eq!(check_closable(5, true), Ok(()));
}

#[test]
fn forced_close_decisions() {
    assert_eq!(force_kill_target(false, None), Ok(None));
    assert_eq!(force_kill_target(true, Some(9)), Ok(Some(9)));
    let e = Err(WorksetError::Validation("window did not close and no pid is known for a force kill".to_owned()));
    assert_eq!(force_kill_target(true, None), e);
    assert_eq!(force_kill_target(true, Some(0)), e);
}

#[test]
fn closing_a_whole_session() {
    assert_eq!(plan_close_all("s9", &[]), Err(WorksetError::NotFound("session s9 has no tracked windows".to_owned())));
    let rows = vec![row("s1:a", "a", Some(10), Some(1)), row("s1:b", "b", None, None)];
    let ts = plan_close_all("s1", &rows).unwrap();
    assert_eq!(ts.len(), 2);
    assert_eq!(ts[1].hwnd, 0);
    assert_eq!(close_all_result(2, 2), Err(WorksetError::Windows("could not close any window of the session".to_owned())));
    assert_eq!(close_all_result(2, 1), Ok(()));
}

fn session(id: &str, status: &str, windows: Vec<SessionWindowRow>) -> SessionInfo {
    SessionInfo {
        id: id.to_owned(),
        workspace_id: "w1".to_owned(),
        status: status.to_owned(),
        started_at: String::new(),
        finished_at: None,
        windows,
    }
}

fn mon(id: &str, x: i32, primary: bool) -> MonitorInfo {
    MonitorInfo {
        id: id.to_owned(),
        x,
        y: 0,
        w: 1920,
        h: 1080,
        work_x: x,
        work_y: 0,
        work_w: 1920,
        work_h: 1040,
        scale: fb(1.0),
        is_primary: primary,
        name: id.to_owned(),
    }
}

#[test]
fn offscreen_recovery_choices() {
    let ss = vec![
        session("s1", "running", vec![row("r1", "a", None, Some(11)), row("r2", "b", None, Some(0))]),
        session("s2", "cancelled", vec![row("r3", "a", None, Some(12))]),
        session("s3", "done", vec![row("r4", "a", None, Some(13)), row("r5", "b", None, None)]),
    ];
    assert_eq!(recovery_candidates(&ss), vec![11, 13]);
    let ms = vec![mon("left", -1920, false), mon("main", 0, true)];
    assert_eq!(recovery_monitor(&ms).unwrap().id, "main");
    assert!(recovery_monitor(&[]).is_none());
    let mut w = CapturedWindow {
        hwnd: 1,
        pid: 1,
        exe_path: String::new(),
        title: "t".to_owned(),
        class: String::new(),
        x: 5000,
        y: 5000,
        w: 100,
        h: 100,
        monitor_id: String::new(),
        state: "normal".to_owned(),
    };
    assert!(is_offscreen(&ms, &w));
    w.x = -100;
    w.y = 10;
    assert!(!is_offscreen(&ms, &w));
}

#[test]
fn new_sessions_and_rows() {
    let s = new_session_with("s1", "w1", "2024-01-01T00:00:00.000Z");
    assert_eq!(s.status, "running");
    assert_eq!(s.finished_at, None);
    assert!(s.windows.is_empty());
    let r = record_row("s1", "a1", Some(42), Some(7), "done", "ok", "{}", "now");
    assert_eq!(r.id, "s1:a1");
    assert_eq!(r.pid, Some(42));
    assert_eq!(r.hwnd, Some(7));
}

#[test]
fn session_close_outcomes_and_recovery_decisions() {
    let t = |hwnd: i64| CloseTarget { row_id: "r".to_owned(), hwnd, pid: None };
    let targets = vec![t(0), t(5), t(6)];
    assert!(!close_attempted(&targets[0]));
    assert!(close_attempted(&targets[1]));
    assert_eq!(close_all_outcome(&targets, &[false, false, true]), Ok(()));
    assert_eq!(
        close_all_outcome(&targets, &[true, false, false]),
        Err(WorksetError::Windows("could not close any window of the session".to_owned()))
    );
    let ms = vec![mon("main", 0, true)];
    let far = CapturedWindow {
        hwnd: 1,
        pid: 1,
        exe_path: String::new(),
        title: "t".to_owned(),
        class: String::new(),
        x: 5000,
        y: 5000,
        w: 10,
        h: 10,
        monitor_id: String::new(),
        state: "normal".to_owned(),
    };
    assert!(should_recover(&ms, true, &Some(far.clone())));
    assert!(!should_recover(&ms, false, &Some(far)));
    assert!(!should_recover(&ms, true, &None));
}
