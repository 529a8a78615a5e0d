use workset::commands::{
    app_patch_from, apply_app_patch, apply_ws_patch, cancel_targets, find_app, log_line,
    plan_setting, stored_text, value_to_bool, workspace_patch_from, AppPatch, ArgsPatch,
    PatchField, SettingValue, WorkspacePatch,
};
use workset::error::WorksetError;
use workset::models::{FloatBits, LaunchLog, MatchRules, SessionInfo, Workspace, WorkspaceApp};

fn fb(v: f64) -> FloatBits {
    FloatBits { bits: v.to_bits() }
}

fn app(id: &str) -> WorkspaceApp {
    WorkspaceApp {
        id: id.to_owned(),
        workspace_id: "w1".to_owned(),
        sort_order: 3,
        name: "Demo".to_owned(),
        exe_path: "C:\\App\\demo.exe".to_owned(),
        args: vec!["--old".to_owned()],
        cwd: String::new(),
        url: String::new(),
        app_icon: String::new(),
        match_rules: MatchRules::empty(),
        launch_delay_ms: 0,
        target_monitor: "m1".to_owned(),
        x: fb(0.0),
        y: fb(0.0),
        w: fb(0.5),
        h: fb(0.5),
        window_state: "normal".to_owned(),
        launch_policy: "if_not_running".to_owned(),
    }
}

fn empty_patch() -> AppPatch {
    AppPatch {
        name: None,
        exe_path: None,
        cwd: None,
        url: None,
        app_icon: None,
        target_monitor: None,
        args: None,
        launch_delay_ms: None,
        x: None,
        y: None,
        w: None,
        h: None,
        window_state: None,
        launch_policy: None,
        match_rules: None,
        sort_order: None,
    }
}

fn workspace(id: &str, apps: Vec<WorkspaceApp>) -> Workspace {
    Workspace {
        id: id.to_owned(),
        name: "Dev".to_owned(),
        description: String::new(),
        icon: String::new(),
        color: "#0078d4".to_owned(),
        is_favorite: false,
        hotkey: String::new(),
        launch_settings: "{}".to_owned(),
        created_at: "t0".to_owned(),
        updated_at: "t0".to_owned(),
        apps,
    }
}

#[test]
fn app_patch_sets_only_given_fields() {
    let mut a = app("a1");
    let mut p = empty_patch();
    p.name = Some("Editor".to_owned());
    p.args = Some(ArgsPatch::Text("--a \"C:\\My Dir\\f.txt\"".to_owned()));
    p.launch_delay_ms = Some(500);
    p.w = Some(fb(0.25));
    p.window_state = Some("maximized".to_owned());
    p.launch_policy = Some("always_new".to_owned());
    apply_app_patch(&mut a, p);
    assert_eq!(a.name, "Editor");
    assert_eq!(a.args, vec!["--a".to_owned(), "C:\\My Dir\\f.txt".to_owned()]);
    assert_eq!(a.launch_delay_ms, 500);
    assert_eq!(a.w, fb(0.25));
    assert_eq!(a.x, fb(0.0));
    assert_eq!(a.window_state, "maximized");
    assert_eq!(a.launch_policy, "always_new");
    assert_eq!(a.exe_path, "C:\\App\\demo.exe");
    assert_eq!(a.target_monitor, "m1");
    assert_eq!(a.sort_order, 3);

    let mut b = app("a2");
    let mut q = empty_patch();
    q.args = Some(ArgsPatch::List(vec!["x y".to_owned()]));
    q.sort_order = Some(0);
    apply_app_patch(&mut b, q);
    assert_eq!(b.args, vec!["x y".to_owned()]);
    assert_eq!(b.sort_order, 0);
}

#[test]
fn workspace_patch_sets_only_given_fields() {
    let mut ws = workspace("w1", vec![app("a1")]);
    let p = WorkspacePatch {
        name: Some("Renamed".to_owned()),
        description: None,
        icon: None,
        color: Some("#ff0000".to_owned()),
        hotkey: None,
        is_favorite: Some(true),
        launch_settings: None,
        apps: Some(vec![]),
    };
    apply_ws_patch(&mut ws, p);
    assert_eq!(ws.name, "Renamed");
    assert_eq!(ws.color, "#ff0000");
    assert!(ws.is_favorite);
    assert_eq!(ws.launch_settings, "{}");
    assert!(ws.apps.is_empty());
}

#[test]
fn setting_values_as_flags_and_text() {
    assert_eq!(value_to_bool(&SettingValue::Bool(true)), Some(true));
    assert_eq!(value_to_bool(&SettingValue::Number { integer: Some(0), json: "0".to_owned() }), Some(false));
    assert_eq!(value_to_bool(&SettingValue::Number { integer: Some(-3), json: "-3".to_owned() }), Some(true));
    assert_eq!(value_to_bool(&SettingValue::Number { integer: None, json: "1.5".to_owned() }), None);
    assert_eq!(value_to_bool(&SettingValue::Text(" ON ".to_owned())), Some(true));
    assert_eq!(value_to_bool(&SettingValue::Text("nope".to_owned())), None);
    assert_eq!(value_to_bool(&SettingValue::Other("null".to_owned())), None);
    assert_eq!(stored_text(&SettingValue::Bool(false)), "false");
    assert_eq!(stored_text(&SettingValue::Text("dark".to_owned())), "dark");
    assert_eq!(stored_text(&SettingValue::Other("{\"a\":1}".to_owned())), "{\"a\":1}");
}

fn pairs(v: &[(&str, &str)]) -> Vec<(String, String)> {
    v.iter().map(|(a, b)| (a.to_string(), b.to_string())).collect()
}

#[test]
fn setting_writes_mirror_frontend_keys() {
    let c = plan_setting("match_policy", &SettingValue::Text("title_only".to_owned()));
    assert_eq!(c.writes, pairs(&[("match_policy", "title_only"), ("default_match_policy", "title_only")]));
    assert!(c.refresh_typed);
    assert_eq!(c.autostart, None);
    let c = plan_setting("confirm_launch", &SettingValue::Text("garbage".to_owned()));
    assert_eq!(c.writes, pairs(&[("confirm_launch", "garbage"), ("confirm_before_launch", "false")]));
    let c = plan_setting("notifications", &SettingValue::Other("null".to_owned()));
    assert_eq!(c.writes, pairs(&[("notifications", "null"), ("notifications_enabled", "true")]));
    let c = plan_setting("autostart", &SettingValue::Bool(true));
    assert_eq!(c.writes, pairs(&[("autostart", "true")]));
    assert_eq!(c.autostart, Some(true));
    assert!(!c.refresh_typed);
    let c = plan_setting("storage_path", &SettingValue::Text("D:\\x".to_owned()));
    assert_eq!(c.writes, pairs(&[("storage_path", "D:\\x")]));
    assert!(!c.refresh_typed);
}

#[test]
fn log_lines() {
    let mut l = LaunchLog {
        id: 1,
        session_id: "s1".to_owned(),
        app_id: "a1".to_owned(),
        level: "info".to_owned(),
        message: "hello".to_owned(),
        created_at: "2024-01-01T00:00:00.000Z".to_owned(),
    };
    assert_eq!(log_line(&l), "[2024-01-01T00:00:00.000Z] [info] (a1) hello");
    l.app_id.clear();
    assert_eq!(log_line(&l), "[2024-01-01T00:00:00.000Z] [info] hello");
}

#[test]
fn apps_are_found_across_workspaces() {
    let wss = vec![workspace("w1", vec![app("a1")]), workspace("w2", vec![app("a2"), app("a3")])];
    let a = find_app(&wss, "a3").unwrap();
    assert_eq!(a.id, "a3");
    assert_eq!(find_app(&wss, "zz"), Err(WorksetError::NotFound("app zz".to_owned())));
}

#[test]
fn cancellation_reaches_running_sessions_of_the_workspace() {
    let s = |id: &str, ws: &str, status: &str| SessionInfo {
        id: id.to_owned(),
        workspace_id: ws.to_owned(),
        status: status.to_owned(),
        started_at: String::new(),
        finished_at: None,
        windows: vec![],
    };
    let all = vec![s("s1", "w1", "running"), s("s2", "w2", "running"), s("s3", "w1", "done"), s("s4", "w1", "running")];
    assert_eq!(cancel_targets(&all, "w1"), vec!["s1".to_owned(), "s4".to_owned()]);
}

fn text_field(key: &str, v: &str) -> PatchField {
    PatchField {
        key: key.to_owned(),
        text: Some(v.to_owned()),
        integer: None,
        number: None,
        flag: None,
        texts: None,
        rules: None,
        apps: None,
        json: format!("\"{v}\""),
    }
}

fn int_field(key: &str, n: i64) -> PatchField {
    PatchField {
        key: key.to_owned(),
        text: None,
        integer: Some(n),
        number: Some(fb(n as f64)),
        flag: None,
        texts: None,
        rules: None,
        apps: None,
        json: n.to_string(),
    }
}

#[test]
fn patch_objects_map_frontend_keys() {
    let fields = vec![
        text_field("name", "Editor"),
        text_field("target_monitor", "old"),
        text_field("monitor_id", "m2"),
        int_field("delay_ms", 500),
        int_field("launch_delay_ms", 9),
        text_field("state", "maximized"),
        text_field("args", "--a \"b c\""),
        int_field("w", 1),
        text_field("policy", "reuse"),
    ];
    let p = app_patch_from(&fields);
    assert_eq!(p.name.as_deref(), Some("Editor"));
    assert_eq!(p.target_monitor.as_deref(), Some("m2"));
    assert_eq!(p.launch_delay_ms, Some(500));
    assert_eq!(p.window_state.as_deref(), Some("maximized"));
    assert_eq!(p.launch_policy.as_deref(), Some("reuse"));
    assert_eq!(p.args, Some(ArgsPatch::Text("--a \"b c\"".to_owned())));
    assert_eq!(p.w, Some(fb(1.0)));
    assert_eq!(p.x, None);
    assert_eq!(p.exe_path, None);
    // the frontend spelling wins even when its value is of the wrong kind
    let q = app_patch_from(&[text_field("delay_ms", "soon"), int_field("launch_delay_ms", 9)]);
    assert_eq!(q.launch_delay_ms, None);
    let r = app_patch_from(&[int_field("launch_delay_ms", 9), text_field("window_state", "minimized")]);
    assert_eq!(r.launch_delay_ms, Some(9));
    assert_eq!(r.window_state.as_deref(), Some("minimized"));

    let mut fav = int_field("is_favorite", 0);
    fav.flag = Some(true);
    let mut settings = text_field("launch_settings", "x");
    settings.text = None;
    settings.json = "{\"a\":1}".to_owned();
    let wp = workspace_patch_from(&[text_field("color", "#fff"), fav, settings]);
    assert_eq!(wp.color.as_deref(), Some("#fff"));
    assert_eq!(wp.is_favorite, Some(true));
    assert_eq!(wp.launch_settings.as_deref(), Some("{\"a\":1}"));
    assert_eq!(wp.apps, None);
    assert_eq!(wp.name, None);
}
