use workset::args::split_args;
use workset::discovery::{has_extension_in, installed_entry, running_entry, shortcut_entry};
use workset::error::WorksetError;
use workset::import_export::{import_workspace, resolve_schema_version, JsonField};
use workset::store::prepare_new_workspace;
use workset::models::{FloatBits, MatchRules, Workspace, WorkspaceApp};
use workset::monitors::{describe_monitor, device_name, finish_monitors, mock_primary, MonitorFacts};

fn fb(v: f64) -> FloatBits {
    FloatBits { bits: v.to_bits() }
}

/// The workspace of the test envelope, as reading it gives it.
fn imported(args: &str) -> Workspace {
    let app = WorkspaceApp {
        id: "a".to_owned(),
        workspace_id: "old".to_owned(),
        sort_order: 0,
        name: "App".to_owned(),
        exe_path: "C:\\a.exe".to_owned(),
        args: split_args(args),
        cwd: String::new(),
        url: String::new(),
        app_icon: String::new(),
        match_rules: MatchRules::empty(),
        launch_delay_ms: 0,
        target_monitor: String::new(),
        x: fb(0.0),
        y: fb(0.0),
        w: fb(0.5),
        h: fb(0.5),
        window_state: "normal".to_owned(),
        launch_policy: "if_not_running".to_owned(),
    };
    Workspace {
        id: "old".to_owned(),
        name: "Imported".to_owned(),
        description: String::new(),
        icon: String::new(),
        color: "#0078d4".to_owned(),
        is_favorite: false,
        hotkey: String::new(),
        launch_settings: "{}".to_owned(),
        created_at: String::new(),
        updated_at: String::new(),
        apps: vec![app],
    }
}

#[test]
fn rejects_bad_schema_version() {
    let err = import_workspace(JsonField::Unsigned(2), JsonField::Absent, true, Ok(imported("")), true).unwrap_err();
    assert!(matches!(err, WorksetError::Validation(_)));
}

#[test]
fn suspicious_needs_confirmation() {
    assert!(import_workspace(JsonField::Unsigned(1), JsonField::Absent, true, Ok(imported("--x; rm -rf ~")), false).is_err());
    let ws = import_workspace(JsonField::Unsigned(1), JsonField::Absent, true, Ok(imported("--x; rm -rf ~")), true).unwrap();
    assert_eq!(ws.name, "Imported");
    assert_eq!(ws.apps.len(), 1);
    // ids are regenerated
    assert_ne!(ws.id, "old");
    assert_eq!(ws.apps[0].workspace_id, ws.id);
}

#[test]
fn clean_import_no_confirm_needed() {
    let ws = import_workspace(JsonField::Unsigned(1), JsonField::Absent, true, Ok(imported("--clean")), false).unwrap();
    assert_eq!(ws.apps[0].args, vec!["--clean".to_owned()]);
}

#[test]
fn version_fields_and_unreadable_workspaces() {
    assert_eq!(resolve_schema_version(JsonField::Absent, JsonField::Unsigned(1), true), 1);
    assert_eq!(resolve_schema_version(JsonField::Other, JsonField::Unsigned(1), true), 0);
    assert_eq!(resolve_schema_version(JsonField::Absent, JsonField::Absent, true), 0);
    assert_eq!(resolve_schema_version(JsonField::Absent, JsonField::Absent, false), 1);
    assert_eq!(
        import_workspace(JsonField::Absent, JsonField::Absent, true, Ok(imported("")), true),
        Err(WorksetError::Validation("unsupported schema version 0 (expected 1)".to_owned()))
    );
    assert_eq!(
        import_workspace(JsonField::Absent, JsonField::Unsigned(1), true, Err("missing field `name`".to_owned()), true),
        Err(WorksetError::Validation("invalid workspace: missing field `name`".to_owned()))
    );
    let ws = import_workspace(JsonField::Unsigned(1), JsonField::Absent, true, Ok(imported("")), false).unwrap();
    assert_eq!(ws.id.len(), 36);
    assert!(!ws.is_favorite);
    assert!(ws.hotkey.is_empty());
    assert_ne!(ws.apps[0].id, "a");
}

#[test]
fn bare_workspace_objects_are_accepted() {
    let mut bare = imported("");
    bare.name = "Bare".to_owned();
    bare.apps.clear();
    let ws = import_workspace(JsonField::Absent, JsonField::Absent, false, Ok(bare), false).unwrap();
    assert_eq!(ws.name, "Bare");
    assert!(ws.apps.is_empty());
    assert!(!ws.id.is_empty());
    let mut risky = imported("a && b");
    risky.name = "Risky".to_owned();
    assert_eq!(
        import_workspace(JsonField::Absent, JsonField::Absent, false, Ok(risky), false),
        Err(WorksetError::Validation(
            "import contains shell-like tokens in exe paths or args; re-import with explicit confirmation to proceed".to_owned()
        ))
    );
}

fn units(s: &str) -> Vec<u16> {
    let mut v: Vec<u16> = s.encode_utf16().collect();
    v.resize(32, 0);
    v
}

#[test]
fn monitors_from_reported_facts() {
    let f = MonitorFacts {
        ok: true,
        full: (-1080, -200, 0, 1720),
        work: (-1080, -200, 0, 1680),
        flags: 0,
        device: units("\\\\.\\DISPLAY2"),
        dpi_scale: Some(fb(1.5)),
    };
    let m = describe_monitor(&f, 1).unwrap();
    assert_eq!(m.id, "\\\\.\\DISPLAY2");
    assert_eq!((m.x, m.y, m.w, m.h), (-1080, -200, 1080, 1920));
    assert_eq!((m.work_w, m.work_h), (1080, 1880));
    assert_eq!(m.scale, fb(1.5));
    assert!(!m.is_primary);
    let g = MonitorFacts { ok: true, full: (0, 0, -5, 10), work: (0, 0, 0, 0), flags: 1, device: vec![0; 32], dpi_scale: Some(fb(0.0)) };
    let n = describe_monitor(&g, 3).unwrap();
    assert_eq!(n.id, "monitor-3");
    assert_eq!(n.name, "");
    assert_eq!(n.w, 0);
    assert_eq!(n.scale, fb(1.0));
    assert!(n.is_primary);
    let h = MonitorFacts { ok: false, full: (0, 0, 1, 1), work: (0, 0, 1, 1), flags: 1, device: vec![], dpi_scale: None };
    assert!(describe_monitor(&h, 0).is_none());
    assert_eq!(device_name(&units("AB")), "AB");
}

#[test]
fn monitor_list_always_has_a_primary() {
    let only = finish_monitors(vec![]);
    assert_eq!(only.len(), 1);
    assert_eq!(only[0], mock_primary());
    assert_eq!(only[0].work_h, 1040);
    let mut a = mock_primary();
    a.id = "a".to_owned();
    a.is_primary = false;
    let mut b = a.clone();
    b.id = "b".to_owned();
    let out = finish_monitors(vec![a.clone(), b.clone()]);
    assert!(out[0].is_primary);
    assert!(!out[1].is_primary);
    b.is_primary = true;
    let out = finish_monitors(vec![a, b]);
    assert!(!out[0].is_primary);
    assert!(out[1].is_primary);
}

#[test]
fn discovered_entries() {
    assert!(has_extension_in("C:\\x\\Tool.EXE", &["exe"]));
    assert!(!has_extension_in("C:\\x\\Tool.exe.txt", &["exe", "lnk"]));
    assert!(!has_extension_in("C:\\x\\noext", &["exe"]));
    let s = shortcut_entry("C:\\Start\\Editor.lnk");
    assert_eq!((s.name.as_str(), s.exe_path.as_str(), s.source.as_str()), ("Editor", "C:\\Start\\Editor.lnk", "start_menu"));
    let i = installed_entry("C:\\Program Files\\Tool\\tool.exe");
    assert_eq!((i.name.as_str(), i.source.as_str()), ("tool", "installed"));
    assert!(running_entry("  ", "x").is_none());
    let r = running_entry("C:\\bin\\app.exe", " ").unwrap();
    assert_eq!((r.name.as_str(), r.source.as_str()), ("app", "running"));
    let r = running_entry("C:\\bin\\app.exe", "App Server").unwrap();
    assert_eq!(r.name, "App Server");
}

#[test]
fn exported_fields_import_back_as_a_copy() {
    let mut original = imported("--profile work");
    original.id = "0d9c3f6e-1111-4222-8333-944455556666".to_owned();
    original.is_favorite = true;
    original.hotkey = "Ctrl+Alt+1".to_owned();
    original.description = "desk".to_owned();
    let ws = import_workspace(JsonField::Unsigned(1), JsonField::Unsigned(1), true, Ok(original.clone()), false).unwrap();
    assert_ne!(ws.id, original.id);
    assert_eq!(ws.name, original.name);
    assert_eq!(ws.description, original.description);
    assert_eq!(ws.color, original.color);
    assert_eq!(ws.launch_settings, original.launch_settings);
    assert!(!ws.is_favorite);
    assert!(ws.hotkey.is_empty());
    assert_eq!(ws.created_at, ws.updated_at);
    assert_eq!(ws.apps.len(), 1);
    assert_eq!(ws.apps[0].workspace_id, ws.id);
    assert_ne!(ws.apps[0].id, original.apps[0].id);
    assert_eq!(ws.apps[0].args, original.apps[0].args);
    assert_eq!(ws.apps[0].exe_path, original.apps[0].exe_path);
    assert_eq!(ws.apps[0].sort_order, original.apps[0].sort_order);
}

#[test]
fn exported_workspace_is_stored_again_in_order() {
    let mut original = imported("--a");
    let mut second = original.apps[0].clone();
    second.name = "Second".to_owned();
    second.id = "b".to_owned();
    second.sort_order = 1;
    original.apps.push(second);
    original.is_favorite = true;
    let ws = import_workspace(JsonField::Unsigned(1), JsonField::Unsigned(1), true, Ok(original.clone()), false).unwrap();
    let stored = prepare_new_workspace(&ws).unwrap();
    assert_eq!(stored.id, ws.id);
    assert_eq!(stored.id.len(), 36);
    assert_eq!(stored.name, original.name);
    assert!(!stored.is_favorite);
    assert!(stored.created_at.ends_with('Z'));
    assert!(stored.updated_at.ends_with('Z'));
    assert_eq!(stored.apps.len(), 2);
    for (i, app) in stored.apps.iter().enumerate() {
        assert_eq!(app.name, original.apps[i].name);
        assert_eq!(app.sort_order, i as i64);
        assert_eq!(app.workspace_id, stored.id);
        assert_eq!(app.id.len(), 36);
        assert_ne!(app.id, original.apps[i].id);
    }
}

#[test]
fn device_names_decode_utf16() {
    assert_eq!(device_name(&[0x41, 0xD83D, 0xDE00, 0x42, 0, 0x43]), "A\u{1F600}B");
    assert_eq!(device_name(&[0x41, 0xD800, 0x42]), "A\u{FFFD}B");
    assert_eq!(device_name(&[0xDC00, 0xD800]), "\u{FFFD}\u{FFFD}");
    assert_eq!(device_name(&[0, 0x41]), "");
}
