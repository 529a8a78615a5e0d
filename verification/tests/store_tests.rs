use workset::error::WorksetError;
use workset::ids::new_id;
use workset::models::{FloatBits, MatchRules, Workspace, WorkspaceApp};
use workset::store::{
    duplicate, prepare_new_workspace, prepare_updated_workspace, duplicate_with, fresh_ids, next_sort_order, parse_args_cell, prepare_new_app_with,
    prepare_new_workspace_with, prepare_updated_workspace_with, reorder_positions,
};

fn fb(v: f64) -> FloatBits {
    FloatBits { bits: v.to_bits() }
}

fn app(id: &str, name: &str) -> WorkspaceApp {
    WorkspaceApp {
        id: id.to_owned(),
        workspace_id: String::new(),
        sort_order: 9,
        name: name.to_owned(),
        exe_path: "C:\\App\\demo.exe".to_owned(),
        args: vec!["--a".to_owned()],
        cwd: String::new(),
        url: String::new(),
        app_icon: String::new(),
        match_rules: MatchRules::empty(),
        launch_delay_ms: 0,
        target_monitor: String::new(),
        x: fb(0.0),
        y: fb(0.0),
        w: fb(0.5),
        h: fb(0.5),
        window_state: "normal".to_owned(),
        launch_policy: "if_not_running".to_owned(),
    }
}

fn workspace(id: &str, apps: Vec<WorkspaceApp>) -> Workspace {
    Workspace {
        id: id.to_owned(),
        name: "Work".to_owned(),
        description: "d".to_owned(),
        icon: String::new(),
        color: "#0078d4".to_owned(),
        is_favorite: true,
        hotkey: "Ctrl+1".to_owned(),
        launch_settings: "{}".to_owned(),
        created_at: String::new(),
        updated_at: String::new(),
        apps,
    }
}

#[test]
fn argument_cells_in_every_stored_form() {
    assert_eq!(parse_args_cell("  "), Vec::<String>::new());
    assert_eq!(parse_args_cell("[\"--a\",\"b c\"]"), vec!["--a".to_owned(), "b c".to_owned()]);
    assert_eq!(parse_args_cell("\"--x \\\"y z\\\"\""), vec!["--x".to_owned(), "y z".to_owned()]);
    assert_eq!(parse_args_cell("--plain words"), vec!["--plain".to_owned(), "words".to_owned()]);
}

#[test]
fn new_workspaces_get_ids_times_and_order() {
    let ws = workspace(" ", vec![app("", "First"), app("keep", "Second")]);
    let fresh = vec!["f0".to_owned(), "f1".to_owned()];
    let w = prepare_new_workspace_with(&ws, "new-ws", &fresh, "T1").unwrap();
    assert_eq!(w.id, "new-ws");
    assert_eq!(w.created_at, "T1");
    assert_eq!(w.updated_at, "T1");
    assert_eq!(w.apps[0].id, "f0");
    assert_eq!(w.apps[1].id, "keep");
    assert_eq!(w.apps[1].sort_order, 1);
    assert_eq!(w.apps[0].workspace_id, "new-ws");
    assert!(w.is_favorite);

    let mut bad = workspace("w", vec![]);
    bad.name = " ".to_owned();
    assert_eq!(
        prepare_new_workspace_with(&bad, "x", &vec![], "T1"),
        Err(WorksetError::Validation("workspace name must not be empty".to_owned()))
    );
}

#[test]
fn updated_workspaces_keep_their_id() {
    let mut ws = workspace("w1", vec![app("a", "Only")]);
    ws.created_at = "T0".to_owned();
    let w = prepare_updated_workspace_with(&ws, &vec!["unused".to_owned()], "T2").unwrap();
    assert_eq!(w.id, "w1");
    assert_eq!(w.created_at, "T0");
    assert_eq!(w.updated_at, "T2");
    assert_eq!(w.apps[0].sort_order, 0);
    let blank = workspace("  ", vec![]);
    assert_eq!(
        prepare_updated_workspace_with(&blank, &vec![], "T2"),
        Err(WorksetError::Validation("workspace id is empty".to_owned()))
    );
}

#[test]
fn duplicates_are_fresh_copies() {
    let ws = workspace("w1", vec![app("a", "One"), app("b", "Two")]);
    let fresh = vec!["n0".to_owned(), "n1".to_owned()];
    let d = duplicate_with(&ws, "w2", &fresh, "T3");
    assert_eq!(d.id, "w2");
    assert_eq!(d.name, "Work (copy)");
    assert!(!d.is_favorite);
    assert!(d.hotkey.is_empty());
    assert_eq!(d.apps[1].id, "n1");
    assert_eq!(d.apps[1].workspace_id, "w2");
    assert_eq!(d.apps[1].name, "Two");
}

#[test]
fn new_apps_are_appended() {
    assert_eq!(next_sort_order(None), 0);
    assert_eq!(next_sort_order(Some(4)), 5);
    let mut a = app("", "New");
    a.workspace_id = "w1".to_owned();
    let p = prepare_new_app_with(&a, "fresh", Some(2)).unwrap();
    assert_eq!(p.id, "fresh");
    assert_eq!(p.sort_order, 3);
    let b = app("x", "New");
    assert_eq!(
        prepare_new_app_with(&b, "fresh", None),
        Err(WorksetError::Validation("app workspace_id is empty".to_owned()))
    );
}

#[test]
fn reorder_and_fresh_ids() {
    let ids = vec!["c".to_owned(), "a".to_owned()];
    assert_eq!(reorder_positions(&ids), vec![(0, "c".to_owned()), (1, "a".to_owned())]);
    let f = fresh_ids(3);
    assert_eq!(f.len(), 3);
    assert_ne!(f[0], f[1]);
    let id = new_id();
    assert_eq!(id.len(), 36);
    assert_eq!(id.chars().filter(|c| *c == '-').count(), 4);
}

#[test]
fn stored_workspaces_get_fresh_ids_and_wired_apps() {
    let ws = workspace("", vec![app("", "App")]);
    let w = prepare_new_workspace(&ws).unwrap();
    assert_eq!(w.id.len(), 36);
    assert_eq!(w.apps.len(), 1);
    assert_eq!(w.apps[0].workspace_id, w.id);
    assert_eq!(w.apps[0].id.len(), 36);
    assert_eq!(w.apps[0].sort_order, 0);
    assert_eq!(w.created_at, w.updated_at);
    let u = prepare_updated_workspace(&w).unwrap();
    assert_eq!(u.id, w.id);
    assert_eq!(u.apps[0].id, w.apps[0].id);
    assert_eq!(u.created_at, w.created_at);
    let d = duplicate(&w);
    assert_ne!(d.id, w.id);
    assert_eq!(d.name, "Work (copy)");
    assert_ne!(d.apps[0].id, w.apps[0].id);
    assert_eq!(d.apps[0].workspace_id, d.id);
}
