use workset::args::{join_args, split_args};
use workset::error::WorksetError;
use workset::models::{
    contains_suspicious_tokens, validate_app, validate_workspace, FloatBits, MatchRules, Workspace,
    WorkspaceApp,
};

fn fb(v: f64) -> FloatBits {
    FloatBits { bits: v.to_bits() }
}

fn sample_app() -> WorkspaceApp {
    WorkspaceApp {
        id: "a1".to_owned(),
        workspace_id: "w1".to_owned(),
        sort_order: 0,
        name: "Demo".to_owned(),
        exe_path: "C:\\App\\demo.exe".to_owned(),
        args: vec!["--new-window".to_owned()],
        cwd: String::new(),
        url: String::new(),
        app_icon: String::new(),
        match_rules: MatchRules::empty(),
        launch_delay_ms: 0,
        target_monitor: String::new(),
        x: fb(0.0),
        y: fb(0.0),
        w: fb(0.5),
        h: fb(0.5),
        window_state: "normal".to_owned(),
        launch_policy: "if_not_running".to_owned(),
    }
}

#[test]
fn valid_app_passes() {
    assert!(validate_app(&sample_app()).is_ok());
}

#[test]
fn empty_name_fails() {
    let mut a = sample_app();
    a.name = "   ".to_owned();
    assert!(matches!(validate_app(&a), Err(WorksetError::Validation(_))));
}

#[test]
fn rect_out_of_range_fails() {
    let mut a = sample_app();
    a.w = fb(1.5);
    assert!(validate_app(&a).is_err());
    let mut b = sample_app();
    b.w = fb(0.01);
    assert!(validate_app(&b).is_err());
}

#[test]
fn exe_or_url_required() {
    let mut a = sample_app();
    a.exe_path.clear();
    assert!(validate_app(&a).is_err());
    a.url = "https://example.com".to_owned();
    assert!(validate_app(&a).is_ok());
}

#[test]
fn bad_regex_fails() {
    let mut a = sample_app();
    a.match_rules.title_regex = Some("([unclosed".to_owned());
    assert!(matches!(validate_app(&a), Err(WorksetError::Regex(_))));
}

#[test]
fn workspace_name_required() {
    let ws = Workspace {
        id: "w".to_owned(),
        name: String::new(),
        description: String::new(),
        icon: String::new(),
        color: "#0078d4".to_owned(),
        is_favorite: false,
        hotkey: String::new(),
        launch_settings: "{}".to_owned(),
        created_at: String::new(),
        updated_at: String::new(),
        apps: vec![],
    };
    assert!(validate_workspace(&ws).is_err());
}

#[test]
fn args_string_roundtrip() {
    let args = vec!["--flag".to_owned(), "C:\\My Dir\\file.txt".to_owned()];
    let joined = join_args(&args);
    assert_eq!(split_args(&joined), args);
    // plain string from frontend
    let v: serde_json::Value = serde_json::from_str(r#"{ "args": "--a --b" }"#).unwrap();
    let parsed: Vec<String> = serde_json::from_value(v["args"].clone())
        .map(|s: String| split_args(&s))
        .unwrap();
    assert_eq!(parsed, vec!["--a", "--b"]);
}

#[test]
fn suspicious_tokens_detected() {
    assert!(contains_suspicious_tokens("app.exe", &["a;rm".to_owned()]));
    assert!(contains_suspicious_tokens(
        "app.exe",
        &["$(whoami)".to_owned()]
    ));
    assert!(!contains_suspicious_tokens(
        "C:\\App\\app.exe",
        &["--url".to_owned(), "https://x.test/?a=1".to_owned()]
    ));
}

#[test]
fn validation_messages_name_the_problem() {
    let mut a = sample_app();
    a.y = fb(f64::NAN);
    assert_eq!(
        validate_app(&a),
        Err(WorksetError::Validation("app \"Demo\" has invalid y: must be within 0..1".to_owned()))
    );
    let mut b = sample_app();
    b.h = fb(0.04);
    assert_eq!(
        validate_app(&b),
        Err(WorksetError::Validation("app \"Demo\" is too small: w/h must be >= 0.05".to_owned()))
    );
    let mut c = sample_app();
    c.launch_delay_ms = -1;
    assert_eq!(
        validate_app(&c),
        Err(WorksetError::Validation("app \"Demo\" has a negative launch delay".to_owned()))
    );
    let mut d = sample_app();
    d.exe_path = "  ".to_owned();
    assert_eq!(
        validate_app(&d),
        Err(WorksetError::Validation("app \"Demo\" needs either exe_path or url".to_owned()))
    );
}

#[test]
fn float_bit_bounds_match_the_values() {
    assert_eq!(0.05f64.to_bits(), workset::models::MIN_SIZE_BITS);
    assert_eq!(1.0f64.to_bits(), workset::models::ONE_BITS);
    assert_eq!(0.5f64.to_bits(), workset::models::HALF_BITS);
    assert_eq!((-0.0f64).to_bits(), workset::models::NEG_ZERO_BITS);
    let mut a = sample_app();
    a.x = fb(-0.0);
    a.w = fb(1.0);
    a.h = fb(0.05);
    assert!(validate_app(&a).is_ok());
    a.x = fb(f64::INFINITY);
    assert!(validate_app(&a).is_err());
    a.x = fb(-1e-300);
    assert!(validate_app(&a).is_err());
}

#[test]
fn join_quotes_empty_and_spaced_words() {
    let args = vec!["".to_owned(), "a b".to_owned(), "plain".to_owned(), "q\"x".to_owned()];
    assert_eq!(join_args(&args), "\"\" \"a b\" plain \"q\\\"x\"");
    assert_eq!(split_args("  one   \"two three\"  "), vec!["one", "two three"]);
    assert_eq!(split_args(""), Vec::<String>::new());
    assert_eq!(split_args("\"\""), vec![""]);
}

#[test]
fn error_message_has_prefix() {
    let e = WorksetError::NotFound("workspace x".to_owned());
    assert_eq!(e.message(), "not found: workspace x");
}
