use workset::error::WorksetError;
use workset::processes::{is_url_target, plan_launch_with, validate_exe, validate_exe_with};

#[test]
fn url_detection() {
    assert!(is_url_target("https://example.com/x"));
    assert!(is_url_target("mailto:a@b.c"));
    assert!(is_url_target("vscode://file/x"));
    assert!(!is_url_target("C:\\Program Files\\app.exe"));
    assert!(!is_url_target("C:/x/y.exe"));
    assert!(!is_url_target(""));
    assert!(!is_url_target("my app: test"));
}

#[test]
fn injection_blocked() {
    assert!(validate_exe("a.exe; rm -rf /").is_err());
    assert!(validate_exe("run $(whoami)").is_err());
    assert!(validate_exe("a && b").is_err());
    assert!(validate_exe("").is_err());
    // URLs pass the char filter (existence not required)
    assert!(validate_exe("https://example.com/").is_ok());
}

#[test]
fn exe_checks_follow_the_disk_facts() {
    assert_eq!(
        validate_exe_with("  C:\\a.exe ", false, false),
        Err(WorksetError::NotFound("executable not found: C:\\a.exe".to_owned()))
    );
    assert_eq!(
        validate_exe_with("C:\\dir", true, true),
        Err(WorksetError::Validation("launch target is a directory: C:\\dir".to_owned()))
    );
    assert_eq!(
        validate_exe_with("C:\\doc.TXT", true, false),
        Err(WorksetError::Validation("file type .txt is not launchable".to_owned()))
    );
    assert!(validate_exe_with("C:\\tool.LNK", true, false).is_ok());
    assert_eq!(
        validate_exe_with("C:\\tools\\runme", true, false),
        Err(WorksetError::Validation("file type . is not launchable".to_owned()))
    );
    assert_eq!(
        validate_exe_with("   ", true, false),
        Err(WorksetError::Validation("executable path is empty".to_owned()))
    );
}

#[test]
fn launch_plans() {
    let args = vec!["--x".to_owned(), "a b".to_owned()];
    let p = plan_launch_with("C:\\App\\demo.exe", &args, "", "", true, false, false).unwrap();
    assert_eq!(p.program, "C:\\App\\demo.exe");
    assert_eq!(p.args, args);
    assert_eq!(p.cwd, None);

    let e = plan_launch_with("C:\\App\\demo.exe", &args, "D:\\missing", "", true, false, false);
    assert_eq!(
        e,
        Err(WorksetError::Validation("working directory does not exist: D:\\missing".to_owned()))
    );
    let p = plan_launch_with("C:\\App\\demo.exe", &args, "D:\\work", "", true, false, true).unwrap();
    assert_eq!(p.cwd, Some("D:\\work".to_owned()));

    let p = plan_launch_with("C:\\Start\\tool.lnk", &args, "D:\\work", "", true, false, true).unwrap();
    assert_eq!(p.program, "cmd");
    assert_eq!(
        p.args,
        vec!["/C", "start", "", "/D", "D:\\work", "C:\\Start\\tool.lnk", "--x", "a b"]
    );

    let p = plan_launch_with("", &args, "", " https://example.com ", false, false, false).unwrap();
    assert_eq!(p.args, vec!["/C", "start", "", "https://example.com"]);

    assert_eq!(
        plan_launch_with(" ", &args, "", "", false, false, false),
        Err(WorksetError::Validation("nothing to launch: exe_path and url are both empty".to_owned()))
    );
}
