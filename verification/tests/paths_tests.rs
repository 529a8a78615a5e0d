use workset::paths::{extension, file_name, file_stem};

fn chars(s: &str) -> Vec<char> {
    s.chars().collect()
}

fn text(v: Option<Vec<char>>) -> Option<String> {
    v.map(|c| c.into_iter().collect())
}

#[test]
fn trailing_dot_components_are_dropped() {
    assert_eq!(text(file_name(&chars("foo.txt/."))), Some("foo.txt".to_owned()));
    assert_eq!(text(file_name(&chars("foo.txt/.//"))), Some("foo.txt".to_owned()));
    assert_eq!(text(file_name(&chars("a\\.\\.\\"))), Some("a".to_owned()));
    assert_eq!(text(extension(&chars("C:\\x\\a.exe\\."))), Some("exe".to_owned()));
    assert_eq!(text(file_stem(&chars("C:\\x\\a.exe\\."))), Some("a".to_owned()));
    assert_eq!(text(file_name(&chars("foo.txt/.."))), None);
    assert_eq!(text(file_name(&chars("."))), None);
    assert_eq!(text(file_name(&chars("./"))), None);
    assert_eq!(text(file_name(&chars("/."))), None);
    assert_eq!(text(file_name(&chars("/"))), None);
}

#[test]
fn drive_prefix_is_no_component() {
    assert_eq!(text(file_name(&chars("C:"))), None);
    assert_eq!(text(file_name(&chars("C:\\"))), None);
    assert_eq!(text(file_stem(&chars("C:app.exe"))), Some("app".to_owned()));
    assert_eq!(text(file_name(&chars("/usr/bin/"))), Some("bin".to_owned()));
    assert_eq!(text(extension(&chars("C:\\tools\\runme"))), None);
    assert_eq!(text(extension(&chars("C:\\tools\\.hidden"))), None);
}
