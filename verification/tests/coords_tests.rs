use workset::capture::capture_desktop;
use workset::coords::{
    fallback_monitor, is_rect_visible_on_any_monitor, monitor_work_rect, pick_monitor_for_rect,
    NativeRect,
};
use workset::models::{CapturedWindow, FloatBits, MonitorInfo};

fn mon(id: &str, x: i32, y: i32, w: i32, h: i32, primary: bool) -> MonitorInfo {
    MonitorInfo {
        id: id.to_owned(),
        x,
        y,
        w,
        h,
        work_x: x,
        work_y: y,
        work_w: w,
        work_h: h,
        scale: FloatBits { bits: 1.0f64.to_bits() },
        is_primary: primary,
        name: id.to_owned(),
    }
}

fn rect(x: i32, y: i32, w: i32, h: i32) -> NativeRect {
    NativeRect { x, y, w, h }
}

#[test]
fn negative_origin_monitor() {
    let mons = vec![
        mon("left", -1920, 0, 1920, 1080, false),
        mon("main", 0, 0, 1920, 1080, true),
    ];
    // the full work area of the left monitor
    let r = rect(-1920, 0, 1920, 1080);
    assert_eq!(r.x, -1920);
    assert_eq!(pick_monitor_for_rect(&mons, r), "left");
}

#[test]
fn portrait_monitor_math() {
    let mons = vec![
        mon("main", 0, 0, 1920, 1080, true),
        mon("portrait", 1920, -420, 1080, 1920, false),
    ];
    // top-left quarter of the portrait panel
    let r = rect(1920, -420, 540, 960);
    assert_eq!(pick_monitor_for_rect(&mons, r), "portrait");
    assert!(is_rect_visible_on_any_monitor(&mons, r));
}

#[test]
fn zero_size_guards() {
    let r = rect(0, 0, 0, 0);
    assert_eq!(r.w, 0);
    assert!(!is_rect_visible_on_any_monitor(&[], r));
    assert_eq!(pick_monitor_for_rect(&[], r), "");
}

#[test]
fn fallback_prefers_primary() {
    let mons = vec![mon("a", 0, 0, 800, 600, false), mon("b", 800, 0, 800, 600, true)];
    assert_eq!(fallback_monitor(&mons).as_deref(), Some("b"));
    let far = rect(9000, 9000, 100, 100);
    assert_eq!(pick_monitor_for_rect(&mons, far), "b");
    assert!(!is_rect_visible_on_any_monitor(&mons, far));
}

#[test]
fn overlap_picks_largest_area() {
    let mons = vec![mon("a", 0, 0, 1000, 1000, true), mon("b", 1000, 0, 1000, 1000, false)];
    let r = rect(900, 0, 500, 500);
    assert_eq!(pick_monitor_for_rect(&mons, r), "b");
    assert!(is_rect_visible_on_any_monitor(&mons, r));
}

#[test]
fn overlap_areas() {
    assert_eq!(rect(0, 0, 10, 10).overlap(&rect(5, 5, 10, 10)), 25);
    assert_eq!(rect(0, 0, 10, 10).overlap(&rect(10, 0, 10, 10)), 0);
    assert_eq!(rect(-5, -5, 10, 10).overlap(&rect(-10, -10, 10, 10)), 25);
    assert_eq!(rect(0, 0, -3, 10).overlap(&rect(0, 0, 10, 10)), 0);
    let big = rect(i32::MIN, i32::MIN, i32::MAX, i32::MAX);
    assert_eq!(big.overlap(&big), (i32::MAX as i64) * (i32::MAX as i64));
}

#[test]
fn fallback_first_when_no_primary_and_ties_keep_first() {
    let mons = vec![mon("a", 0, 0, 100, 100, false), mon("b", 100, 0, 100, 100, false)];
    assert_eq!(fallback_monitor(&mons).as_deref(), Some("a"));
    assert_eq!(fallback_monitor(&[]), None);
    // straddles both equally
    assert_eq!(pick_monitor_for_rect(&mons, rect(50, 0, 100, 10)), "a");
    // empty rect goes to the fallback
    assert_eq!(pick_monitor_for_rect(&mons, rect(150, 0, 0, 10)), "a");
}

#[test]
fn work_rect_falls_back_to_full_bounds() {
    let mut m = mon("m", 0, 0, 1920, 1080, true);
    m.work_h = 1040;
    assert_eq!(monitor_work_rect(&m), rect(0, 0, 1920, 1040));
    m.work_w = 0;
    assert_eq!(monitor_work_rect(&m), rect(0, 0, 1920, 1080));
}

fn win(hwnd: i64, title: &str, x: i32) -> CapturedWindow {
    CapturedWindow {
        hwnd,
        pid: 1,
        exe_path: String::new(),
        title: title.to_owned(),
        class: String::new(),
        x,
        y: 0,
        w: 100,
        h: 100,
        monitor_id: "stale".to_owned(),
        state: "normal".to_owned(),
    }
}

#[test]
fn capture_assigns_and_sorts() {
    let mons = vec![mon("A", 0, 0, 1000, 1000, false), mon("B", 1000, 0, 1000, 1000, true)];
    let wins = vec![
        win(1, "zeta", 1200),
        win(2, "Beta", 100),
        win(3, "alpha", 1100),
        win(4, "beta", 200),
        win(5, "off", 50000),
    ];
    let out = capture_desktop(&mons, wins);
    let got: Vec<(i64, &str)> = out.iter().map(|w| (w.hwnd, w.monitor_id.as_str())).collect();
    // "Beta" and "beta" compare equal after lower-casing and keep their order
    assert_eq!(got, vec![(2, "A"), (4, "A"), (3, "B"), (5, "B"), (1, "B")]);
}
