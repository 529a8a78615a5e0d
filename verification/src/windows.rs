//! Window bookkeeping that does not need the operating system: which
//! windows are listed, looking one up by handle, and how a saved window
//! state is applied.

use vstd::prelude::*;

use crate::models::CapturedWindow;
use crate::text::{copy_str, is_blank, is_blank_str, str_eq};

verus! {

/// What the operating system reports about one top-level window.
#[derive(Debug, Clone, PartialEq, Eq)]
pub struct WindowFacts {
    pub hwnd: i64,
    pub visible: bool,
    pub title: String,
    pub class: String,
    /// `(left, top, right, bottom)`, when the rectangle could be read.
    pub rect: Option<(i32, i32, i32, i32)>,
    pub pid: u32,
    pub own_pid: u32,
    pub cloaked: bool,
    pub iconic: bool,
    pub zoomed: bool,
    pub exe_path: String,
}

/// Window classes that are never user apps.
pub open spec fn system_classes() -> Seq<Seq<char>> {
    seq![
        "Shell_TrayWnd"@, "DV2ControlHost"@, "MsgrIMEWindowClass"@, "SysShadow"@, "Progman"@,
        "WorkerW"@, "Windows.UI.Core.CoreWindow"@, "TaskListThumbnailWnd"@, "CiceroUIWndFrame"@,
        "Xaml_WindowedPopupClass"@, "ApplicationFrameWindow"@,
    ]
}

/// The state name of a window: minimized, maximized or normal.
pub open spec fn state_spec(iconic: bool, zoomed: bool) -> Seq<char> {
    if iconic { "minimized"@ } else if zoomed { "maximized"@ } else { "normal"@ }
}

/// A window is listed when it is visible, has a non-blank title, is not of a
/// system class, has a readable rectangle of positive size, belongs to
/// another process and is not cloaked.
pub open spec fn listed_spec(f: WindowFacts) -> bool {
    &&& f.visible
    &&& !is_blank(f.title@)
    &&& !system_classes().contains(f.class@)
    &&& f.rect matches Some(r) && r.2 - r.0 > 0 && r.3 - r.1 > 0
    &&& f.pid != f.own_pid
    &&& !f.cloaked
}

/// The size of a rectangle fits in `i32`.
pub open spec fn rect_fits(f: WindowFacts) -> bool {
    f.rect matches Some(r) ==> i32::MIN <= r.2 - r.0 <= i32::MAX && i32::MIN <= r.3 - r.1 <= i32::MAX
}

/// Whether a window class is one of the system classes.
fn is_system_class(class: &str) -> (b: bool)
    ensures
        b == system_classes().contains(class@),
{
    let list: Vec<&str> = vec![
        "Shell_TrayWnd", "DV2ControlHost", "MsgrIMEWindowClass", "SysShadow", "Progman",
        "WorkerW", "Windows.UI.Core.CoreWindow", "TaskListThumbnailWnd", "CiceroUIWndFrame",
        "Xaml_WindowedPopupClass", "ApplicationFrameWindow",
    ];
    assert(list@.map_values(|s: &str| s@) =~= system_classes());
    let mut k: usize = 0;
    while k < list.len()
        invariant
            list@.map_values(|s: &str| s@) == system_classes(),
            k <= list@.len(),
            forall|m: int| 0 <= m < k ==> system_classes()[m] != class@,
        decreases list@.len() - k,
    {
        assert(list@[k as int]@ == system_classes()[k as int]);
        if str_eq(list[k], class) {
            return true;
        }
        k = k + 1;
    }
    false
}

/// The state name of a window.
pub fn state_name(iconic: bool, zoomed: bool) -> (s: String)
    ensures
        s@ == state_spec(iconic, zoomed),
{
    if iconic {
        String::from_str("minimized")
    } else if zoomed {
        String::from_str("maximized")
    } else {
        String::from_str("normal")
    }
}

/// The window record of a listed window (`None` when it is not listed);
/// its monitor is not assigned yet.
pub fn describe_window(f: &WindowFacts) -> (r: Option<CapturedWindow>)
    requires
        rect_fits(*f),
    ensures
        r is Some <==> listed_spec(*f),
        r matches Some(w) ==> {
            let rc = f.rect->0;
            &&& w.hwnd == f.hwnd
            &&& w.pid == f.pid
            &&& w.exe_path@ == f.exe_path@
            &&& w.title@ == f.title@
            &&& w.class@ == f.class@
            &&& w.x == rc.0 && w.y == rc.1
            &&& w.w == rc.2 - rc.0 && w.h == rc.3 - rc.1
            &&& w.monitor_id@ == Seq::<char>::empty()
            &&& w.state@ == state_spec(f.iconic, f.zoomed)
        },
{
    if !f.visible || is_blank_str(f.title.as_str()) || is_system_class(f.class.as_str()) {
        return None;
    }
    let (left, top, right, bottom) = match f.rect {
        Some(r) => r,
        None => {
            return None;
        },
    };
    let w = right - left;
    let h = bottom - top;
    if w <= 0 || h <= 0 || f.pid == f.own_pid || f.cloaked {
        return None;
    }
    Some(CapturedWindow {
        hwnd: f.hwnd,
        pid: f.pid,
        exe_path: f.exe_path.clone(),
        title: f.title.clone(),
        class: f.class.clone(),
        x: left,
        y: top,
        w,
        h,
        monitor_id: String::new(),
        state: state_name(f.iconic, f.zoomed),
    })
}

/// Index of the first window with handle `hwnd`, or -1.
pub open spec fn find_index(ws: Seq<CapturedWindow>, hwnd: i64) -> int
    decreases ws.len(),
{
    if ws.len() == 0 {
        -1
    } else if find_index(ws.drop_last(), hwnd) >= 0 {
        find_index(ws.drop_last(), hwnd)
    } else if ws.last().hwnd == hwnd {
        ws.len() - 1
    } else {
        -1
    }
}

/// Find one enumerated window by handle (the first with that handle).
pub fn find_window(windows: &[CapturedWindow], hwnd: i64) -> (r: Option<CapturedWindow>)
    ensures
        find_index(windows@, hwnd) < 0 ==> r is None,
        find_index(windows@, hwnd) >= 0 ==> r == Some(windows@[find_index(windows@, hwnd)]),
        find_index(windows@, hwnd) >= 0 ==> windows@[find_index(windows@, hwnd)].hwnd == hwnd,
        forall|j: int| 0 <= j < windows@.len() && (find_index(windows@, hwnd) < 0 || j < find_index(windows@, hwnd))
            ==> (#[trigger] windows@[j]).hwnd != hwnd,
{
    let mut i: usize = 0;
    while i < windows.len()
        invariant
            i <= windows@.len(),
            find_index(windows@.take(i as int), hwnd) == -1,
            forall|j: int| 0 <= j < i ==> (#[trigger] windows@[j]).hwnd != hwnd,
        decreases windows@.len() - i,
    {
        let ghost t = windows@.take(i as int + 1);
        assert(t.drop_last() =~= windows@.take(i as int));
        if windows[i].hwnd == hwnd {
            proof {
                lemma_find_index_prefix(windows@, hwnd, i as int + 1);
            }
            return Some(windows[i].copy());
        }
        i = i + 1;
    }
    assert(windows@.take(windows@.len() as int) =~= windows@);
    None
}

/// Once found in a prefix, the index stays the same in the whole list.
proof fn lemma_find_index_prefix(ws: Seq<CapturedWindow>, hwnd: i64, n: int)
    requires
        0 <= n <= ws.len(),
        find_index(ws.take(n), hwnd) >= 0,
    ensures
        find_index(ws, hwnd) == find_index(ws.take(n), hwnd),
    decreases ws.len() - n,
{
    if n < ws.len() {
        let t = ws.take(n + 1);
        assert(t.drop_last() =~= ws.take(n));
        lemma_find_index_prefix(ws, hwnd, n + 1);
    } else {
        assert(ws.take(n) =~= ws);
    }
}

/// How a saved window state is applied to a window.
#[derive(Debug, Clone, Copy, PartialEq, Eq)]
pub enum Placement {
    /// Minimize the window.
    Minimize,
    /// Restore it, move it to this rectangle (on its saved monitor), then
    /// maximize it there (also used for "fullscreen", which needs the app's
    /// help).
    Maximize { x: i32, y: i32, w: i32, h: i32 },
    /// Restore it, then move it to this rectangle.
    Restore { x: i32, y: i32, w: i32, h: i32 },
}

/// The placement for a saved state: `minimized` minimizes; `maximized` and
/// `fullscreen` move the window to its rectangle, so that it maximizes on
/// the saved monitor; anything else restores the window and moves it. The
/// rectangle is at least one pixel wide and high.
pub open spec fn placement_spec(x: i32, y: i32, w: i32, h: i32, state: Seq<char>) -> Placement {
    if state == "minimized"@ {
        Placement::Minimize
    } else if state == "maximized"@ || state == "fullscreen"@ {
        Placement::Maximize { x, y, w: if w >= 1 { w } else { 1 }, h: if h >= 1 { h } else { 1 } }
    } else {
        Placement::Restore { x, y, w: if w >= 1 { w } else { 1 }, h: if h >= 1 { h } else { 1 } }
    }
}

/// The placement that moving a window with this saved state performs.
pub fn window_placement(x: i32, y: i32, w: i32, h: i32, state: &str) -> (p: Placement)
    ensures
        p == placement_spec(x, y, w, h, state@),
{
    if str_eq(state, "minimized") {
        Placement::Minimize
    } else if str_eq(state, "maximized") || str_eq(state, "fullscreen") {
        Placement::Maximize { x, y, w: if w >= 1 { w } else { 1 }, h: if h >= 1 { h } else { 1 } }
    } else {
        Placement::Restore { x, y, w: if w >= 1 { w } else { 1 }, h: if h >= 1 { h } else { 1 } }
    }
}

} // verus!
