//! Session decisions: which window a close reaches and with which process,
//! when a forced close may kill, what closing a whole session reports, and
//! which tracked windows an off-screen recovery looks at.

use vstd::prelude::*;

use crate::coords::{fallback_index, lemma_first_primary, visible_spec, is_rect_visible_on_any_monitor, NativeRect};
use crate::capture::window_rect;
use crate::coords::fallback_monitor;
use crate::error::WorksetError;
use crate::launcher::{index_with_id, lemma_index_with_id};
use crate::models::{CapturedWindow, MonitorInfo, SessionInfo, SessionWindowRow};
use crate::settings::is_word;
use crate::text::{str_eq, to_chars};

verus! {

/// The window a close reaches: the session row, the window handle (0 when
/// none was tracked) and the process, when one is known.
#[derive(Debug, PartialEq)]
pub struct CloseTarget {
    pub row_id: String,
    pub hwnd: i64,
    pub pid: Option<u32>,
}

/// The process of a row: its pid taken to 32 bits, none when that is 0.
pub open spec fn row_pid(row: SessionWindowRow) -> Option<u32> {
    let p = match row.pid {
        Some(p) => p as u32,
        None => 0u32,
    };
    if p == 0 { None } else { Some(p) }
}

/// `t` is the close target of `row`.
pub open spec fn is_target_of(t: CloseTarget, row: SessionWindowRow) -> bool {
    &&& t.row_id@ == row.id@
    &&& t.hwnd == match row.hwnd {
        Some(h) => h,
        None => 0,
    }
    &&& t.pid == row_pid(row)
}

/// The close target of a session row.
pub fn close_target(row: &SessionWindowRow) -> (t: CloseTarget)
    ensures
        is_target_of(t, *row),
{
    let hwnd = match row.hwnd {
        Some(h) => h,
        None => 0,
    };
    let p: u32 = match row.pid {
        Some(p) => p as u32,
        None => 0,
    };
    CloseTarget { row_id: row.id.clone(), hwnd, pid: if p == 0 { None } else { Some(p) } }
}

/// Index of the first row of the app, or -1.
pub open spec fn row_of_app(rows: Seq<SessionWindowRow>, app_id: Seq<char>) -> int
    decreases rows.len(),
{
    if rows.len() == 0 {
        -1
    } else if rows[0].app_id@ == app_id {
        0
    } else if row_of_app(rows.drop_first(), app_id) < 0 {
        -1
    } else {
        row_of_app(rows.drop_first(), app_id) + 1
    }
}

proof fn lemma_row_of_app(rows: Seq<SessionWindowRow>, app_id: Seq<char>)
    ensures
        -1 <= row_of_app(rows, app_id) < rows.len(),
        row_of_app(rows, app_id) >= 0 ==> rows[row_of_app(rows, app_id)].app_id@ == app_id,
        forall|j: int| 0 <= j < rows.len() && (row_of_app(rows, app_id) < 0 || j < row_of_app(rows, app_id))
            ==> (#[trigger] rows[j]).app_id@ != app_id,
    decreases rows.len(),
{
    if rows.len() > 0 && rows[0].app_id@ != app_id {
        lemma_row_of_app(rows.drop_first(), app_id);
        assert forall|j: int| 0 <= j < rows.len() && (row_of_app(rows, app_id) < 0 || j < row_of_app(rows, app_id))
            implies (#[trigger] rows[j]).app_id@ != app_id by {
            if j > 0 {
                assert(rows[j] == rows.drop_first()[j - 1]);
            }
        }
    }
}

/// The window of one app of a session: the target of its first row, or
/// `NotFound` when the app has no tracked window.
pub fn session_app_target(rows: &[SessionWindowRow], app_id: &str) -> (r: Result<CloseTarget, WorksetError>)
    ensures
        row_of_app(rows@, app_id@) >= 0 ==> (r matches Ok(t) && is_target_of(t, rows@[row_of_app(rows@, app_id@)])),
        row_of_app(rows@, app_id@) < 0 ==> (r matches Err(WorksetError::NotFound(m))
            && m@ == "no tracked window for app "@ + app_id@),
{
    proof {
        lemma_row_of_app(rows@, app_id@);
    }
    let mut i: usize = 0;
    while i < rows.len()
        invariant
            i <= rows@.len(),
            forall|j: int| 0 <= j < i ==> (#[trigger] rows@[j]).app_id@ != app_id@,
            -1 <= row_of_app(rows@, app_id@) < rows@.len(),
            row_of_app(rows@, app_id@) >= 0 ==> rows@[row_of_app(rows@, app_id@)].app_id@ == app_id@,
            forall|j: int| 0 <= j < rows@.len() && (row_of_app(rows@, app_id@) < 0 || j
                < row_of_app(rows@, app_id@)) ==> (#[trigger] rows@[j]).app_id@ != app_id@,
        decreases rows@.len() - i,
    {
        if str_eq(rows[i].app_id.as_str(), app_id) {
            assert(rows@[i as int].app_id@ == app_id@);
            assert(row_of_app(rows@, app_id@) == i as int);
            return Ok(close_target(&rows[i]));
        }
        i = i + 1;
    }
    Err(WorksetError::NotFound(String::from_str("no tracked window for app ").concat(app_id)))
}

/// Whether a window can be closed: it has a handle and still exists.
pub fn check_closable(hwnd: i64, exists: bool) -> (r: Result<(), WorksetError>)
    ensures
        (hwnd != 0 && exists) ==> r is Ok,
        !(hwnd != 0 && exists) ==> (r matches Err(WorksetError::NotFound(m)) && m@ == "window no longer exists"@),
{
    if hwnd == 0 || !exists {
        Err(WorksetError::NotFound(String::from_str("window no longer exists")))
    } else {
        Ok(())
    }
}

/// After asking a window to close under force: nothing more when it is
/// gone; the process to kill when it survived and one is known; else an
/// error.
pub fn force_kill_target(still_exists: bool, pid: Option<u32>) -> (r: Result<Option<u32>, WorksetError>)
    ensures
        !still_exists ==> r == Ok::<Option<u32>, WorksetError>(None),
        still_exists && (pid matches Some(p) && p != 0) ==> r == Ok::<Option<u32>, WorksetError>(pid),
        still_exists && !(pid matches Some(p) && p != 0) ==> (r matches Err(WorksetError::Validation(m))
            && m@ == "window did not close and no pid is known for a force kill"@),
{
    if !still_exists {
        return Ok(None);
    }
    match pid {
        Some(p) => {
            if p != 0 {
                Ok(Some(p))
            } else {
                Err(WorksetError::Validation(String::from_str("window did not close and no pid is known for a force kill")))
            }
        },
        None => Err(WorksetError::Validation(String::from_str("window did not close and no pid is known for a force kill"))),
    }
}

/// The views of close targets: row id, handle, process.
pub open spec fn targets_view(v: Seq<CloseTarget>) -> Seq<(Seq<char>, i64, Option<u32>)> {
    v.map_values(|t: CloseTarget| (t.row_id@, t.hwnd, t.pid))
}

/// The view of the close target of a row.
pub open spec fn row_target_view(row: SessionWindowRow) -> (Seq<char>, i64, Option<u32>) {
    (row.id@, match row.hwnd {
        Some(h) => h,
        None => 0,
    }, row_pid(row))
}

/// Closing every window of a session: `NotFound` when it tracks none,
/// else the targets of all its rows, in order (a row without a handle
/// counts as a failed close).
pub fn plan_close_all(session_id: &str, rows: &[SessionWindowRow]) -> (r: Result<Vec<CloseTarget>, WorksetError>)
    ensures
        rows@.len() == 0 ==> (r matches Err(WorksetError::NotFound(m))
            && m@ == "session "@ + session_id@ + " has no tracked windows"@),
        rows@.len() > 0 ==> (r matches Ok(v) && targets_view(v@) == rows@.map_values(|row: SessionWindowRow| row_target_view(row))),
{
    if rows.len() == 0 {
        return Err(WorksetError::NotFound(String::from_str("session ").concat(session_id).concat(" has no tracked windows")));
    }
    let mut v: Vec<CloseTarget> = Vec::new();
    let mut i: usize = 0;
    while i < rows.len()
        invariant
            i <= rows@.len(),
            targets_view(v@) == rows@.take(i as int).map_values(|row: SessionWindowRow| row_target_view(row)),
        decreases rows@.len() - i,
    {
        let ghost prev = v@;
        let t = close_target(&rows[i]);
        assert((t.row_id@, t.hwnd, t.pid) == row_target_view(rows@[i as int]));
        v.push(t);
        assert(targets_view(v@) =~= targets_view(prev).push(row_target_view(rows@[i as int])));
        assert(rows@.take(i + 1).map_values(|row: SessionWindowRow| row_target_view(row))
            =~= rows@.take(i as int).map_values(|row: SessionWindowRow| row_target_view(row)).push(row_target_view(rows@[i as int])));
        i = i + 1;
    }
    assert(rows@.take(rows@.len() as int) =~= rows@);
    Ok(v)
}

/// What closing a session reports after `failures` of its `total` windows
/// could not be closed: an error only when all of them failed.
pub fn close_all_result(total: usize, failures: usize) -> (r: Result<(), WorksetError>)
    ensures
        failures == total ==> (r matches Err(WorksetError::Windows(m))
            && m@ == "could not close any window of the session"@),
        failures != total ==> r is Ok,
{
    if failures == total {
        Err(WorksetError::Windows(String::from_str("could not close any window of the session")))
    } else {
        Ok(())
    }
}

/// The sessions whose windows an off-screen recovery looks at.
pub open spec fn recoverable(status: Seq<char>) -> bool {
    status == "running"@ || status == "done"@
}

/// The tracked window handles of the first `n` sessions that recovery looks
/// at: rows without a handle are left out.
pub open spec fn recovery_prefix(ss: Seq<SessionInfo>, n: int) -> Seq<i64>
    decreases n,
{
    if n <= 0 {
        Seq::empty()
    } else if recoverable(ss[n - 1].status@) {
        recovery_prefix(ss, n - 1) + row_handles(ss[n - 1].windows@, ss[n - 1].windows@.len() as int)
    } else {
        recovery_prefix(ss, n - 1)
    }
}

/// The non-zero handles of the first `n` rows.
pub open spec fn row_handles(rows: Seq<SessionWindowRow>, n: int) -> Seq<i64>
    decreases n,
{
    if n <= 0 {
        Seq::empty()
    } else {
        let h = match rows[n - 1].hwnd {
            Some(h) => h,
            None => 0,
        };
        if h != 0 {
            row_handles(rows, n - 1).push(h)
        } else {
            row_handles(rows, n - 1)
        }
    }
}

fn handles_of(rows: &Vec<SessionWindowRow>, out: &mut Vec<i64>)
    ensures
        final(out)@ == old(out)@ + row_handles(rows@, rows@.len() as int),
{
    let ghost base = out@;
    let mut i: usize = 0;
    while i < rows.len()
        invariant
            i <= rows@.len(),
            out@ == base + row_handles(rows@, i as int),
        decreases rows@.len() - i,
    {
        let h = match rows[i].hwnd {
            Some(h) => h,
            None => 0,
        };
        if h != 0 {
            out.push(h);
            assert(out@ =~= base + row_handles(rows@, i + 1));
        }
        i = i + 1;
    }
}

/// The windows an off-screen recovery looks at: the tracked handles of
/// running and finished sessions, in order.
pub fn recovery_candidates(sessions: &[SessionInfo]) -> (hs: Vec<i64>)
    ensures
        hs@ == recovery_prefix(sessions@, sessions@.len() as int),
{
    let mut hs: Vec<i64> = Vec::new();
    let mut i: usize = 0;
    while i < sessions.len()
        invariant
            i <= sessions@.len(),
            hs@ == recovery_prefix(sessions@, i as int),
        decreases sessions@.len() - i,
    {
        let st = to_chars(sessions[i].status.as_str());
        if is_word(st.as_slice(), "running") || is_word(st.as_slice(), "done") {
            handles_of(&sessions[i].windows, &mut hs);
        }
        i = i + 1;
    }
    hs
}

/// The monitor windows are recovered onto: the one with the fallback
/// monitor's id (the first primary, else the first); `None` without
/// monitors.
pub open spec fn recovery_index(ms: Seq<MonitorInfo>) -> int {
    if ms.len() == 0 { -1 } else { index_with_id(ms, ms[fallback_index(ms)].id@) }
}

/// The monitor windows are recovered onto (see `recovery_index`).
pub fn recovery_monitor(monitors: &[MonitorInfo]) -> (r: Option<MonitorInfo>)
    ensures
        recovery_index(monitors@) < 0 ==> r is None,
        recovery_index(monitors@) >= 0 ==> r == Some(monitors@[recovery_index(monitors@)]),
        monitors@.len() > 0 ==> recovery_index(monitors@) >= 0,
{
    if monitors.len() == 0 {
        return None;
    }
    proof {
        lemma_first_primary(monitors@);
        lemma_index_with_id(monitors@, monitors@[fallback_index(monitors@)].id@);
    }
    let fb = fallback_monitor(monitors);
    let id = match fb {
        Some(s) => s,
        None => String::new(),
    };
    let ghost want = monitors@[fallback_index(monitors@)].id@;
    assert(id@ == want);
    let mut i: usize = 0;
    while i < monitors.len()
        invariant
            i <= monitors@.len(),
            id@ == want,
            forall|j: int| 0 <= j < i ==> (#[trigger] monitors@[j]).id@ != want,
            -1 <= index_with_id(monitors@, want) < monitors@.len(),
            index_with_id(monitors@, want) >= 0 ==> monitors@[index_with_id(monitors@, want)].id@ == want,
            forall|j: int| 0 <= j < monitors@.len() && (index_with_id(monitors@, want) < 0 || j
                < index_with_id(monitors@, want)) ==> (#[trigger] monitors@[j]).id@ != want,
            0 <= fallback_index(monitors@) < monitors@.len(),
            want == monitors@[fallback_index(monitors@)].id@,
        decreases monitors@.len() - i,
    {
        if str_eq(monitors[i].id.as_str(), id.as_str()) {
            assert(monitors@[i as int].id@ == want);
            assert(index_with_id(monitors@, want) == i as int);
            assert(recovery_index(monitors@) == i as int);
            return Some(monitors[i].copy());
        }
        i = i + 1;
    }
    assert(monitors@[fallback_index(monitors@)].id@ == want);
    assert(false);
    None
}

/// Whether a window lies entirely off every monitor and is to be moved back.
pub fn is_offscreen(monitors: &[MonitorInfo], w: &CapturedWindow) -> (b: bool)
    ensures
        b == !visible_spec(monitors@, window_rect(*w)),
{
    !is_rect_visible_on_any_monitor(monitors, NativeRect { x: w.x, y: w.y, w: w.w, h: w.h })
}

/// How many of the first `n` closes failed: a target without a handle
/// counts as failed without an attempt, else the attempt's outcome counts.
pub open spec fn failed_closes(targets: Seq<CloseTarget>, closed: Seq<bool>, n: int) -> int
    decreases n,
{
    if n <= 0 {
        0
    } else {
        failed_closes(targets, closed, n - 1) + if targets[n - 1].hwnd == 0 || !closed[n - 1] { 1int } else { 0 }
    }
}

/// Whether closing a target is attempted: only when it has a handle.
pub fn close_attempted(t: &CloseTarget) -> (b: bool)
    ensures
        b == (t.hwnd != 0),
{
    t.hwnd != 0
}

/// What closing a whole session reports once each target was handled:
/// `closed[i]` tells whether target `i` was closed. An error comes only
/// when no window could be closed.
pub fn close_all_outcome(targets: &[CloseTarget], closed: &[bool]) -> (r: Result<(), WorksetError>)
    requires
        closed@.len() == targets@.len(),
    ensures
        failed_closes(targets@, closed@, targets@.len() as int) == targets@.len() ==> (r matches Err(
            WorksetError::Windows(m),
        ) && m@ == "could not close any window of the session"@),
        failed_closes(targets@, closed@, targets@.len() as int) != targets@.len() ==> r is Ok,
{
    let mut failures: usize = 0;
    let mut i: usize = 0;
    while i < targets.len()
        invariant
            closed@.len() == targets@.len(),
            i <= targets@.len(),
            failures == failed_closes(targets@, closed@, i as int),
            failures <= i,
        decreases targets@.len() - i,
    {
        if targets[i].hwnd == 0 || !closed[i] {
            failures = failures + 1;
        }
        i = i + 1;
    }
    close_all_result(targets.len(), failures)
}

/// Whether recovery moves a tracked window: it still exists, could be
/// looked up, and lies entirely off every monitor.
pub fn should_recover(monitors: &[MonitorInfo], exists: bool, window: &Option<CapturedWindow>) -> (b: bool)
    ensures
        b == (exists && (*window matches Some(w) && !visible_spec(monitors@, window_rect(w)))),
{
    if !exists {
        return false;
    }
    match window {
        Some(w) => is_offscreen(monitors, w),
        None => false,
    }
}

} // verus!
