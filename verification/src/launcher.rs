//! Launching one app of a workspace. The decisions are a state machine:
//! `step` takes where the launch stands and what just happened (a list of
//! windows, the end of the start delay, facts about the disk, the outcome
//! of a spawn, a placement) and answers with the next stage and the
//! actions to perform (record a session row, emit progress, spawn, wait,
//! move a window). The caller performs the actions and feeds the outcomes
//! back.

use vstd::prelude::*;

use crate::coords::{fallback_index, first_primary, lemma_first_primary, monitor_work_rect, work_rect, NativeRect};
use crate::error::{error_detail, error_kind, error_text, kind_prefix, ErrorKind, WorksetError};
use crate::matching::{find_best, find_best_spec};
use crate::models::{CapturedWindow, MatchRules, MonitorInfo, WorkspaceApp};
use crate::numbers::{digits_of, format_i64, format_i64_spec, format_u64};
use crate::paths::{file_stem, stem_spec};
use crate::processes::{
    exe_check_spec, plan_is, plan_launch_with, plan_spec, validate_exe_with, LaunchPlan, PlanSpec,
};
use crate::settings::is_word;
use crate::models::concat3;
use crate::text::{
    copy_str, from_chars, is_blank, is_blank_str, str_eq, to_chars, trim, trim_str,
    lemma_trim_empty_iff_blank,
};

verus! {

/// `s` without a trailing `.lnk` (case-sensitive), else `s`.
pub open spec fn strip_lnk(s: Seq<char>) -> Seq<char> {
    if s.len() >= 4 && s.subrange(s.len() - 4, s.len() as int) == ".lnk"@ {
        s.subrange(0, s.len() - 4)
    } else {
        s
    }
}

/// The executable hint derived from an exe path: its trimmed file stem
/// without a `.lnk` suffix.
pub open spec fn stem_hint(exe_path: Seq<char>) -> Seq<char> {
    let stem = match stem_spec(exe_path) {
        Some(s) => s,
        None => Seq::empty(),
    };
    strip_lnk(trim(stem))
}

/// Whether a missing or blank `exe_contains` is replaced by the exe's stem.
pub open spec fn uses_stem_hint(app: WorkspaceApp) -> bool {
    let empty = match app.match_rules.exe_contains {
        Some(s) => is_blank(s@),
        None => true,
    };
    empty && !is_blank(app.exe_path@) && stem_hint(app.exe_path@).len() > 0
}

/// `r` are the rules used to find an app's window: the app's own rules,
/// where a missing or blank `exe_contains` falls back to the exe's stem
/// hint (when the exe path is set and the hint is not empty).
pub open spec fn is_effective_rules(app: WorkspaceApp, r: MatchRules) -> bool {
    let m = app.match_rules;
    &&& r.title_contains == m.title_contains
    &&& r.title_regex == m.title_regex
    &&& r.window_class == m.window_class
    &&& r.use_regex == m.use_regex
    &&& if uses_stem_hint(app) {
        r.exe_contains matches Some(s) && s@ == stem_hint(app.exe_path@)
    } else {
        r.exe_contains == m.exe_contains
    }
}

/// `s` without a trailing `.lnk`.
fn strip_lnk_chars(s: Vec<char>) -> (r: Vec<char>)
    ensures
        r@ == strip_lnk(s@),
{
    let n = s.len();
    if n >= 4 && s[n - 4] == '.' && s[n - 3] == 'l' && s[n - 2] == 'n' && s[n - 1] == 'k' {
        assert(s@.subrange(n - 4, n as int) =~= ".lnk"@) by {
            reveal_strlit(".lnk");
        }
        let mut out: Vec<char> = Vec::new();
        let mut k: usize = 0;
        while k < n - 4
            invariant
                n == s@.len(),
                n >= 4,
                k <= n - 4,
                out@ == s@.subrange(0, k as int),
            decreases n - 4 - k,
        {
            out.push(s[k]);
            k = k + 1;
            assert(out@ =~= s@.subrange(0, k as int));
        }
        out
    } else {
        proof {
            reveal_strlit(".lnk");
            if n >= 4 && s@.subrange(n - 4, n as int) == ".lnk"@ {
                assert(s@.subrange(n - 4, n as int)[0] == s@[n - 4]);
                assert(s@.subrange(n - 4, n as int)[1] == s@[n - 3]);
                assert(s@.subrange(n - 4, n as int)[2] == s@[n - 2]);
                assert(s@.subrange(n - 4, n as int)[3] == s@[n - 1]);
            }
        }
        s
    }
}

/// The rules used to find an app's window (see `is_effective_rules`).
pub fn effective_rules(app: &WorkspaceApp) -> (r: MatchRules)
    ensures
        is_effective_rules(*app, r),
{
    let mut r = app.match_rules.copy();
    let empty = match &app.match_rules.exe_contains {
        Some(s) => is_blank_str(s.as_str()),
        None => true,
    };
    if empty && !is_blank_str(app.exe_path.as_str()) {
        let pv = to_chars(app.exe_path.as_str());
        let stem = match file_stem(pv.as_slice()) {
            Some(v) => from_chars(v.as_slice()),
            None => String::new(),
        };
        let hint = strip_lnk_chars(trim_str(stem.as_str()));
        if hint.len() > 0 {
            r.exe_contains = Some(from_chars(hint.as_slice()));
        }
    }
    r
}

/// Index of the first monitor with the given id, or -1.
pub open spec fn index_with_id(ms: Seq<MonitorInfo>, id: Seq<char>) -> int
    decreases ms.len(),
{
    if ms.len() == 0 {
        -1
    } else if ms[0].id@ == id {
        0
    } else if index_with_id(ms.drop_first(), id) < 0 {
        -1
    } else {
        index_with_id(ms.drop_first(), id) + 1
    }
}

/// Index of the monitor an app goes to: the one with its target id, else
/// the first primary, else the first; -1 when there is no monitor.
pub open spec fn target_index(ms: Seq<MonitorInfo>, id: Seq<char>) -> int {
    if index_with_id(ms, id) >= 0 {
        index_with_id(ms, id)
    } else {
        fallback_index(ms)
    }
}

pub proof fn lemma_index_with_id(ms: Seq<MonitorInfo>, id: Seq<char>)
    ensures
        -1 <= index_with_id(ms, id) < ms.len(),
        index_with_id(ms, id) >= 0 ==> ms[index_with_id(ms, id)].id@ == id,
        forall|j: int| 0 <= j < ms.len() && (index_with_id(ms, id) < 0 || j < index_with_id(ms, id))
            ==> (#[trigger] ms[j]).id@ != id,
    decreases ms.len(),
{
    if ms.len() > 0 && ms[0].id@ != id {
        lemma_index_with_id(ms.drop_first(), id);
        assert forall|j: int| 0 <= j < ms.len() && (index_with_id(ms, id) < 0 || j < index_with_id(ms, id))
            implies (#[trigger] ms[j]).id@ != id by {
            if j > 0 {
                assert(ms[j] == ms.drop_first()[j - 1]);
            }
        }
    }
}

/// The monitor an app goes to (see `target_index`).
pub fn choose_target_monitor(monitors: &[MonitorInfo], id: &str) -> (r: Option<MonitorInfo>)
    ensures
        target_index(monitors@, id@) < 0 ==> r is None,
        target_index(monitors@, id@) >= 0 ==> r == Some(monitors@[target_index(monitors@, id@)]),
{
    proof {
        lemma_index_with_id(monitors@, id@);
        lemma_first_primary(monitors@);
    }
    let mut i: usize = 0;
    while i < monitors.len()
        invariant
            i <= monitors@.len(),
            forall|j: int| 0 <= j < i ==> (#[trigger] monitors@[j]).id@ != id@,
            -1 <= index_with_id(monitors@, id@) < monitors@.len(),
            index_with_id(monitors@, id@) >= 0 ==> monitors@[index_with_id(monitors@, id@)].id@ == id@,
            forall|j: int| 0 <= j < monitors@.len() && (index_with_id(monitors@, id@) < 0 || j
                < index_with_id(monitors@, id@)) ==> (#[trigger] monitors@[j]).id@ != id@,
        decreases monitors@.len() - i,
    {
        if str_eq(monitors[i].id.as_str(), id) {
            assert(monitors@[i as int].id@ == id@);
            assert(index_with_id(monitors@, id@) == i as int);
            return Some(monitors[i].copy());
        }
        i = i + 1;
    }
    let mut k: usize = 0;
    while k < monitors.len()
        invariant
            k <= monitors@.len(),
            index_with_id(monitors@, id@) < 0,
            forall|j: int| 0 <= j < k ==> !(#[trigger] monitors@[j]).is_primary,
            -1 <= first_primary(monitors@) < monitors@.len(),
            first_primary(monitors@) >= 0 ==> monitors@[first_primary(monitors@)].is_primary,
            forall|j: int| 0 <= j < monitors@.len() && (first_primary(monitors@) < 0 || j
                < first_primary(monitors@)) ==> !(#[trigger] monitors@[j]).is_primary,
        decreases monitors@.len() - k,
    {
        if monitors[k].is_primary {
            return Some(monitors[k].copy());
        }
        k = k + 1;
    }
    if monitors.len() > 0 {
        Some(monitors[0].copy())
    } else {
        None
    }
}

/// Everything the launch of one app needs to know up front.
pub struct LaunchContext {
    /// The app entry.
    pub app: WorkspaceApp,
    /// The monitor it goes to, if there is any monitor.
    pub target: Option<MonitorInfo>,
    /// The rules that find its window.
    pub rules: MatchRules,
    /// How long to wait for a new window, in milliseconds.
    pub timeout_ms: u64,
}

/// `c` is the launch context of `app` on `monitors` with the given timeout.
pub open spec fn is_context_for(c: LaunchContext, app: WorkspaceApp, monitors: Seq<MonitorInfo>, timeout_ms: u64) -> bool {
    let t = target_index(monitors, app.target_monitor@);
    &&& c.app == app
    &&& (t < 0 ==> c.target is None)
    &&& (t >= 0 ==> c.target == Some(monitors[t]))
    &&& is_effective_rules(app, c.rules)
    &&& c.timeout_ms == timeout_ms
}

impl LaunchContext {
    /// The launch context of an app entry on the given monitors.
    pub fn new(app: &WorkspaceApp, monitors: &[MonitorInfo], timeout_ms: u64) -> (c: LaunchContext)
        ensures
            c.app.args@ == app.args@,
            is_context_for(c, WorkspaceApp { args: c.app.args, ..*app }, monitors@, timeout_ms),
    {
        let target = choose_target_monitor(monitors, app.target_monitor.as_str());
        let rules = effective_rules(app);
        LaunchContext { app: app.copy(), target, rules, timeout_ms }
    }
}

/// Where the launch of one app stands.
#[derive(Debug, PartialEq)]
pub enum LaunchStage {
    /// Nothing happened yet.
    Start,
    /// The current windows were asked for, to reuse one of them.
    LookingForWindow,
    /// The start delay is running; then cancellation is checked.
    Delaying,
    /// Facts about the executable on disk were asked for.
    Probing,
    /// The process is being started.
    Spawning,
    /// The process runs; its window is awaited.
    AwaitingWindow { pid: u32 },
    /// The window was found and is being moved into place.
    Positioning { pid: u32, hwnd: i64 },
    /// The launch of this app is over.
    Finished(Result<(), WorksetError>),
}

/// What happened since the last step.
#[derive(Debug, PartialEq)]
pub enum LaunchEvent {
    /// The launch of the app begins.
    Begin,
    /// The current top-level windows.
    Windows(Vec<CapturedWindow>),
    /// The start delay is over; whether the session was cancelled meanwhile.
    Resumed { cancelled: bool },
    /// Whether the trimmed exe path exists and is a directory, and whether
    /// the working directory is a directory.
    Probed { exists: bool, is_dir: bool, cwd_is_dir: bool },
    /// The outcome of starting the process: its pid.
    Spawned(Result<u32, WorksetError>),
    /// The outcome of waiting for a new window of the app.
    WindowFound(Result<CapturedWindow, WorksetError>),
    /// Where the window was to go, and the outcome of moving it there.
    Placed { rect: NativeRect, result: Result<(), WorksetError> },
}

/// Something to do for the launch.
#[derive(Debug, PartialEq)]
pub enum LaunchAction {
    /// Write the app's session row (and a log line with the same status
    /// and message).
    Record {
        pid: Option<u32>,
        hwnd: Option<i64>,
        status: String,
        message: String,
        rect: Option<NativeRect>,
    },
    /// Emit a progress event for the app.
    Emit { status: String, message: String },
    /// List the current top-level windows (answer: `Windows`).
    ListWindows,
    /// Bring a window to the front; its outcome is ignored.
    Focus { hwnd: i64 },
    /// Move a window to the app's layout inside the work area `work`. When
    /// `report` is set the outcome is awaited (answer: `Placed`),
    /// otherwise it is ignored.
    Place { hwnd: i64, work: NativeRect, report: bool },
    /// Sleep `ms` milliseconds (not at all for 0), then check whether the
    /// session was cancelled (answer: `Resumed`).
    Pause { ms: u64 },
    /// Look at the exe path and the working directory on disk (answer:
    /// `Probed`).
    Probe,
    /// List the current windows as the snapshot for the wait, then start
    /// the process as planned (answer: `Spawned`).
    Spawn(LaunchPlan),
    /// Wait up to `timeout_ms` for a window absent from the snapshot that
    /// matches the app's rules (answer: `WindowFound`).
    AwaitWindow { timeout_ms: u64 },
}

/// The view of an error: its variant and message.
pub open spec fn err_view(e: WorksetError) -> (ErrorKind, Seq<char>) {
    (error_kind(e), error_detail(e))
}

/// A launch stage, with errors by their view.
pub enum StageView {
    Start,
    LookingForWindow,
    Delaying,
    Probing,
    Spawning,
    AwaitingWindow(u32),
    Positioning(u32, i64),
    Finished(Option<(ErrorKind, Seq<char>)>),
}

/// An action, with strings by their characters.
pub enum ActionView {
    Record {
        pid: Option<u32>,
        hwnd: Option<i64>,
        status: Seq<char>,
        message: Seq<char>,
        rect: Option<NativeRect>,
    },
    Emit { status: Seq<char>, message: Seq<char> },
    ListWindows,
    Focus { hwnd: i64 },
    Place { hwnd: i64, work: NativeRect, report: bool },
    Pause { ms: u64 },
    Probe,
    Spawn(PlanSpec),
    AwaitWindow { timeout_ms: u64 },
}

/// The outcome of a finished launch, by view.
pub open spec fn outcome_view(r: Result<(), WorksetError>) -> Option<(ErrorKind, Seq<char>)> {
    match r {
        Ok(()) => None,
        Err(e) => Some(err_view(e)),
    }
}

impl LaunchStage {
    pub open spec fn view(self) -> StageView {
        match self {
            LaunchStage::Start => StageView::Start,
            LaunchStage::LookingForWindow => StageView::LookingForWindow,
            LaunchStage::Delaying => StageView::Delaying,
            LaunchStage::Probing => StageView::Probing,
            LaunchStage::Spawning => StageView::Spawning,
            LaunchStage::AwaitingWindow { pid } => StageView::AwaitingWindow(pid),
            LaunchStage::Positioning { pid, hwnd } => StageView::Positioning(pid, hwnd),
            LaunchStage::Finished(r) => StageView::Finished(outcome_view(r)),
        }
    }
}

/// The plan of a launch as plain sequences.
pub open spec fn plan_view(p: LaunchPlan) -> PlanSpec {
    PlanSpec {
        program: p.program@,
        args: p.args.deep_view(),
        cwd: match p.cwd {
            Some(c) => Some(c@),
            None => None,
        },
    }
}

impl LaunchAction {
    pub open spec fn view(self) -> ActionView {
        match self {
            LaunchAction::Record { pid, hwnd, status, message, rect } => ActionView::Record {
                pid,
                hwnd,
                status: status@,
                message: message@,
                rect,
            },
            LaunchAction::Emit { status, message } => ActionView::Emit {
                status: status@,
                message: message@,
            },
            LaunchAction::ListWindows => ActionView::ListWindows,
            LaunchAction::Focus { hwnd } => ActionView::Focus { hwnd },
            LaunchAction::Place { hwnd, work, report } => ActionView::Place { hwnd, work, report },
            LaunchAction::Pause { ms } => ActionView::Pause { ms },
            LaunchAction::Probe => ActionView::Probe,
            LaunchAction::Spawn(p) => ActionView::Spawn(plan_view(p)),
            LaunchAction::AwaitWindow { timeout_ms } => ActionView::AwaitWindow { timeout_ms },
        }
    }
}

/// The views of a list of actions.
pub open spec fn actions_view(v: Seq<LaunchAction>) -> Seq<ActionView> {
    v.map_values(|a: LaunchAction| a.view())
}

/// The app's launch policy, trimmed.
pub open spec fn policy_of(app: WorkspaceApp) -> Seq<char> {
    trim(app.launch_policy@)
}

/// The work area the app goes to (empty when there is no monitor, which a
/// launch never reaches past its first step).
pub open spec fn target_work(c: LaunchContext) -> NativeRect {
    match c.target {
        Some(m) => work_rect(m),
        None => NativeRect { x: 0, y: 0, w: 0, h: 0 },
    }
}

/// The name of the monitor the app goes to (empty when there is none).
pub open spec fn target_name(c: LaunchContext) -> Seq<char> {
    match c.target {
        Some(m) => m.name@,
        None => Seq::empty(),
    }
}

/// The start delay in milliseconds (negative delays count as none).
pub open spec fn delay_of(app: WorkspaceApp) -> u64 {
    if app.launch_delay_ms > 0 { app.launch_delay_ms as u64 } else { 0 }
}

pub open spec fn record_view(
    pid: Option<u32>,
    hwnd: Option<i64>,
    status: Seq<char>,
    message: Seq<char>,
    rect: Option<NativeRect>,
) -> ActionView {
    ActionView::Record { pid, hwnd, status, message, rect }
}

pub open spec fn emit_view(status: Seq<char>, message: Seq<char>) -> ActionView {
    ActionView::Emit { status, message }
}

/// The display text of an error given by its view.
pub open spec fn view_text(e: (ErrorKind, Seq<char>)) -> Seq<char> {
    kind_prefix(e.0) + e.1
}

/// Record and report a failure with the given message.
pub open spec fn failure_views(pid: Option<u32>, hwnd: Option<i64>, message: Seq<char>, rect: Option<NativeRect>) -> Seq<ActionView> {
    seq![record_view(pid, hwnd, "failed"@, message, rect), emit_view("failed"@, message)]
}

/// Announce the start and run the start delay.
pub open spec fn starting_views(app: WorkspaceApp) -> Seq<ActionView> {
    seq![emit_view("launching"@, "Starting…"@), ActionView::Pause { ms: delay_of(app) }]
}

pub open spec fn reuse_message(w: CapturedWindow) -> Seq<char> {
    "reusing window '"@ + w.title@ + "' (hwnd "@ + format_i64_spec(w.hwnd) + ")"@
}

pub open spec fn no_match_message() -> Seq<char> {
    "no matching window found (policy only matches)"@
}

pub open spec fn nothing_message() -> Seq<char> {
    "nothing to launch: exe_path and url are both empty"@
}

pub open spec fn spawned_message(pid: u32) -> Seq<char> {
    "spawned pid "@ + digits_of(pid as nat) + ", waiting for window…"@
}

pub open spec fn wait_failed_message(pid: u32, e: WorksetError) -> Seq<char> {
    "launched pid "@ + digits_of(pid as nat) + " but "@ + error_text(e)
}

pub open spec fn place_failed_message(hwnd: i64, e: WorksetError) -> Seq<char> {
    "window found (hwnd "@ + format_i64_spec(hwnd) + ") but positioning failed: "@ + error_text(e)
}

pub open spec fn launched_message(c: LaunchContext, hwnd: i64) -> Seq<char> {
    "launched on "@ + target_name(c) + " (hwnd "@ + format_i64_spec(hwnd) + ")"@
}

/// The policies that look for a running window first.
pub open spec fn looks_first(p: Seq<char>) -> bool {
    p == "if_not_running"@ || p == "reuse"@ || p == "focus"@
}

/// One step of the launch of one app.
pub open spec fn step_spec(c: LaunchContext, stage: LaunchStage, ev: LaunchEvent) -> (StageView, Seq<ActionView>) {
    let app = c.app;
    let policy = policy_of(app);
    match stage {
        LaunchStage::Start => match ev {
            LaunchEvent::Begin => if policy == "skip"@ {
                (StageView::Finished(None), seq![
                    record_view(None, None, "done"@, "skipped by policy"@, None),
                    emit_view("done"@, "Skipped (policy)"@),
                ])
            } else if c.target is None {
                (StageView::Finished(Some((ErrorKind::Windows, "no monitors available"@))),
                    failure_views(None, None, view_text((ErrorKind::Windows, "no monitors available"@)), None))
            } else if looks_first(policy) {
                (StageView::LookingForWindow, seq![ActionView::ListWindows])
            } else {
                (StageView::Delaying, starting_views(app))
            },
            _ => (stage.view(), seq![]),
        },
        LaunchStage::LookingForWindow => match ev {
            LaunchEvent::Windows(ws) => match find_best_spec(ws@, c.rules, None) {
                Some(hit) => (StageView::Finished(None), seq![
                    if policy == "focus"@ {
                        ActionView::Focus { hwnd: hit.hwnd }
                    } else {
                        ActionView::Place { hwnd: hit.hwnd, work: target_work(c), report: false }
                    },
                    record_view(Some(hit.pid), Some(hit.hwnd), "done"@, reuse_message(hit), None),
                    emit_view("done"@, reuse_message(hit)),
                ]),
                None => if policy == "reuse"@ || policy == "focus"@ {
                    (StageView::Finished(Some((ErrorKind::NotFound, no_match_message()))),
                        failure_views(None, None, no_match_message(), None))
                } else {
                    (StageView::Delaying, starting_views(app))
                },
            },
            _ => (stage.view(), seq![]),
        },
        LaunchStage::Delaying => match ev {
            LaunchEvent::Resumed { cancelled } => if cancelled {
                (StageView::Finished(Some((ErrorKind::Timeout, "launch cancelled"@))), seq![])
            } else if is_blank(app.exe_path@) && is_blank(app.url@) {
                (StageView::Finished(Some((ErrorKind::Validation, nothing_message()))),
                    failure_views(None, None, nothing_message(), None))
            } else if is_blank(app.exe_path@) {
                match plan_spec(app.exe_path@, app.args.deep_view(), app.cwd@, app.url@, false, false, false) {
                    Ok(p) => (StageView::Spawning, seq![ActionView::Spawn(p)]),
                    Err(e) => (StageView::Finished(Some(e)), failure_views(None, None, view_text(e), None)),
                }
            } else {
                (StageView::Probing, seq![ActionView::Probe])
            },
            _ => (stage.view(), seq![]),
        },
        LaunchStage::Probing => match ev {
            LaunchEvent::Probed { exists, is_dir, cwd_is_dir } => match exe_check_spec(app.exe_path@, exists, is_dir) {
                Some((k, m)) => (StageView::Finished(Some((k, m))),
                    failure_views(None, None, "invalid executable: "@ + kind_prefix(k) + m, None)),
                None => match plan_spec(app.exe_path@, app.args.deep_view(), app.cwd@, app.url@, exists, is_dir, cwd_is_dir) {
                    Ok(p) => (StageView::Spawning, seq![ActionView::Spawn(p)]),
                    Err(e) => (StageView::Finished(Some(e)), failure_views(None, None, view_text(e), None)),
                },
            },
            _ => (stage.view(), seq![]),
        },
        LaunchStage::Spawning => match ev {
            LaunchEvent::Spawned(r) => match r {
                Ok(pid) => (StageView::AwaitingWindow(pid), seq![
                    record_view(Some(pid), None, "waiting"@, spawned_message(pid), None),
                    emit_view("waiting"@, "Waiting for window…"@),
                    ActionView::AwaitWindow { timeout_ms: c.timeout_ms },
                ]),
                Err(e) => (StageView::Finished(Some(err_view(e))), failure_views(None, None, error_text(e), None)),
            },
            _ => (stage.view(), seq![]),
        },
        LaunchStage::AwaitingWindow { pid } => match ev {
            LaunchEvent::WindowFound(r) => match r {
                Ok(w) => (StageView::Positioning(pid, w.hwnd), seq![
                    emit_view("positioning"@, "Positioning…"@),
                    ActionView::Place { hwnd: w.hwnd, work: target_work(c), report: true },
                ]),
                Err(e) => (StageView::Finished(Some(err_view(e))),
                    failure_views(Some(pid), None, wait_failed_message(pid, e), None)),
            },
            _ => (stage.view(), seq![]),
        },
        LaunchStage::Positioning { pid, hwnd } => match ev {
            LaunchEvent::Placed { rect, result } => match result {
                Ok(()) => (StageView::Finished(None), seq![
                    record_view(Some(pid), Some(hwnd), "done"@, launched_message(c, hwnd), Some(rect)),
                    emit_view("done"@, launched_message(c, hwnd)),
                ]),
                Err(e) => (StageView::Finished(Some(err_view(e))),
                    failure_views(Some(pid), Some(hwnd), place_failed_message(hwnd, e), Some(rect))),
            },
            _ => (stage.view(), seq![]),
        },
        LaunchStage::Finished(_) => (stage.view(), seq![]),
    }
}

fn one(a: LaunchAction) -> (v: Vec<LaunchAction>)
    ensures
        actions_view(v@) == seq![a.view()],
{
    let ghost av = a.view();
    let mut v: Vec<LaunchAction> = Vec::new();
    v.push(a);
    assert(actions_view(v@) =~= seq![av]);
    v
}

fn two(a: LaunchAction, b: LaunchAction) -> (v: Vec<LaunchAction>)
    ensures
        actions_view(v@) == seq![a.view(), b.view()],
{
    let ghost av = a.view();
    let ghost bv = b.view();
    let mut v: Vec<LaunchAction> = Vec::new();
    v.push(a);
    v.push(b);
    assert(actions_view(v@) =~= seq![av, bv]);
    v
}

fn three(a: LaunchAction, b: LaunchAction, d: LaunchAction) -> (v: Vec<LaunchAction>)
    ensures
        actions_view(v@) == seq![a.view(), b.view(), d.view()],
{
    let ghost av = a.view();
    let ghost bv = b.view();
    let ghost dv = d.view();
    let mut v: Vec<LaunchAction> = Vec::new();
    v.push(a);
    v.push(b);
    v.push(d);
    assert(actions_view(v@) =~= seq![av, bv, dv]);
    v
}

fn none() -> (v: Vec<LaunchAction>)
    ensures
        actions_view(v@) == Seq::<ActionView>::empty(),
{
    let v: Vec<LaunchAction> = Vec::new();
    assert(actions_view(v@) =~= Seq::<ActionView>::empty());
    v
}

fn record(pid: Option<u32>, hwnd: Option<i64>, status: &str, message: String, rect: Option<NativeRect>) -> (a: LaunchAction)
    ensures
        a.view() == record_view(pid, hwnd, status@, message@, rect),
{
    LaunchAction::Record { pid, hwnd, status: String::from_str(status), message, rect }
}

fn emit(status: &str, message: String) -> (a: LaunchAction)
    ensures
        a.view() == emit_view(status@, message@),
{
    LaunchAction::Emit { status: String::from_str(status), message }
}

fn failure(pid: Option<u32>, hwnd: Option<i64>, message: String, rect: Option<NativeRect>) -> (v: Vec<LaunchAction>)
    ensures
        actions_view(v@) == failure_views(pid, hwnd, message@, rect),
{
    let m2 = message.clone();
    two(record(pid, hwnd, "failed", message, rect), emit("failed", m2))
}

fn starting(app: &WorkspaceApp) -> (v: Vec<LaunchAction>)
    ensures
        actions_view(v@) == starting_views(*app),
{
    let ms: u64 = if app.launch_delay_ms > 0 { app.launch_delay_ms as u64 } else { 0 };
    two(emit("launching", String::from_str("Starting…")), LaunchAction::Pause { ms })
}

/// The work area the app goes to (see `target_work`).
fn work_of(c: &LaunchContext) -> (r: NativeRect)
    ensures
        r == target_work(*c),
{
    match &c.target {
        Some(m) => monitor_work_rect(m),
        None => NativeRect { x: 0, y: 0, w: 0, h: 0 },
    }
}

fn finished(e: WorksetError) -> (s: LaunchStage)
    ensures
        s.view() == StageView::Finished(Some(err_view(e))),
{
    LaunchStage::Finished(Err(e))
}

impl LaunchContext {
    fn policy_is(&self, word: &str) -> (b: bool)
        ensures
            b == (policy_of(self.app) == word@),
    {
        let p = trim_str(self.app.launch_policy.as_str());
        is_word(p.as_slice(), word)
    }

    fn begin(&self) -> (r: (LaunchStage, Vec<LaunchAction>))
        ensures
            (r.0.view(), actions_view(r.1@)) == step_spec(*self, LaunchStage::Start, LaunchEvent::Begin),
    {
        if self.policy_is("skip") {
            let v = two(
                record(None, None, "done", String::from_str("skipped by policy"), None),
                emit("done", String::from_str("Skipped (policy)")),
            );
            return (LaunchStage::Finished(Ok(())), v);
        }
        if self.target.is_none() {
            let e = WorksetError::Windows(String::from_str("no monitors available"));
            let v = failure(None, None, e.message(), None);
            return (finished(e), v);
        }
        if self.policy_is("if_not_running") || self.policy_is("reuse") || self.policy_is("focus") {
            (LaunchStage::LookingForWindow, one(LaunchAction::ListWindows))
        } else {
            (LaunchStage::Delaying, starting(&self.app))
        }
    }

    fn on_windows(&self, ws: Vec<CapturedWindow>) -> (r: (LaunchStage, Vec<LaunchAction>))
        ensures
            (r.0.view(), actions_view(r.1@)) == step_spec(*self, LaunchStage::LookingForWindow, LaunchEvent::Windows(ws)),
    {
        match find_best(ws.as_slice(), &self.rules) {
            Some(hit) => {
                let msg = concat3("reusing window '", hit.title.as_str(), "' (hwnd ");
                let msg = msg.concat(format_i64(hit.hwnd).as_str()).concat(")");
                let first = if self.policy_is("focus") {
                    LaunchAction::Focus { hwnd: hit.hwnd }
                } else {
                    LaunchAction::Place { hwnd: hit.hwnd, work: work_of(self), report: false }
                };
                let m2 = msg.clone();
                let v = three(first, record(Some(hit.pid), Some(hit.hwnd), "done", msg, None), emit("done", m2));
                (LaunchStage::Finished(Ok(())), v)
            },
            None => {
                if self.policy_is("reuse") || self.policy_is("focus") {
                    let msg = String::from_str("no matching window found (policy only matches)");
                    let v = failure(None, None, msg.clone(), None);
                    (finished(WorksetError::NotFound(msg)), v)
                } else {
                    (LaunchStage::Delaying, starting(&self.app))
                }
            },
        }
    }

    fn on_resumed(&self, cancelled: bool) -> (r: (LaunchStage, Vec<LaunchAction>))
        ensures
            (r.0.view(), actions_view(r.1@)) == step_spec(*self, LaunchStage::Delaying, LaunchEvent::Resumed { cancelled }),
    {
        if cancelled {
            return (finished(WorksetError::Timeout(String::from_str("launch cancelled"))), none());
        }
        let no_exe = is_blank_str(self.app.exe_path.as_str());
        if no_exe && is_blank_str(self.app.url.as_str()) {
            let msg = String::from_str("nothing to launch: exe_path and url are both empty");
            let v = failure(None, None, msg.clone(), None);
            return (finished(WorksetError::Validation(msg)), v);
        }
        if no_exe {
            let app = &self.app;
            let r = plan_launch_with(app.exe_path.as_str(), app.args.as_slice(), app.cwd.as_str(), app.url.as_str(), false, false, false);
            match r {
                Ok(plan) => (LaunchStage::Spawning, one(LaunchAction::Spawn(plan))),
                Err(e) => {
                    let v = failure(None, None, e.message(), None);
                    (finished(e), v)
                },
            }
        } else {
            (LaunchStage::Probing, one(LaunchAction::Probe))
        }
    }

    fn on_probed(&self, exists: bool, is_dir: bool, cwd_is_dir: bool) -> (r: (LaunchStage, Vec<LaunchAction>))
        ensures
            (r.0.view(), actions_view(r.1@)) == step_spec(*self, LaunchStage::Probing, LaunchEvent::Probed { exists, is_dir, cwd_is_dir }),
    {
        let app = &self.app;
        match validate_exe_with(app.exe_path.as_str(), exists, is_dir) {
            Err(e) => {
                let msg = String::from_str("invalid executable: ").concat(e.message().as_str());
                assert(msg@ =~= "invalid executable: "@ + kind_prefix(error_kind(e)) + error_detail(e));
                let v = failure(None, None, msg, None);
                (finished(e), v)
            },
            Ok(()) => {
                let r = plan_launch_with(app.exe_path.as_str(), app.args.as_slice(), app.cwd.as_str(), app.url.as_str(), exists, is_dir, cwd_is_dir);
                match r {
                    Ok(plan) => (LaunchStage::Spawning, one(LaunchAction::Spawn(plan))),
                    Err(e) => {
                        let v = failure(None, None, e.message(), None);
                        (finished(e), v)
                    },
                }
            },
        }
    }

    fn on_spawned(&self, r: Result<u32, WorksetError>) -> (out: (LaunchStage, Vec<LaunchAction>))
        ensures
            (out.0.view(), actions_view(out.1@)) == step_spec(*self, LaunchStage::Spawning, LaunchEvent::Spawned(r)),
    {
        match r {
            Ok(pid) => {
                let msg = String::from_str("spawned pid ").concat(format_u64(pid as u64).as_str()).concat(", waiting for window…");
                let v = three(
                    record(Some(pid), None, "waiting", msg, None),
                    emit("waiting", String::from_str("Waiting for window…")),
                    LaunchAction::AwaitWindow { timeout_ms: self.timeout_ms },
                );
                (LaunchStage::AwaitingWindow { pid }, v)
            },
            Err(e) => {
                let v = failure(None, None, e.message(), None);
                (finished(e), v)
            },
        }
    }

    fn on_window(&self, pid: u32, r: Result<CapturedWindow, WorksetError>) -> (out: (LaunchStage, Vec<LaunchAction>))
        ensures
            (out.0.view(), actions_view(out.1@)) == step_spec(*self, LaunchStage::AwaitingWindow { pid }, LaunchEvent::WindowFound(r)),
    {
        match r {
            Ok(w) => {
                let v = two(
                    emit("positioning", String::from_str("Positioning…")),
                    LaunchAction::Place { hwnd: w.hwnd, work: work_of(self), report: true },
                );
                (LaunchStage::Positioning { pid, hwnd: w.hwnd }, v)
            },
            Err(e) => {
                let msg = concat3("launched pid ", format_u64(pid as u64).as_str(), " but ").concat(e.message().as_str());
                let v = failure(Some(pid), None, msg, None);
                (finished(e), v)
            },
        }
    }

    fn on_placed(&self, pid: u32, hwnd: i64, rect: NativeRect, result: Result<(), WorksetError>) -> (out: (LaunchStage, Vec<LaunchAction>))
        ensures
            (out.0.view(), actions_view(out.1@)) == step_spec(*self, LaunchStage::Positioning { pid, hwnd }, LaunchEvent::Placed { rect, result }),
    {
        match result {
            Ok(()) => {
                let name = match &self.target {
                    Some(m) => m.name.clone(),
                    None => String::new(),
                };
                let msg = concat3("launched on ", name.as_str(), " (hwnd ").concat(format_i64(hwnd).as_str()).concat(")");
                let m2 = msg.clone();
                let v = two(record(Some(pid), Some(hwnd), "done", msg, Some(rect)), emit("done", m2));
                (LaunchStage::Finished(Ok(())), v)
            },
            Err(e) => {
                let msg = concat3("window found (hwnd ", format_i64(hwnd).as_str(), ") but positioning failed: ").concat(e.message().as_str());
                let v = failure(Some(pid), Some(hwnd), msg, Some(rect));
                (finished(e), v)
            },
        }
    }
}

/// One step of the launch of one app: the next stage and the actions to
/// perform, in order. An event that the stage does not wait for changes
/// nothing.
pub fn step(c: &LaunchContext, stage: LaunchStage, ev: LaunchEvent) -> (r: (LaunchStage, Vec<LaunchAction>))
    ensures
        (r.0.view(), actions_view(r.1@)) == step_spec(*c, stage, ev),
{
    match stage {
        LaunchStage::Start => match ev {
            LaunchEvent::Begin => c.begin(),
            _ => (LaunchStage::Start, none()),
        },
        LaunchStage::LookingForWindow => match ev {
            LaunchEvent::Windows(ws) => c.on_windows(ws),
            _ => (LaunchStage::LookingForWindow, none()),
        },
        LaunchStage::Delaying => match ev {
            LaunchEvent::Resumed { cancelled } => c.on_resumed(cancelled),
            _ => (LaunchStage::Delaying, none()),
        },
        LaunchStage::Probing => match ev {
            LaunchEvent::Probed { exists, is_dir, cwd_is_dir } => c.on_probed(exists, is_dir, cwd_is_dir),
            _ => (LaunchStage::Probing, none()),
        },
        LaunchStage::Spawning => match ev {
            LaunchEvent::Spawned(r) => c.on_spawned(r),
            _ => (LaunchStage::Spawning, none()),
        },
        LaunchStage::AwaitingWindow { pid } => match ev {
            LaunchEvent::WindowFound(r) => c.on_window(pid, r),
            _ => (LaunchStage::AwaitingWindow { pid }, none()),
        },
        LaunchStage::Positioning { pid, hwnd } => match ev {
            LaunchEvent::Placed { rect, result } => c.on_placed(pid, hwnd, rect, result),
            _ => (LaunchStage::Positioning { pid, hwnd }, none()),
        },
        LaunchStage::Finished(r) => (LaunchStage::Finished(r), none()),
    }
}

/// Whether some window of `ws` has the handle `hwnd`.
pub open spec fn has_hwnd(ws: Seq<CapturedWindow>, hwnd: i64) -> bool {
    exists|k: int| 0 <= k < ws.len() && (#[trigger] ws[k]).hwnd == hwnd
}

/// The first `n` windows of `current` that are absent from `snapshot`.
pub open spec fn fresh_prefix(snapshot: Seq<CapturedWindow>, current: Seq<CapturedWindow>, n: int) -> Seq<CapturedWindow>
    decreases n,
{
    if n <= 0 {
        Seq::empty()
    } else if has_hwnd(snapshot, current[n - 1].hwnd) {
        fresh_prefix(snapshot, current, n - 1)
    } else {
        fresh_prefix(snapshot, current, n - 1).push(current[n - 1])
    }
}

/// The windows of `current` that are absent from `snapshot`, in order.
pub open spec fn fresh_windows(snapshot: Seq<CapturedWindow>, current: Seq<CapturedWindow>) -> Seq<CapturedWindow> {
    fresh_prefix(snapshot, current, current.len() as int)
}

/// The windows of `current` whose handles are not in `snapshot`.
pub fn new_windows(snapshot: &[CapturedWindow], current: &[CapturedWindow]) -> (r: Vec<CapturedWindow>)
    ensures
        r@ == fresh_windows(snapshot@, current@),
{
    let mut out: Vec<CapturedWindow> = Vec::new();
    let mut i: usize = 0;
    while i < current.len()
        invariant
            i <= current@.len(),
            out@ == fresh_prefix(snapshot@, current@, i as int),
        decreases current@.len() - i,
    {
        let h = current[i].hwnd;
        let mut known = false;
        let mut k: usize = 0;
        while k < snapshot.len()
            invariant
                k <= snapshot@.len(),
                known <==> exists|j: int| 0 <= j < k && (#[trigger] snapshot@[j]).hwnd == h,
            decreases snapshot@.len() - k,
        {
            if snapshot[k].hwnd == h {
                known = true;
            }
            k = k + 1;
        }
        if !known {
            out.push(current[i].copy());
        }
        i = i + 1;
    }
    out
}

/// What a poll of the windows gives while waiting for an app's window: the
/// best match among the new windows; when there is none, a timeout once the
/// deadline has passed, else `None` (poll again).
pub open spec fn poll_spec(
    snapshot: Seq<CapturedWindow>,
    current: Seq<CapturedWindow>,
    rules: MatchRules,
    deadline_passed: bool,
    timeout_ms: u64,
) -> Option<Result<CapturedWindow, (ErrorKind, Seq<char>)>> {
    match find_best_spec(fresh_windows(snapshot, current), rules, None) {
        Some(w) => Some(Ok(w)),
        None => if deadline_passed {
            Some(Err((ErrorKind::Timeout, "no matching window appeared within "@ + digits_of(timeout_ms as nat) + " ms"@)))
        } else {
            None
        },
    }
}

/// One poll while waiting for a new window that matches `rules` (see
/// `poll_spec`). Windows present in `snapshot` never count.
pub fn poll_new_window(
    snapshot: &[CapturedWindow],
    current: &[CapturedWindow],
    rules: &MatchRules,
    deadline_passed: bool,
    timeout_ms: u64,
) -> (r: Option<Result<CapturedWindow, WorksetError>>)
    ensures
        match poll_spec(snapshot@, current@, *rules, deadline_passed, timeout_ms) {
            Some(Ok(w)) => r == Some(Ok::<CapturedWindow, WorksetError>(w)),
            Some(Err(e)) => r matches Some(Err(x)) && err_view(x) == e,
            None => r is None,
        },
{
    let fresh = new_windows(snapshot, current);
    match find_best(fresh.as_slice(), rules) {
        Some(w) => Some(Ok(w)),
        None => {
            if deadline_passed {
                let msg = concat3("no matching window appeared within ", format_u64(timeout_ms).as_str(), " ms");
                Some(Err(WorksetError::Timeout(msg)))
            } else {
                None
            }
        },
    }
}

/// How long the wait for a window may last: the timeout, but at least
/// 250 ms.
pub fn wait_budget_ms(timeout_ms: u64) -> (ms: u64)
    ensures
        ms == if timeout_ms >= 250 { timeout_ms } else { 250 },
{
    if timeout_ms >= 250 { timeout_ms } else { 250 }
}

/// The policies under which no process is started: skip, reuse, focus.
pub open spec fn never_spawns(p: Seq<char>) -> bool {
    p == "skip"@ || p == "reuse"@ || p == "focus"@
}

/// The stages a launch under policy `p` is in before any process could be
/// started: the start, the look for a running window (not under skip, which
/// never looks), and the end.
pub open spec fn before_spawn(v: StageView, p: Seq<char>) -> bool {
    v is Start || v is Finished || (v is LookingForWindow && p != "skip"@)
}

/// None of the actions probes the disk, runs the start delay, starts a
/// process or waits for its window.
pub open spec fn no_process_actions(acts: Seq<ActionView>) -> bool {
    forall|k: int| 0 <= k < acts.len() ==> !(#[trigger] acts[k] is Spawn) && !(acts[k] is Probe)
        && !(acts[k] is Pause) && !(acts[k] is AwaitWindow)
}

/// Under the policies skip, reuse and focus no process is ever started:
/// from a stage before any spawn, every step stays before any spawn and
/// asks for no probe, delay, spawn or wait.
pub proof fn lemma_policy_never_spawns(c: LaunchContext, stage: LaunchStage, ev: LaunchEvent)
    requires
        never_spawns(policy_of(c.app)),
        before_spawn(stage.view(), policy_of(c.app)),
    ensures
        before_spawn(step_spec(c, stage, ev).0, policy_of(c.app)),
        no_process_actions(step_spec(c, stage, ev).1),
{
    reveal_strlit("skip");
    reveal_strlit("reuse");
    reveal_strlit("focus");
    reveal_strlit("if_not_running");
    let p = policy_of(c.app);
    let (next, acts) = step_spec(c, stage, ev);
    assert(p == "skip"@ ==> !looks_first(p)) by {
        if p == "skip"@ {
            assert(p.len() == 4);
        }
    }
    assert(p != "skip"@ ==> looks_first(p));
    match stage {
        LaunchStage::Start => {
            if ev is Begin {
                if p == "skip"@ {
                    assert(acts =~= seq![
                        record_view(None, None, "done"@, "skipped by policy"@, None),
                        emit_view("done"@, "Skipped (policy)"@),
                    ]);
                } else if c.target is None {
                    assert(acts =~= failure_views(None, None, view_text((ErrorKind::Windows, "no monitors available"@)), None));
                } else {
                    assert(acts =~= seq![ActionView::ListWindows]);
                }
            }
        },
        LaunchStage::LookingForWindow => {
            if let LaunchEvent::Windows(ws) = ev {
                match find_best_spec(ws@, c.rules, None) {
                    Some(hit) => {
                        let m = reuse_message(hit);
                        let first = if p == "focus"@ {
                            ActionView::Focus { hwnd: hit.hwnd }
                        } else {
                            ActionView::Place { hwnd: hit.hwnd, work: target_work(c), report: false }
                        };
                        assert(acts =~= seq![first, record_view(Some(hit.pid), Some(hit.hwnd), "done"@, m, None), emit_view("done"@, m)]);
                    },
                    None => {
                        assert(acts =~= failure_views(None, None, no_match_message(), None));
                    },
                }
            }
        },
        _ => {},
    }
}

/// A matching running window is reused: under the policies that look for
/// one first (if_not_running, reuse, focus), when the current windows hold
/// a match, the launch ends successfully on that window without starting
/// a process.
pub proof fn lemma_running_window_reused(c: LaunchContext, ws: Vec<CapturedWindow>)
    requires
        looks_first(policy_of(c.app)),
        find_best_spec(ws@, c.rules, None) is Some,
    ensures
        step_spec(c, LaunchStage::LookingForWindow, LaunchEvent::Windows(ws)).0 == StageView::Finished(None),
        no_process_actions(step_spec(c, LaunchStage::LookingForWindow, LaunchEvent::Windows(ws)).1),
{
}

/// The event that a stage waits for.
pub open spec fn waits_for(stage: StageView, ev: LaunchEvent) -> bool {
    match stage {
        StageView::Start => ev is Begin,
        StageView::LookingForWindow => ev is Windows,
        StageView::Delaying => ev is Resumed,
        StageView::Probing => ev is Probed,
        StageView::Spawning => ev is Spawned,
        StageView::AwaitingWindow(_) => ev is WindowFound,
        StageView::Positioning(_, _) => ev is Placed,
        StageView::Finished(_) => false,
    }
}

/// An action whose outcome is the next event.
pub open spec fn is_question(a: ActionView) -> bool {
    match a {
        ActionView::ListWindows => true,
        ActionView::Pause { .. } => true,
        ActionView::Probe => true,
        ActionView::Spawn(_) => true,
        ActionView::AwaitWindow { .. } => true,
        ActionView::Place { report, .. } => report,
        _ => false,
    }
}

/// `a` asks for the event that the stage `next` waits for.
pub open spec fn asks_for(a: ActionView, next: StageView) -> bool {
    match a {
        ActionView::ListWindows => next is LookingForWindow,
        ActionView::Pause { .. } => next is Delaying,
        ActionView::Probe => next is Probing,
        ActionView::Spawn(_) => next is Spawning,
        ActionView::AwaitWindow { .. } => next is AwaitingWindow,
        ActionView::Place { report, .. } => report && next is Positioning,
        _ => false,
    }
}

/// Exactly one of the actions is a question, and it asks for the event
/// that `next` waits for.
pub open spec fn asks_once(acts: Seq<ActionView>, next: StageView) -> bool {
    exists|k: int| 0 <= k < acts.len() && #[trigger] asks_for(acts[k], next)
        && forall|j: int| 0 <= j < acts.len() && j != k ==> !is_question(#[trigger] acts[j])
}

/// A launch that is not over always waits for an answer: a step on the
/// event its stage waits for either finishes the launch or asks exactly
/// one question, for the event the next stage waits for.
pub proof fn lemma_unfinished_step_asks_once(c: LaunchContext, stage: LaunchStage, ev: LaunchEvent)
    requires
        waits_for(stage.view(), ev),
    ensures
        step_spec(c, stage, ev).0 is Finished || asks_once(step_spec(c, stage, ev).1, step_spec(c, stage, ev).0),
{
    let (next, acts) = step_spec(c, stage, ev);
    let app = c.app;
    if !(next is Finished) {
        match stage {
            LaunchStage::Start => {
                if looks_first(policy_of(app)) && next is LookingForWindow {
                    assert(acts =~= seq![ActionView::ListWindows]);
                    assert(asks_for(acts[0], next));
                } else {
                    assert(acts =~= starting_views(app));
                    assert(asks_for(acts[1], next));
                }
            },
            LaunchStage::LookingForWindow => {
                assert(acts =~= starting_views(app));
                assert(asks_for(acts[1], next));
            },
            LaunchStage::Delaying | LaunchStage::Probing => {
                assert(acts.len() == 1);
                assert(asks_for(acts[0], next));
            },
            LaunchStage::Spawning => {
                assert(acts.len() == 3);
                assert(asks_for(acts[2], next));
            },
            LaunchStage::AwaitingWindow { pid } => {
                assert(acts.len() == 2);
                assert(asks_for(acts[1], next));
            },
            _ => {},
        }
    }
}

/// What each launch policy does first (the policy read with surrounding
/// whitespace trimmed): `skip` ends the launch at once as done; without a
/// monitor any other policy ends in failure; `if_not_running`, `reuse` and
/// `focus` first ask for the running windows and nothing else; every other
/// policy (`always_new` among them) announces the start and runs the
/// start delay of the app.
pub proof fn lemma_begin_by_policy(c: LaunchContext)
    ensures
        policy_of(c.app) == "skip"@ ==> step_spec(c, LaunchStage::Start, LaunchEvent::Begin).0 == StageView::Finished(None),
        policy_of(c.app) != "skip"@ && c.target is None ==> step_spec(c, LaunchStage::Start, LaunchEvent::Begin).0 is Finished,
        c.target is Some && (policy_of(c.app) == "if_not_running"@ || policy_of(c.app) == "reuse"@ || policy_of(c.app)
            == "focus"@) ==> step_spec(c, LaunchStage::Start, LaunchEvent::Begin) == (
            StageView::LookingForWindow,
            seq![ActionView::ListWindows],
        ),
        c.target is Some && policy_of(c.app) != "skip"@ && policy_of(c.app) != "if_not_running"@ && policy_of(c.app)
            != "reuse"@ && policy_of(c.app) != "focus"@ ==> step_spec(c, LaunchStage::Start, LaunchEvent::Begin) == (
            StageView::Delaying,
            seq![
                ActionView::Emit { status: "launching"@, message: "Starting…"@ },
                ActionView::Pause { ms: delay_of(c.app) },
            ],
        ),
{
    reveal_strlit("skip");
    reveal_strlit("reuse");
    reveal_strlit("focus");
    reveal_strlit("if_not_running");
    let p = policy_of(c.app);
    if p == "if_not_running"@ || p == "reuse"@ || p == "focus"@ {
        assert(p.len() != "skip"@.len());
        assert(looks_first(p));
    }
}

/// `if_not_running` reuses a matching running window: when the running
/// windows hold a match, the launch ends successfully on it and no process
/// is started, probed, delayed or waited for.
pub proof fn lemma_if_not_running_reuses(c: LaunchContext, ws: Vec<CapturedWindow>)
    requires
        policy_of(c.app) == "if_not_running"@,
        find_best_spec(ws@, c.rules, None) is Some,
    ensures
        step_spec(c, LaunchStage::LookingForWindow, LaunchEvent::Windows(ws)).0 == StageView::Finished(None),
        no_process_actions(step_spec(c, LaunchStage::LookingForWindow, LaunchEvent::Windows(ws)).1),
{
    lemma_running_window_reused(c, ws);
}

/// A finished launch stays finished and asks for nothing more.
pub proof fn lemma_finished_is_final(c: LaunchContext, r: Result<(), WorksetError>, ev: LaunchEvent)
    ensures
        step_spec(c, LaunchStage::Finished(r), ev) == (LaunchStage::Finished(r).view(), Seq::<ActionView>::empty()),
{
}

} // verus!
