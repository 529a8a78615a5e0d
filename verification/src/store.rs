//! What the workspace store does to records before it writes them: ids
//! for new records, timestamps, sort orders, copies and the reading of
//! stored argument lists.

use vstd::prelude::*;

use crate::args::{split_args, split_spec};
use crate::error::WorksetError;
use crate::ids::{is_hyphenated_id, is_utc_timestamp, new_id, now_iso};
use crate::models::{
    app_check_result, app_problem, concat3, copy_strings, validate_app, validate_workspace,
    SessionInfo, SessionWindowRow, Workspace, WorkspaceApp,
};
use crate::text::{copy_str, is_blank, is_blank_str, trim, trim_str, from_chars};

verus! {

/// The outcome of `r` without its value.
pub open spec fn as_unit<T>(r: Result<T, WorksetError>) -> Result<(), WorksetError> {
    match r {
        Ok(_) => Ok(()),
        Err(e) => Err(e),
    }
}

/// `validate_workspace`'s answer for `ws`.
pub open spec fn workspace_check_result(ws: Workspace, r: Result<(), WorksetError>) -> bool {
    &&& is_blank(ws.name@) ==> (r matches Err(WorksetError::Validation(m)) && m@
        == "workspace name must not be empty"@)
    &&& !is_blank(ws.name@) ==> (r is Ok <==> forall|i: int| 0 <= i < ws.apps@.len()
        ==> app_problem(#[trigger] ws.apps@[i]) is None)
    &&& !is_blank(ws.name@) && r is Err ==> exists|i: int| 0 <= i < ws.apps@.len()
        && app_check_result(#[trigger] ws.apps@[i], r) && forall|j: int| 0 <= j < i
        ==> app_problem(#[trigger] ws.apps@[j]) is None
}

/// `b` is `a` with only its id, workspace id and sort order possibly changed.
pub open spec fn same_app_content(a: WorkspaceApp, b: WorkspaceApp) -> bool {
    &&& b.name == a.name
    &&& b.exe_path == a.exe_path
    &&& b.args@ == a.args@
    &&& b.cwd == a.cwd
    &&& b.url == a.url
    &&& b.app_icon == a.app_icon
    &&& b.match_rules == a.match_rules
    &&& b.launch_delay_ms == a.launch_delay_ms
    &&& b.target_monitor == a.target_monitor
    &&& b.x == a.x && b.y == a.y && b.w == a.w && b.h == a.h
    &&& b.window_state == a.window_state
    &&& b.launch_policy == a.launch_policy
}

/// The apps of a stored workspace: in order, each keeping its id unless
/// blank (then taking the matching fresh id), pointing at `ws_id`, sorted
/// by position.
pub open spec fn apps_prepared(
    before: Seq<WorkspaceApp>,
    after: Seq<WorkspaceApp>,
    ws_id: Seq<char>,
    fresh: Seq<Seq<char>>,
    always_fresh: bool,
    renumber: bool,
) -> bool {
    &&& after.len() == before.len()
    &&& forall|i: int| #![trigger after[i]] 0 <= i < after.len() ==> {
        &&& same_app_content(before[i], after[i])
        &&& after[i].id@ == (if always_fresh || is_blank(before[i].id@) { fresh[i] } else { before[i].id@ })
        &&& after[i].workspace_id@ == ws_id
        &&& after[i].sort_order == (if renumber { i } else { before[i].sort_order as int })
    }
}

/// The apps of a stored workspace, where fresh ids come from the id
/// generator: in order, each keeping its id unless blank (then a fresh
/// hyphenated id), pointing at `ws_id`, sorted by position.
pub open spec fn apps_placed(
    before: Seq<WorkspaceApp>,
    after: Seq<WorkspaceApp>,
    ws_id: Seq<char>,
    always_fresh: bool,
    renumber: bool,
) -> bool {
    &&& after.len() == before.len()
    &&& forall|i: int| #![trigger after[i]] 0 <= i < after.len() ==> {
        &&& same_app_content(before[i], after[i])
        &&& (if always_fresh || is_blank(before[i].id@) {
            is_hyphenated_id(after[i].id@)
        } else {
            after[i].id@ == before[i].id@
        })
        &&& after[i].workspace_id@ == ws_id
        &&& after[i].sort_order == (if renumber { i } else { before[i].sort_order as int })
    }
}

/// Apps given fresh ids from the id generator are placed.
pub proof fn lemma_apps_placed(
    before: Seq<WorkspaceApp>,
    after: Seq<WorkspaceApp>,
    ws_id: Seq<char>,
    fresh: Seq<Seq<char>>,
    always_fresh: bool,
    renumber: bool,
)
    requires
        apps_prepared(before, after, ws_id, fresh, always_fresh, renumber),
        fresh.len() == before.len(),
        forall|k: int| 0 <= k < fresh.len() ==> is_hyphenated_id(#[trigger] fresh[k]),
    ensures
        apps_placed(before, after, ws_id, always_fresh, renumber),
{
    assert forall|i: int| #![trigger after[i]] 0 <= i < after.len() implies (if always_fresh || is_blank(before[i].id@) {
        is_hyphenated_id(after[i].id@)
    } else {
        after[i].id@ == before[i].id@
    }) by {
        if always_fresh || is_blank(before[i].id@) {
            assert(after[i].id@ == fresh[i]);
        }
    }
}

/// `b` keeps the descriptive fields of `a`.
pub open spec fn same_header(a: Workspace, b: Workspace) -> bool {
    &&& b.name == a.name
    &&& b.description == a.description
    &&& b.icon == a.icon
    &&& b.color == a.color
    &&& b.is_favorite == a.is_favorite
    &&& b.hotkey == a.hotkey
    &&& b.launch_settings == a.launch_settings
}

/// Gives every app its id, workspace id and position.
pub fn prepare_apps(
    apps: &Vec<WorkspaceApp>,
    ws_id: &str,
    fresh: &Vec<String>,
    always_fresh: bool,
    renumber: bool,
) -> (r: Vec<WorkspaceApp>)
    requires
        fresh@.len() == apps@.len(),
        renumber ==> apps@.len() <= i64::MAX,
    ensures
        apps_prepared(apps@, r@, ws_id@, fresh.deep_view(), always_fresh, renumber),
{
    let mut out: Vec<WorkspaceApp> = Vec::new();
    let mut i: usize = 0;
    while i < apps.len()
        invariant
            fresh@.len() == apps@.len(),
            renumber ==> apps@.len() <= i64::MAX,
            i <= apps@.len(),
            out@.len() == i,
            forall|k: int| #![trigger out@[k]] 0 <= k < i ==> {
                &&& same_app_content(apps@[k], out@[k])
                &&& out@[k].id@ == (if always_fresh || is_blank(apps@[k].id@) { fresh.deep_view()[k] } else { apps@[k].id@ })
                &&& out@[k].workspace_id@ == ws_id@
                &&& out@[k].sort_order == (if renumber { k } else { apps@[k].sort_order as int })
            },
        decreases apps@.len() - i,
    {
        let mut a = apps[i].copy();
        if always_fresh || is_blank_str(apps[i].id.as_str()) {
            a.id = fresh[i].clone();
        }
        a.workspace_id = copy_str(ws_id);
        if renumber {
            a.sort_order = i as i64;
        }
        out.push(a);
        i = i + 1;
    }
    out
}

/// Fresh ids, one per app.
pub fn fresh_ids(n: usize) -> (v: Vec<String>)
    ensures
        v@.len() == n,
        forall|k: int| 0 <= k < n ==> is_hyphenated_id(#[trigger] v.deep_view()[k]),
{
    let mut v: Vec<String> = Vec::new();
    let mut i: usize = 0;
    while i < n
        invariant
            i <= n,
            v@.len() == i,
            forall|k: int| 0 <= k < i ==> is_hyphenated_id(#[trigger] v.deep_view()[k]),
        decreases n - i,
    {
        let ghost prev = v.deep_view();
        let id = new_id();
        let ghost idv = id@;
        v.push(id);
        assert(v.deep_view() =~= prev.push(idv));
        i = i + 1;
    }
    v
}

/// A workspace as it is first stored: validated; a blank id replaced by
/// `new_ws_id`; `created_at` set to `now` when empty; `updated_at` set to
/// `now`; apps numbered in order and tied to the workspace, blank app ids
/// replaced by the matching fresh id.
pub fn prepare_new_workspace_with(
    ws: &Workspace,
    new_ws_id: &str,
    fresh: &Vec<String>,
    now: &str,
) -> (r: Result<Workspace, WorksetError>)
    requires
        fresh@.len() == ws.apps@.len(),
        ws.apps@.len() <= i64::MAX,
    ensures
        r is Err ==> workspace_check_result(*ws, as_unit(r)),
        r is Ok <==> workspace_check_result(*ws, Ok(())),
        r matches Ok(w) ==> {
            &&& same_header(*ws, w)
            &&& w.id@ == (if is_blank(ws.id@) { new_ws_id@ } else { ws.id@ })
            &&& w.created_at@ == (if ws.created_at@.len() == 0 { now@ } else { ws.created_at@ })
            &&& w.updated_at@ == now@
            &&& apps_prepared(ws.apps@, w.apps@, w.id@, fresh.deep_view(), false, true)
        },
{
    match validate_workspace(ws) {
        Err(e) => {
            return Err(e);
        },
        Ok(()) => {},
    }
    let id = if is_blank_str(ws.id.as_str()) { copy_str(new_ws_id) } else { ws.id.clone() };
    let created_at = if ws.created_at.as_str().unicode_len() == 0 { copy_str(now) } else { ws.created_at.clone() };
    let apps = prepare_apps(&ws.apps, id.as_str(), fresh, false, true);
    Ok(Workspace {
        id,
        name: ws.name.clone(),
        description: ws.description.clone(),
        icon: ws.icon.clone(),
        color: ws.color.clone(),
        is_favorite: ws.is_favorite,
        hotkey: ws.hotkey.clone(),
        launch_settings: ws.launch_settings.clone(),
        created_at,
        updated_at: copy_str(now),
        apps,
    })
}

/// What storing `ws` as a new workspace gives: its validation error, or
/// the workspace with its header, its id (a fresh hyphenated one when
/// blank), `updated_at` the current time, `created_at` kept unless empty,
/// and its apps placed in order under the workspace id.
pub open spec fn new_workspace_outcome(ws: Workspace, r: Result<Workspace, WorksetError>) -> bool {
    &&& r is Err ==> workspace_check_result(ws, as_unit(r))
    &&& r is Ok <==> workspace_check_result(ws, Ok(()))
    &&& r matches Ok(w) ==> {
        &&& same_header(ws, w)
        &&& (if is_blank(ws.id@) { is_hyphenated_id(w.id@) } else { w.id@ == ws.id@ })
        &&& is_utc_timestamp(w.updated_at@)
        &&& (if ws.created_at@.len() == 0 { w.created_at@ == w.updated_at@ } else { w.created_at@ == ws.created_at@ })
        &&& apps_placed(ws.apps@, w.apps@, w.id@, false, true)
    }
}

/// A workspace as it is first stored, with fresh ids and the current time
/// (see `prepare_new_workspace_with`).
pub fn prepare_new_workspace(ws: &Workspace) -> (r: Result<Workspace, WorksetError>)
    requires
        ws.apps@.len() <= i64::MAX,
    ensures
        new_workspace_outcome(*ws, r),
{
    let id = new_id();
    let fresh = fresh_ids(ws.apps.len());
    let now = now_iso();
    let r = prepare_new_workspace_with(ws, id.as_str(), &fresh, now.as_str());
    proof {
        if r is Ok {
            lemma_apps_placed(ws.apps@, r->Ok_0.apps@, r->Ok_0.id@, fresh.deep_view(), false, true);
        }
    }
    r
}

/// A workspace as it is stored over its previous version: validated; the
/// id must not be blank; `updated_at` set to `now`; apps renumbered as for
/// a new workspace. `created_at` is kept.
pub fn prepare_updated_workspace_with(
    ws: &Workspace,
    fresh: &Vec<String>,
    now: &str,
) -> (r: Result<Workspace, WorksetError>)
    requires
        fresh@.len() == ws.apps@.len(),
        ws.apps@.len() <= i64::MAX,
    ensures
        !workspace_check_result(*ws, Ok(())) ==> (r is Err && workspace_check_result(*ws, as_unit(r))),
        workspace_check_result(*ws, Ok(())) && is_blank(ws.id@) ==> (r matches Err(WorksetError::Validation(m))
            && m@ == "workspace id is empty"@),
        r is Ok <==> workspace_check_result(*ws, Ok(())) && !is_blank(ws.id@),
        r matches Ok(w) ==> {
            &&& same_header(*ws, w)
            &&& w.id == ws.id
            &&& w.created_at == ws.created_at
            &&& w.updated_at@ == now@
            &&& apps_prepared(ws.apps@, w.apps@, w.id@, fresh.deep_view(), false, true)
        },
{
    match validate_workspace(ws) {
        Err(e) => {
            return Err(e);
        },
        Ok(()) => {},
    }
    if is_blank_str(ws.id.as_str()) {
        return Err(WorksetError::Validation(String::from_str("workspace id is empty")));
    }
    let apps = prepare_apps(&ws.apps, ws.id.as_str(), fresh, false, true);
    Ok(Workspace {
        id: ws.id.clone(),
        name: ws.name.clone(),
        description: ws.description.clone(),
        icon: ws.icon.clone(),
        color: ws.color.clone(),
        is_favorite: ws.is_favorite,
        hotkey: ws.hotkey.clone(),
        launch_settings: ws.launch_settings.clone(),
        created_at: ws.created_at.clone(),
        updated_at: copy_str(now),
        apps,
    })
}

/// A workspace as it is stored over its previous version, with fresh ids
/// and the current time (see `prepare_updated_workspace_with`).
pub fn prepare_updated_workspace(ws: &Workspace) -> (r: Result<Workspace, WorksetError>)
    requires
        ws.apps@.len() <= i64::MAX,
    ensures
        !workspace_check_result(*ws, Ok(())) ==> (r is Err && workspace_check_result(*ws, as_unit(r))),
        workspace_check_result(*ws, Ok(())) && is_blank(ws.id@) ==> (r matches Err(WorksetError::Validation(m))
            && m@ == "workspace id is empty"@),
        r is Ok <==> workspace_check_result(*ws, Ok(())) && !is_blank(ws.id@),
        r matches Ok(w) ==> {
            &&& same_header(*ws, w)
            &&& w.id == ws.id
            &&& w.created_at == ws.created_at
            &&& is_utc_timestamp(w.updated_at@)
            &&& apps_placed(ws.apps@, w.apps@, w.id@, false, true)
        },
{
    let fresh = fresh_ids(ws.apps.len());
    let now = now_iso();
    let r = prepare_updated_workspace_with(ws, &fresh, now.as_str());
    proof {
        if r is Ok {
            lemma_apps_placed(ws.apps@, r->Ok_0.apps@, r->Ok_0.id@, fresh.deep_view(), false, true);
        }
    }
    r
}

/// The copy of a workspace: a new id, the name followed by ` (copy)`, not a
/// favorite, no hotkey, both timestamps `now`, every app with a fresh id.
pub fn duplicate_with(ws: &Workspace, new_ws_id: &str, fresh: &Vec<String>, now: &str) -> (w: Workspace)
    requires
        fresh@.len() == ws.apps@.len(),
        ws.apps@.len() <= i64::MAX,
    ensures
        w.id@ == new_ws_id@,
        w.name@ == ws.name@ + " (copy)"@,
        !w.is_favorite,
        w.hotkey@ == Seq::<char>::empty(),
        w.created_at@ == now@,
        w.updated_at@ == now@,
        w.description == ws.description,
        w.icon == ws.icon,
        w.color == ws.color,
        w.launch_settings == ws.launch_settings,
        apps_prepared(ws.apps@, w.apps@, new_ws_id@, fresh.deep_view(), true, true),
{
    Workspace {
        id: copy_str(new_ws_id),
        name: ws.name.clone().concat(" (copy)"),
        description: ws.description.clone(),
        icon: ws.icon.clone(),
        color: ws.color.clone(),
        is_favorite: false,
        hotkey: String::new(),
        launch_settings: ws.launch_settings.clone(),
        created_at: copy_str(now),
        updated_at: copy_str(now),
        apps: prepare_apps(&ws.apps, new_ws_id, fresh, true, true),
    }
}

/// The copy of a workspace with fresh ids and the current time (see
/// `duplicate_with`).
pub fn duplicate(ws: &Workspace) -> (w: Workspace)
    requires
        ws.apps@.len() <= i64::MAX,
    ensures
        is_hyphenated_id(w.id@),
        w.name@ == ws.name@ + " (copy)"@,
        !w.is_favorite,
        w.hotkey@ == Seq::<char>::empty(),
        w.created_at@ == w.updated_at@,
        is_utc_timestamp(w.updated_at@),
        w.description == ws.description,
        w.icon == ws.icon,
        w.color == ws.color,
        w.launch_settings == ws.launch_settings,
        apps_placed(ws.apps@, w.apps@, w.id@, true, true),
{
    let id = new_id();
    let fresh = fresh_ids(ws.apps.len());
    let now = now_iso();
    let w = duplicate_with(ws, id.as_str(), &fresh, now.as_str());
    proof {
        lemma_apps_placed(ws.apps@, w.apps@, w.id@, fresh.deep_view(), true, true);
    }
    w
}

/// The sort order of an app appended to a workspace whose largest sort
/// order is `max` (none: the workspace has no apps).
pub fn next_sort_order(max: Option<i64>) -> (n: i64)
    requires
        max != Some(i64::MAX),
    ensures
        n == match max {
            Some(m) => m + 1,
            None => 0,
        },
{
    match max {
        Some(m) => m + 1,
        None => 0,
    }
}

/// An app as it is first stored: validated; a blank id replaced by
/// `fresh_id`; a workspace id required; appended after the last app.
pub fn prepare_new_app_with(app: &WorkspaceApp, fresh_id: &str, max_sort: Option<i64>) -> (r: Result<WorkspaceApp, WorksetError>)
    requires
        max_sort != Some(i64::MAX),
    ensures
        app_problem(*app) is Some ==> app_check_result(*app, as_unit(r)),
        app_problem(*app) is None && is_blank(app.workspace_id@) ==> (r matches Err(WorksetError::Validation(m))
            && m@ == "app workspace_id is empty"@),
        r is Ok <==> app_problem(*app) is None && !is_blank(app.workspace_id@),
        r matches Ok(a) ==> {
            &&& same_app_content(*app, a)
            &&& a.id@ == (if is_blank(app.id@) { fresh_id@ } else { app.id@ })
            &&& a.workspace_id == app.workspace_id
            &&& a.sort_order == match max_sort {
                Some(m) => m + 1,
                None => 0,
            }
        },
{
    match validate_app(app) {
        Err(e) => {
            return Err(e);
        },
        Ok(()) => {},
    }
    if is_blank_str(app.workspace_id.as_str()) {
        return Err(WorksetError::Validation(String::from_str("app workspace_id is empty")));
    }
    let mut a = app.copy();
    if is_blank_str(app.id.as_str()) {
        a.id = copy_str(fresh_id);
    }
    a.sort_order = next_sort_order(max_sort);
    Ok(a)
}

/// What `serde_json::from_str::<Vec<String>>` gives for `s`: the list of
/// strings a JSON array of strings denotes, or `None` for any other text.
pub uninterp spec fn json_string_list(s: Seq<char>) -> Option<Seq<Seq<char>>>;

/// What `serde_json::from_str::<String>` gives for `s`: the string a JSON
/// string literal denotes, or `None` for any other text.
pub uninterp spec fn json_string(s: Seq<char>) -> Option<Seq<char>>;

/// `serde_json::from_str::<Vec<String>>`, errors turned into `None`. The
/// result is named (`json_string_list`): JSON string syntax with escapes
/// takes pages to state.
#[verifier::external_body]
fn parse_json_string_list(s: &str) -> (r: Option<Vec<String>>)
    ensures
        match json_string_list(s@) {
            Some(v) => r matches Some(x) && x.deep_view() == v,
            None => r is None,
        },
{
    serde_json::from_str::<Vec<String>>(s).ok()
}

/// `serde_json::from_str::<String>`, errors turned into `None`. The result
/// is named (`json_string`).
#[verifier::external_body]
fn parse_json_string(s: &str) -> (r: Option<String>)
    ensures
        match json_string(s@) {
            Some(v) => r matches Some(x) && x@ == v,
            None => r is None,
        },
{
    serde_json::from_str::<String>(s).ok()
}

/// The argument list stored in a cell: a JSON array of strings, a JSON
/// string holding a command line, or a bare command line; blank is empty.
pub open spec fn args_cell_spec(s: Seq<char>) -> Seq<Seq<char>> {
    let t = trim(s);
    if t.len() == 0 {
        Seq::empty()
    } else if json_string_list(t) is Some {
        json_string_list(t)->0
    } else if json_string(t) is Some {
        split_spec(json_string(t)->0)
    } else {
        split_spec(t)
    }
}

/// Read the argument list stored in a cell.
pub fn parse_args_cell(s: &str) -> (r: Vec<String>)
    ensures
        r.deep_view() == args_cell_spec(s@),
{
    let tv = trim_str(s);
    if tv.len() == 0 {
        let v: Vec<String> = Vec::new();
        assert(v.deep_view() =~= Seq::<Seq<char>>::empty());
        return v;
    }
    let t = from_chars(tv.as_slice());
    match parse_json_string_list(t.as_str()) {
        Some(v) => {
            return v;
        },
        None => {},
    }
    match parse_json_string(t.as_str()) {
        Some(one) => {
            return split_args(one.as_str());
        },
        None => {},
    }
    split_args(t.as_str())
}

/// The sort order written for each id of a reordered workspace: its
/// position in `ordered_ids`.
pub fn reorder_positions(ordered_ids: &[String]) -> (r: Vec<(i64, String)>)
    requires
        ordered_ids@.len() <= i64::MAX,
    ensures
        r@.len() == ordered_ids@.len(),
        forall|i: int| #![trigger r@[i]] 0 <= i < r@.len() ==> r@[i].0 == i && r@[i].1 == ordered_ids@[i],
{
    let mut r: Vec<(i64, String)> = Vec::new();
    let mut i: usize = 0;
    while i < ordered_ids.len()
        invariant
            ordered_ids@.len() <= i64::MAX,
            i <= ordered_ids@.len(),
            r@.len() == i,
            forall|k: int| #![trigger r@[k]] 0 <= k < i ==> r@[k].0 == k && r@[k].1 == ordered_ids@[k],
        decreases ordered_ids@.len() - i,
    {
        r.push((i as i64, ordered_ids[i].clone()));
        i = i + 1;
    }
    r
}

/// A new launch session of a workspace: running since `now`, unfinished,
/// with no tracked windows yet.
pub fn new_session_with(id: &str, workspace_id: &str, now: &str) -> (s: SessionInfo)
    ensures
        s.id@ == id@,
        s.workspace_id@ == workspace_id@,
        s.status@ == "running"@,
        s.started_at@ == now@,
        s.finished_at is None,
        s.windows@.len() == 0,
{
    SessionInfo {
        id: copy_str(id),
        workspace_id: copy_str(workspace_id),
        status: String::from_str("running"),
        started_at: copy_str(now),
        finished_at: None,
        windows: Vec::new(),
    }
}

/// A new launch session of a workspace with a fresh id, started now.
pub fn new_session(workspace_id: &str) -> (s: SessionInfo)
    ensures
        is_hyphenated_id(s.id@),
        s.workspace_id@ == workspace_id@,
        s.status@ == "running"@,
        is_utc_timestamp(s.started_at@),
        s.finished_at is None,
        s.windows@.len() == 0,
{
    let id = new_id();
    let now = now_iso();
    new_session_with(id.as_str(), workspace_id, now.as_str())
}

/// The session row that records the state of one app of a launch: keyed
/// `<session id>:<app id>`, the pid widened to 64 bits.
pub fn record_row(
    session_id: &str,
    app_id: &str,
    pid: Option<u32>,
    hwnd: Option<i64>,
    status: &str,
    message: &str,
    last_rect: &str,
    launched_at: &str,
) -> (r: SessionWindowRow)
    ensures
        r.id@ == session_id@ + ":"@ + app_id@,
        r.session_id@ == session_id@,
        r.app_id@ == app_id@,
        r.pid == match pid {
            Some(p) => Some(p as i64),
            None => None::<i64>,
        },
        r.hwnd == hwnd,
        r.status@ == status@,
        r.message@ == message@,
        r.last_rect@ == last_rect@,
        r.launched_at@ == launched_at@,
{
    SessionWindowRow {
        id: concat3(session_id, ":", app_id),
        session_id: copy_str(session_id),
        app_id: copy_str(app_id),
        pid: match pid {
            Some(p) => Some(p as i64),
            None => None,
        },
        hwnd,
        status: copy_str(status),
        message: copy_str(message),
        last_rect: copy_str(last_rect),
        launched_at: copy_str(launched_at),
    }
}

} // verus!
