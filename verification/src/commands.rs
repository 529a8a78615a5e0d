//! The logic behind the frontend commands: partial updates of workspaces
//! and apps, settings writes with their mirrored keys, the launch-log
//! lines, looking an app up across workspaces, and which sessions a
//! cancellation reaches.

use vstd::prelude::*;

use crate::args::{split_args, split_spec};
use crate::error::WorksetError;
use crate::models::{copy_opt, copy_strings, FloatBits, LaunchLog, MatchRules, SessionInfo, Workspace, WorkspaceApp};
use crate::settings::{bool_text, parse_bool, parse_bool_spec, is_word};
use crate::text::{str_eq, to_chars};

verus! {

/// A new argument list: a list of strings, or one command line to split.
#[derive(Debug, PartialEq)]
pub enum ArgsPatch {
    List(Vec<String>),
    Text(String),
}

/// The fields a partial update of an app sets; `None` leaves a field as it
/// is. The frontend names `monitor_id`, `delay_ms`, `state` and `policy`
/// stand for `target_monitor`, `launch_delay_ms`, `window_state` and
/// `launch_policy`.
#[derive(Debug, PartialEq)]
pub struct AppPatch {
    pub name: Option<String>,
    pub exe_path: Option<String>,
    pub cwd: Option<String>,
    pub url: Option<String>,
    pub app_icon: Option<String>,
    pub target_monitor: Option<String>,
    pub args: Option<ArgsPatch>,
    pub launch_delay_ms: Option<i64>,
    pub x: Option<FloatBits>,
    pub y: Option<FloatBits>,
    pub w: Option<FloatBits>,
    pub h: Option<FloatBits>,
    pub window_state: Option<String>,
    pub launch_policy: Option<String>,
    pub match_rules: Option<MatchRules>,
    pub sort_order: Option<i64>,
}

/// `o` if set, else `d`.
pub open spec fn or_keep<T>(o: Option<T>, d: T) -> T {
    match o {
        Some(v) => v,
        None => d,
    }
}

/// Replace `slot` with the value of `o`, when it has one.
fn set_field<T>(slot: &mut T, o: Option<T>)
    ensures
        *final(slot) == or_keep(o, *old(slot)),
{
    if let Some(v) = o {
        *slot = v;
    }
}

/// `after` is `before` with the patch applied.
pub open spec fn app_patched(before: WorkspaceApp, patch: AppPatch, after: WorkspaceApp) -> bool {
    &&& after.id == before.id
    &&& after.workspace_id == before.workspace_id
    &&& after.name == or_keep(patch.name, before.name)
    &&& after.exe_path == or_keep(patch.exe_path, before.exe_path)
    &&& after.cwd == or_keep(patch.cwd, before.cwd)
    &&& after.url == or_keep(patch.url, before.url)
    &&& after.app_icon == or_keep(patch.app_icon, before.app_icon)
    &&& after.target_monitor == or_keep(patch.target_monitor, before.target_monitor)
    &&& match patch.args {
        Some(ArgsPatch::List(v)) => after.args@ == v@,
        Some(ArgsPatch::Text(s)) => after.args.deep_view() == split_spec(s@),
        None => after.args@ == before.args@,
    }
    &&& after.launch_delay_ms == or_keep(patch.launch_delay_ms, before.launch_delay_ms)
    &&& after.x == or_keep(patch.x, before.x)
    &&& after.y == or_keep(patch.y, before.y)
    &&& after.w == or_keep(patch.w, before.w)
    &&& after.h == or_keep(patch.h, before.h)
    &&& after.window_state == or_keep(patch.window_state, before.window_state)
    &&& after.launch_policy == or_keep(patch.launch_policy, before.launch_policy)
    &&& after.match_rules == or_keep(patch.match_rules, before.match_rules)
    &&& after.sort_order == or_keep(patch.sort_order, before.sort_order)
}

/// Apply a partial update to an app: every field the patch sets is
/// replaced, a textual argument list is split like a command line.
pub fn apply_app_patch(app: &mut WorkspaceApp, patch: AppPatch)
    ensures
        app_patched(*old(app), patch, *final(app)),
{
    let AppPatch {
        name, exe_path, cwd, url, app_icon, target_monitor, args, launch_delay_ms, x, y, w, h,
        window_state, launch_policy, match_rules, sort_order,
    } = patch;
    set_field(&mut app.name, name);
    set_field(&mut app.exe_path, exe_path);
    set_field(&mut app.cwd, cwd);
    set_field(&mut app.url, url);
    set_field(&mut app.app_icon, app_icon);
    set_field(&mut app.target_monitor, target_monitor);
    match args {
        Some(ArgsPatch::List(v)) => {
            app.args = v;
        },
        Some(ArgsPatch::Text(s)) => {
            app.args = split_args(s.as_str());
        },
        None => {},
    }
    set_field(&mut app.launch_delay_ms, launch_delay_ms);
    set_field(&mut app.x, x);
    set_field(&mut app.y, y);
    set_field(&mut app.w, w);
    set_field(&mut app.h, h);
    set_field(&mut app.window_state, window_state);
    set_field(&mut app.launch_policy, launch_policy);
    set_field(&mut app.match_rules, match_rules);
    set_field(&mut app.sort_order, sort_order);
}

/// The fields a partial update of a workspace sets; `None` leaves a field
/// as it is. `favorite` stands for `is_favorite`; `launch_settings` is JSON
/// text.
#[derive(Debug, PartialEq)]
pub struct WorkspacePatch {
    pub name: Option<String>,
    pub description: Option<String>,
    pub icon: Option<String>,
    pub color: Option<String>,
    pub hotkey: Option<String>,
    pub is_favorite: Option<bool>,
    pub launch_settings: Option<String>,
    pub apps: Option<Vec<WorkspaceApp>>,
}

/// `after` is `before` with the patch applied.
pub open spec fn workspace_patched(before: Workspace, patch: WorkspacePatch, after: Workspace) -> bool {
    &&& after.id == before.id
    &&& after.name == or_keep(patch.name, before.name)
    &&& after.description == or_keep(patch.description, before.description)
    &&& after.icon == or_keep(patch.icon, before.icon)
    &&& after.color == or_keep(patch.color, before.color)
    &&& after.hotkey == or_keep(patch.hotkey, before.hotkey)
    &&& after.is_favorite == or_keep(patch.is_favorite, before.is_favorite)
    &&& after.launch_settings == or_keep(patch.launch_settings, before.launch_settings)
    &&& after.created_at == before.created_at
    &&& after.updated_at == before.updated_at
    &&& after.apps == or_keep(patch.apps, before.apps)
}

/// Apply a partial update to a workspace: every field the patch sets is
/// replaced, the app list as a whole.
pub fn apply_ws_patch(ws: &mut Workspace, patch: WorkspacePatch)
    ensures
        workspace_patched(*old(ws), patch, *final(ws)),
{
    let WorkspacePatch { name, description, icon, color, hotkey, is_favorite, launch_settings, apps } = patch;
    set_field(&mut ws.name, name);
    set_field(&mut ws.description, description);
    set_field(&mut ws.icon, icon);
    set_field(&mut ws.color, color);
    set_field(&mut ws.hotkey, hotkey);
    set_field(&mut ws.is_favorite, is_favorite);
    set_field(&mut ws.launch_settings, launch_settings);
    set_field(&mut ws.apps, apps);
}

/// A setting value as the frontend sends it: a boolean, a number (with its
/// integer value when it has one, and its JSON text), a string, or any
/// other JSON value (by its JSON text).
#[derive(Debug, PartialEq)]
pub enum SettingValue {
    Bool(bool),
    Number { integer: Option<i64>, json: String },
    Text(String),
    Other(String),
}

/// The flag a setting value stands for: booleans as they are, integers by
/// being non-zero, strings as stored flags are read.
pub open spec fn value_flag(v: SettingValue) -> Option<bool> {
    match v {
        SettingValue::Bool(b) => Some(b),
        SettingValue::Number { integer, json } => match integer {
            Some(i) => Some(i != 0),
            None => None,
        },
        SettingValue::Text(s) => parse_bool_spec(s@),
        SettingValue::Other(_) => None,
    }
}

/// The flag a setting value stands for (see `value_flag`).
pub fn value_to_bool(v: &SettingValue) -> (r: Option<bool>)
    ensures
        r == value_flag(*v),
{
    match v {
        SettingValue::Bool(b) => Some(*b),
        SettingValue::Number { integer, json } => match integer {
            Some(i) => Some(*i != 0),
            None => None,
        },
        SettingValue::Text(s) => parse_bool(s.as_str()),
        SettingValue::Other(_) => None,
    }
}

/// The text under which a setting value is stored: a string as it is,
/// anything else as its JSON text.
pub open spec fn stored_spec(v: SettingValue) -> Seq<char> {
    match v {
        SettingValue::Bool(b) => bool_text(b),
        SettingValue::Number { integer, json } => json@,
        SettingValue::Text(s) => s@,
        SettingValue::Other(j) => j@,
    }
}

/// The text under which a setting value is stored.
pub fn stored_text(v: &SettingValue) -> (s: String)
    ensures
        s@ == stored_spec(*v),
{
    match v {
        SettingValue::Bool(b) => if *b { String::from_str("true") } else { String::from_str("false") },
        SettingValue::Number { integer, json } => json.clone(),
        SettingValue::Text(s) => s.clone(),
        SettingValue::Other(j) => j.clone(),
    }
}

/// What writing a setting amounts to: the key/value pairs to store, in
/// order; whether the start with the system is switched (and to what);
/// whether the typed settings are to be stored again from what is stored.
#[derive(Debug, PartialEq)]
pub struct SettingChange {
    pub writes: Vec<(String, String)>,
    pub autostart: Option<bool>,
    pub refresh_typed: bool,
}

/// The keys whose writes refresh the typed settings.
pub open spec fn typed_keys() -> Seq<Seq<char>> {
    seq![
        "theme"@, "default_timeout_ms"@, "default_match_policy"@, "confirm_before_launch"@,
        "notifications_enabled"@, "match_policy"@, "confirm_launch"@, "notifications"@,
    ]
}

/// The typed key that a frontend key is mirrored onto, with its value.
pub open spec fn mirror_spec(key: Seq<char>, v: SettingValue) -> Seq<(Seq<char>, Seq<char>)> {
    if key == "match_policy"@ {
        seq![("default_match_policy"@, stored_spec(v))]
    } else if key == "confirm_launch"@ {
        seq![("confirm_before_launch"@, bool_text(or_keep(value_flag(v), false)))]
    } else if key == "notifications"@ {
        seq![("notifications_enabled"@, bool_text(or_keep(value_flag(v), true)))]
    } else {
        seq![]
    }
}

/// The views of key/value pairs.
pub open spec fn pairs_view(v: Seq<(String, String)>) -> Seq<(Seq<char>, Seq<char>)> {
    v.map_values(|p: (String, String)| (p.0@, p.1@))
}

/// Writing `value` under `key`: the value is stored under its key; the
/// frontend keys `match_policy`, `confirm_launch` and `notifications` are
/// mirrored onto their typed keys (an unreadable flag counts as off for
/// launch confirmation and as on for notifications); `autostart` switches
/// the start with the system (an unreadable flag counts as off); a write
/// to a typed key or one of its frontend names refreshes the typed
/// settings.
pub fn plan_setting(key: &str, value: &SettingValue) -> (c: SettingChange)
    ensures
        pairs_view(c.writes@) == seq![(key@, stored_spec(*value))] + mirror_spec(key@, *value),
        c.autostart == if key@ == "autostart"@ { Some(or_keep(value_flag(*value), false)) } else { None },
        c.refresh_typed == typed_keys().contains(key@),
{
    let stored = stored_text(value);
    let flag = value_to_bool(value);
    let k = to_chars(key);
    let mut writes: Vec<(String, String)> = Vec::new();
    writes.push((String::from_str(key), stored.clone()));
    let ghost first = pairs_view(writes@);
    if is_word(k.as_slice(), "match_policy") {
        writes.push((String::from_str("default_match_policy"), stored));
    } else if is_word(k.as_slice(), "confirm_launch") {
        let b = match flag { Some(b) => b, None => false };
        writes.push((String::from_str("confirm_before_launch"), if b { String::from_str("true") } else { String::from_str("false") }));
    } else if is_word(k.as_slice(), "notifications") {
        let b = match flag { Some(b) => b, None => true };
        writes.push((String::from_str("notifications_enabled"), if b { String::from_str("true") } else { String::from_str("false") }));
    }
    assert(pairs_view(writes@) =~= seq![(key@, stored_spec(*value))] + mirror_spec(key@, *value));
    let autostart = if is_word(k.as_slice(), "autostart") {
        Some(match flag { Some(b) => b, None => false })
    } else {
        None
    };
    let list: Vec<&str> = vec![
        "theme", "default_timeout_ms", "default_match_policy", "confirm_before_launch",
        "notifications_enabled", "match_policy", "confirm_launch", "notifications",
    ];
    assert(list@.map_values(|s: &str| s@) =~= typed_keys());
    let mut refresh = false;
    let mut i: usize = 0;
    while i < list.len()
        invariant
            list@.map_values(|s: &str| s@) == typed_keys(),
            i <= list@.len(),
            refresh <==> exists|j: int| 0 <= j < i && typed_keys()[j] == key@,
        decreases list@.len() - i,
    {
        assert(list@[i as int]@ == typed_keys()[i as int]);
        if str_eq(list[i], key) {
            refresh = true;
        }
        i = i + 1;
    }
    SettingChange { writes, autostart, refresh_typed: refresh }
}

/// How a log entry is shown: `[time] [level] (app) message`, without the
/// app part for session-level entries.
pub open spec fn log_line_spec(l: LaunchLog) -> Seq<char> {
    let scope = if l.app_id@.len() == 0 { Seq::empty() } else { "("@ + l.app_id@ + ") "@ };
    "["@ + l.created_at@ + "] ["@ + l.level@ + "] "@ + scope + l.message@
}

/// How a log entry is shown (see `log_line_spec`).
pub fn log_line(l: &LaunchLog) -> (s: String)
    ensures
        s@ == log_line_spec(*l),
{
    let scope = if l.app_id.unicode_len() == 0 {
        String::new()
    } else {
        String::from_str("(").concat(l.app_id.as_str()).concat(") ")
    };
    let s = String::from_str("[").concat(l.created_at.as_str()).concat("] [").concat(l.level.as_str())
        .concat("] ").concat(scope.as_str()).concat(l.message.as_str());
    assert(s@ =~= log_line_spec(*l));
    s
}

/// The session is still running and belongs to the workspace.
pub open spec fn cancellable(s: SessionInfo, workspace_id: Seq<char>) -> bool {
    s.status@ == "running"@ && s.workspace_id@ == workspace_id
}

/// The ids of the first `n` sessions that are cancellable, in order.
pub open spec fn cancel_prefix(ss: Seq<SessionInfo>, workspace_id: Seq<char>, n: int) -> Seq<Seq<char>>
    decreases n,
{
    if n <= 0 {
        Seq::empty()
    } else if cancellable(ss[n - 1], workspace_id) {
        cancel_prefix(ss, workspace_id, n - 1).push(ss[n - 1].id@)
    } else {
        cancel_prefix(ss, workspace_id, n - 1)
    }
}

/// The sessions a cancellation of a workspace's launch reaches: the ids of
/// its running sessions, in order.
pub fn cancel_targets(sessions: &[SessionInfo], workspace_id: &str) -> (ids: Vec<String>)
    ensures
        ids.deep_view() == cancel_prefix(sessions@, workspace_id@, sessions@.len() as int),
{
    let mut ids: Vec<String> = Vec::new();
    let mut i: usize = 0;
    while i < sessions.len()
        invariant
            i <= sessions@.len(),
            ids.deep_view() == cancel_prefix(sessions@, workspace_id@, i as int),
        decreases sessions@.len() - i,
    {
        let s = &sessions[i];
        let running = to_chars(s.status.as_str());
        if is_word(running.as_slice(), "running") && str_eq(s.workspace_id.as_str(), workspace_id) {
            let ghost before = ids.deep_view();
            ids.push(s.id.clone());
            assert(ids.deep_view() =~= before.push(s.id@));
        }
        i = i + 1;
    }
    ids
}

/// `a` is a copy of `b`.
pub open spec fn same_app(a: WorkspaceApp, b: WorkspaceApp) -> bool {
    a == (WorkspaceApp { args: a.args, ..b }) && a.args@ == b.args@
}

/// Workspace `i`, app `j` has the id.
pub open spec fn app_at(wss: Seq<Workspace>, i: int, j: int, id: Seq<char>) -> bool {
    0 <= i < wss.len() && 0 <= j < wss[i].apps@.len() && wss[i].apps@[j].id@ == id
}

/// Find an app by id across workspaces: the first in workspace order, then
/// app order.
pub fn find_app(workspaces: &[Workspace], app_id: &str) -> (r: Result<WorkspaceApp, WorksetError>)
    ensures
        match r {
            Ok(a) => exists|i: int, j: int| #![trigger app_at(workspaces@, i, j, app_id@)]
                app_at(workspaces@, i, j, app_id@)
                && same_app(a, workspaces@[i].apps@[j])
                && forall|i2: int, j2: int| app_at(workspaces@, i2, j2, app_id@) ==> i < i2 || (i == i2 && j <= j2),
            Err(e) => (forall|i: int, j: int| !app_at(workspaces@, i, j, app_id@))
                && (e matches WorksetError::NotFound(m) && m@ == "app "@ + app_id@),
        },
{
    let mut i: usize = 0;
    while i < workspaces.len()
        invariant
            i <= workspaces@.len(),
            forall|i2: int, j2: int| i2 < i ==> !app_at(workspaces@, i2, j2, app_id@),
        decreases workspaces@.len() - i,
    {
        let apps = &workspaces[i].apps;
        let mut j: usize = 0;
        while j < apps.len()
            invariant
                i < workspaces@.len(),
                *apps == workspaces@[i as int].apps,
                j <= apps@.len(),
                forall|i2: int, j2: int| i2 < i ==> !app_at(workspaces@, i2, j2, app_id@),
                forall|j2: int| j2 < j ==> !app_at(workspaces@, i as int, j2, app_id@),
            decreases apps@.len() - j,
        {
            if str_eq(apps[j].id.as_str(), app_id) {
                let a = apps[j].copy();
                assert(app_at(workspaces@, i as int, j as int, app_id@));
                return Ok(a);
            }
            j = j + 1;
        }
        i = i + 1;
    }
    Err(WorksetError::NotFound(String::from_str("app ").concat(app_id)))
}

/// One member of a JSON patch object: its key and what its value reads as.
#[derive(Debug, PartialEq)]
pub struct PatchField {
    pub key: String,
    /// The value is a string.
    pub text: Option<String>,
    /// The value is an integer that fits in `i64`.
    pub integer: Option<i64>,
    /// The value is a number (as a 64-bit float).
    pub number: Option<FloatBits>,
    /// The value is a boolean.
    pub flag: Option<bool>,
    /// The value is a list of strings.
    pub texts: Option<Vec<String>>,
    /// The value reads as match rules.
    pub rules: Option<MatchRules>,
    /// The value is a list that reads as app entries.
    pub apps: Option<Vec<WorkspaceApp>>,
    /// The value's JSON text.
    pub json: String,
}

/// Index of the first member with the key, or -1.
pub open spec fn field_index(fs: Seq<PatchField>, key: Seq<char>) -> int
    decreases fs.len(),
{
    if fs.len() == 0 {
        -1
    } else if fs[0].key@ == key {
        0
    } else if field_index(fs.drop_first(), key) < 0 {
        -1
    } else {
        field_index(fs.drop_first(), key) + 1
    }
}

proof fn lemma_field_index(fs: Seq<PatchField>, key: Seq<char>)
    ensures
        -1 <= field_index(fs, key) < fs.len(),
        field_index(fs, key) >= 0 ==> fs[field_index(fs, key)].key@ == key,
        forall|j: int| 0 <= j < fs.len() && (field_index(fs, key) < 0 || j < field_index(fs, key))
            ==> (#[trigger] fs[j]).key@ != key,
    decreases fs.len(),
{
    if fs.len() > 0 && fs[0].key@ != key {
        lemma_field_index(fs.drop_first(), key);
        assert forall|j: int| 0 <= j < fs.len() && (field_index(fs, key) < 0 || j < field_index(fs, key))
            implies (#[trigger] fs[j]).key@ != key by {
            if j > 0 {
                assert(fs[j] == fs.drop_first()[j - 1]);
            }
        }
    }
}

/// The member with the key, if the object has one.
pub open spec fn field_of(fs: Seq<PatchField>, key: Seq<char>) -> Option<PatchField> {
    if field_index(fs, key) >= 0 { Some(fs[field_index(fs, key)]) } else { None }
}

pub open spec fn text_of(fs: Seq<PatchField>, key: Seq<char>) -> Option<String> {
    match field_of(fs, key) { Some(f) => f.text, None => None }
}

pub open spec fn integer_of(fs: Seq<PatchField>, key: Seq<char>) -> Option<i64> {
    match field_of(fs, key) { Some(f) => f.integer, None => None }
}

pub open spec fn number_of(fs: Seq<PatchField>, key: Seq<char>) -> Option<FloatBits> {
    match field_of(fs, key) { Some(f) => f.number, None => None }
}

pub open spec fn flag_of(fs: Seq<PatchField>, key: Seq<char>) -> Option<bool> {
    match field_of(fs, key) { Some(f) => f.flag, None => None }
}

/// The member `key` if present, else `alias`: the preferred spelling wins
/// even when its value is of the wrong kind.
pub open spec fn preferred(fs: Seq<PatchField>, key: Seq<char>, alias: Seq<char>) -> Seq<char> {
    if field_index(fs, key) >= 0 { key } else { alias }
}

/// `b` is a copy of the app list `a`.
pub open spec fn same_apps(a: Seq<WorkspaceApp>, b: Seq<WorkspaceApp>) -> bool {
    a.len() == b.len() && forall|i: int| #![trigger b[i]] 0 <= i < b.len()
        ==> b[i] == (WorkspaceApp { args: b[i].args, ..a[i] }) && b[i].args@ == a[i].args@
}

/// `p` is the app update a patch object with members `fs` asks for: the
/// frontend names `monitor_id` (over `target_monitor`), `delay_ms`, `state`
/// and `policy` (each over its stored name) are accepted; `args` is a list
/// of strings or one command line; a member of the wrong kind sets nothing.
pub open spec fn app_patch_of(fs: Seq<PatchField>, p: AppPatch) -> bool {
    &&& p.name == text_of(fs, "name"@)
    &&& p.exe_path == text_of(fs, "exe_path"@)
    &&& p.cwd == text_of(fs, "cwd"@)
    &&& p.url == text_of(fs, "url"@)
    &&& p.app_icon == text_of(fs, "app_icon"@)
    &&& p.target_monitor == (if text_of(fs, "monitor_id"@) is Some {
        text_of(fs, "monitor_id"@)
    } else {
        text_of(fs, "target_monitor"@)
    })
    &&& match field_of(fs, "args"@) {
        Some(f) => match f.texts {
            Some(v) => p.args matches Some(ArgsPatch::List(w)) && w@ == v@,
            None => match f.text {
                Some(t) => p.args == Some(ArgsPatch::Text(t)),
                None => p.args is None,
            },
        },
        None => p.args is None,
    }
    &&& p.launch_delay_ms == integer_of(fs, preferred(fs, "delay_ms"@, "launch_delay_ms"@))
    &&& p.x == number_of(fs, "x"@)
    &&& p.y == number_of(fs, "y"@)
    &&& p.w == number_of(fs, "w"@)
    &&& p.h == number_of(fs, "h"@)
    &&& p.window_state == text_of(fs, preferred(fs, "state"@, "window_state"@))
    &&& p.launch_policy == text_of(fs, preferred(fs, "policy"@, "launch_policy"@))
    &&& p.match_rules == match field_of(fs, "match_rules"@) { Some(f) => f.rules, None => None }
    &&& p.sort_order == integer_of(fs, "sort_order"@)
}

/// `p` is the workspace update a patch object with members `fs` asks for:
/// `favorite` (over `is_favorite`) sets the favourite flag;
/// `launch_settings` is kept as JSON text; `apps` replaces the app list
/// when it reads as app entries.
pub open spec fn workspace_patch_of(fs: Seq<PatchField>, p: WorkspacePatch) -> bool {
    &&& p.name == text_of(fs, "name"@)
    &&& p.description == text_of(fs, "description"@)
    &&& p.icon == text_of(fs, "icon"@)
    &&& p.color == text_of(fs, "color"@)
    &&& p.hotkey == text_of(fs, "hotkey"@)
    &&& p.is_favorite == flag_of(fs, preferred(fs, "favorite"@, "is_favorite"@))
    &&& match field_of(fs, "launch_settings"@) {
        Some(f) => p.launch_settings matches Some(t) && t@ == f.json@,
        None => p.launch_settings is None,
    }
    &&& match field_of(fs, "apps"@) {
        Some(f) => match f.apps {
            Some(v) => p.apps matches Some(w) && same_apps(v@, w@),
            None => p.apps is None,
        },
        None => p.apps is None,
    }
}

fn find_field(fs: &[PatchField], key: &str) -> (r: Option<usize>)
    ensures
        -1 <= field_index(fs@, key@) < fs@.len(),
        field_index(fs@, key@) < 0 ==> r is None,
        field_index(fs@, key@) >= 0 ==> r == Some(field_index(fs@, key@) as usize),
{
    proof {
        lemma_field_index(fs@, key@);
    }
    let mut i: usize = 0;
    while i < fs.len()
        invariant
            i <= fs@.len(),
            forall|j: int| 0 <= j < i ==> (#[trigger] fs@[j]).key@ != key@,
            -1 <= field_index(fs@, key@) < fs@.len(),
            field_index(fs@, key@) >= 0 ==> fs@[field_index(fs@, key@)].key@ == key@,
            forall|j: int| 0 <= j < fs@.len() && (field_index(fs@, key@) < 0 || j < field_index(fs@, key@))
                ==> (#[trigger] fs@[j]).key@ != key@,
        decreases fs@.len() - i,
    {
        if str_eq(fs[i].key.as_str(), key) {
            assert(fs@[i as int].key@ == key@);
            assert(field_index(fs@, key@) == i as int);
            return Some(i);
        }
        i = i + 1;
    }
    None
}

fn text_field(fs: &[PatchField], key: &str) -> (r: Option<String>)
    ensures
        r == text_of(fs@, key@),
{
    match find_field(fs, key) {
        Some(i) => copy_opt(&fs[i].text),
        None => None,
    }
}

fn integer_field(fs: &[PatchField], key: &str) -> (r: Option<i64>)
    ensures
        r == integer_of(fs@, key@),
{
    match find_field(fs, key) {
        Some(i) => fs[i].integer,
        None => None,
    }
}

fn number_field(fs: &[PatchField], key: &str) -> (r: Option<FloatBits>)
    ensures
        r == number_of(fs@, key@),
{
    match find_field(fs, key) {
        Some(i) => fs[i].number,
        None => None,
    }
}

fn flag_field(fs: &[PatchField], key: &str) -> (r: Option<bool>)
    ensures
        r == flag_of(fs@, key@),
{
    match find_field(fs, key) {
        Some(i) => fs[i].flag,
        None => None,
    }
}

fn preferred_key<'a>(fs: &[PatchField], key: &'a str, alias: &'a str) -> (k: &'a str)
    ensures
        k@ == preferred(fs@, key@, alias@),
{
    if find_field(fs, key).is_some() { key } else { alias }
}

fn copy_apps(v: &Vec<WorkspaceApp>) -> (r: Vec<WorkspaceApp>)
    ensures
        same_apps(v@, r@),
{
    let mut r: Vec<WorkspaceApp> = Vec::new();
    let mut i: usize = 0;
    while i < v.len()
        invariant
            i <= v@.len(),
            r@.len() == i,
            forall|k: int| #![trigger r@[k]] 0 <= k < i
                ==> r@[k] == (WorkspaceApp { args: r@[k].args, ..v@[k] }) && r@[k].args@ == v@[k].args@,
        decreases v@.len() - i,
    {
        r.push(v[i].copy());
        i = i + 1;
    }
    r
}

/// The app update a JSON patch object asks for (see `app_patch_of`).
pub fn app_patch_from(fields: &[PatchField]) -> (p: AppPatch)
    ensures
        app_patch_of(fields@, p),
{
    let args = match find_field(fields, "args") {
        Some(i) => match &fields[i].texts {
            Some(v) => Some(ArgsPatch::List(copy_strings(v))),
            None => match &fields[i].text {
                Some(t) => Some(ArgsPatch::Text(t.clone())),
                None => None,
            },
        },
        None => None,
    };
    let monitor = text_field(fields, "monitor_id");
    let target_monitor = if monitor.is_some() { monitor } else { text_field(fields, "target_monitor") };
    let match_rules = match find_field(fields, "match_rules") {
        Some(i) => match &fields[i].rules {
            Some(m) => Some(m.copy()),
            None => None,
        },
        None => None,
    };
    AppPatch {
        name: text_field(fields, "name"),
        exe_path: text_field(fields, "exe_path"),
        cwd: text_field(fields, "cwd"),
        url: text_field(fields, "url"),
        app_icon: text_field(fields, "app_icon"),
        target_monitor,
        args,
        launch_delay_ms: integer_field(fields, preferred_key(fields, "delay_ms", "launch_delay_ms")),
        x: number_field(fields, "x"),
        y: number_field(fields, "y"),
        w: number_field(fields, "w"),
        h: number_field(fields, "h"),
        window_state: text_field(fields, preferred_key(fields, "state", "window_state")),
        launch_policy: text_field(fields, preferred_key(fields, "policy", "launch_policy")),
        match_rules,
        sort_order: integer_field(fields, "sort_order"),
    }
}

/// The workspace update a JSON patch object asks for (see
/// `workspace_patch_of`).
pub fn workspace_patch_from(fields: &[PatchField]) -> (p: WorkspacePatch)
    ensures
        workspace_patch_of(fields@, p),
{
    let launch_settings = match find_field(fields, "launch_settings") {
        Some(i) => Some(fields[i].json.clone()),
        None => None,
    };
    let apps = match find_field(fields, "apps") {
        Some(i) => match &fields[i].apps {
            Some(v) => Some(copy_apps(v)),
            None => None,
        },
        None => None,
    };
    WorkspacePatch {
        name: text_field(fields, "name"),
        description: text_field(fields, "description"),
        icon: text_field(fields, "icon"),
        color: text_field(fields, "color"),
        hotkey: text_field(fields, "hotkey"),
        is_favorite: flag_field(fields, preferred_key(fields, "favorite", "is_favorite")),
        launch_settings,
        apps,
    }
}

} // verus!
