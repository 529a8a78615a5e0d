//! Workspace import: the schema-version gate, validation, the
//! confirmation gate for shell-like tokens, and fresh identities.

use vstd::prelude::*;

use crate::args::join_spec;
use crate::error::WorksetError;
use crate::ids::{is_hyphenated_id, is_utc_timestamp, new_id, now_iso};
use crate::models::{app_problem, has_suspicious_token, lemma_suspicious_chars, shell_token_free, contains_suspicious_tokens, suspicious_spec, validate_workspace, Workspace, WorkspaceApp};
use crate::numbers::{digits_of, format_u64};
use crate::store::{new_workspace_outcome, apps_placed, lemma_apps_placed, apps_prepared, as_unit, fresh_ids, prepare_apps, same_app_content, workspace_check_result};
use crate::text::{copy_str, is_blank};

verus! {

/// A field of the imported JSON object, as far as the version gate reads it.
#[derive(Debug, Clone, Copy, PartialEq, Eq)]
pub enum JsonField {
    /// The key is not present.
    Absent,
    /// The value is a non-negative integer that fits in `u64`.
    Unsigned(u64),
    /// Any other value, `null` included.
    Other,
}

/// The schema version of an import: `schema_version` when present, else
/// the legacy `version`; a present value that is not an unsigned integer
/// reads as 0. Without any version, a versioned envelope (an object with a
/// `workspace` key) reads as 0 and a bare workspace object as 1, since a
/// bare workspace object is accepted as it is.
pub open spec fn schema_version_spec(schema_version: JsonField, version: JsonField, envelope: bool) -> u64 {
    let f = if schema_version is Absent { version } else { schema_version };
    match f {
        JsonField::Unsigned(n) => n,
        JsonField::Absent => if envelope { 0 } else { 1 },
        JsonField::Other => 0,
    }
}

/// The schema version of an import (see `schema_version_spec`).
pub fn resolve_schema_version(schema_version: JsonField, version: JsonField, envelope: bool) -> (v: u64)
    ensures
        v == schema_version_spec(schema_version, version, envelope),
{
    let f = match schema_version {
        JsonField::Absent => version,
        other => other,
    };
    match f {
        JsonField::Unsigned(n) => n,
        JsonField::Absent => if envelope { 0 } else { 1 },
        JsonField::Other => 0,
    }
}

/// Only version 1 imports are accepted.
pub fn check_schema_version(version: u64) -> (r: Result<(), WorksetError>)
    ensures
        version == 1 ==> r is Ok,
        version != 1 ==> (r matches Err(WorksetError::Validation(m)) && m@
            == "unsupported schema version "@ + digits_of(version as nat) + " (expected 1)"@),
{
    if version != 1 {
        let v = format_u64(version);
        return Err(WorksetError::Validation(crate::models::concat3("unsupported schema version ", v.as_str(), " (expected 1)")));
    }
    Ok(())
}

/// Some app of the workspace has shell-like tokens in its exe path or args.
pub open spec fn import_is_risky(ws: Workspace) -> bool {
    exists|i: int| 0 <= i < ws.apps@.len() && suspicious_spec((#[trigger] ws.apps@[i]).exe_path@, ws.apps@[i].args.deep_view())
}

/// The message of a refused risky import.
pub open spec fn risky_message() -> Seq<char> {
    "import contains shell-like tokens in exe paths or args; re-import with explicit confirmation to proceed"@
}

/// Whether some app has shell-like tokens.
fn any_risky(apps: &Vec<WorkspaceApp>) -> (b: bool)
    ensures
        b == exists|i: int| 0 <= i < apps@.len() && suspicious_spec((#[trigger] apps@[i]).exe_path@, apps@[i].args.deep_view()),
{
    let mut i: usize = 0;
    while i < apps.len()
        invariant
            i <= apps@.len(),
            forall|k: int| 0 <= k < i ==> !suspicious_spec((#[trigger] apps@[k]).exe_path@, apps@[k].args.deep_view()),
        decreases apps@.len() - i,
    {
        if contains_suspicious_tokens(apps[i].exe_path.as_str(), apps[i].args.as_slice()) {
            return true;
        }
        i = i + 1;
    }
    false
}

/// An imported workspace, ready to be stored: validated; refused when it
/// holds shell-like tokens and the user has not confirmed; then given the
/// id `new_ws_id`, no hotkey, not a favorite, both timestamps `now`, and
/// every app a fresh id and the new workspace id, so imports never collide
/// with existing rows.
pub fn prepare_import_with(
    ws: &Workspace,
    user_confirmed: bool,
    new_ws_id: &str,
    fresh: &Vec<String>,
    now: &str,
) -> (r: Result<Workspace, WorksetError>)
    requires
        fresh@.len() == ws.apps@.len(),
    ensures
        !workspace_check_result(*ws, Ok(())) ==> r is Err && workspace_check_result(*ws, as_unit(r)),
        workspace_check_result(*ws, Ok(())) && import_is_risky(*ws) && !user_confirmed ==> (r matches Err(
            WorksetError::Validation(m),
        ) && m@ == risky_message()),
        r is Ok <==> workspace_check_result(*ws, Ok(())) && (user_confirmed || !import_is_risky(*ws)),
        r matches Ok(w) ==> {
            &&& w.id@ == new_ws_id@
            &&& w.name == ws.name
            &&& w.description == ws.description
            &&& w.icon == ws.icon
            &&& w.color == ws.color
            &&& w.launch_settings == ws.launch_settings
            &&& w.hotkey@ == Seq::<char>::empty()
            &&& !w.is_favorite
            &&& w.created_at@ == now@
            &&& w.updated_at@ == now@
            &&& apps_prepared(ws.apps@, w.apps@, new_ws_id@, fresh.deep_view(), true, false)
        },
{
    match validate_workspace(ws) {
        Err(e) => {
            return Err(e);
        },
        Ok(()) => {},
    }
    if any_risky(&ws.apps) && !user_confirmed {
        return Err(WorksetError::Validation(String::from_str(
            "import contains shell-like tokens in exe paths or args; re-import with explicit confirmation to proceed",
        )));
    }
    Ok(Workspace {
        id: copy_str(new_ws_id),
        name: ws.name.clone(),
        description: ws.description.clone(),
        icon: ws.icon.clone(),
        color: ws.color.clone(),
        is_favorite: false,
        hotkey: String::new(),
        launch_settings: ws.launch_settings.clone(),
        created_at: copy_str(now),
        updated_at: copy_str(now),
        apps: prepare_apps(&ws.apps, new_ws_id, fresh, true, false),
    })
}

/// `w` is what importing `ws` stores: its descriptive fields and apps
/// kept, a fresh hyphenated id, no hotkey, not a favorite, equal
/// timestamps (the current time), and every app with a fresh id, pointing
/// at the new id.
pub open spec fn imported_from(ws: Workspace, w: Workspace) -> bool {
    &&& is_hyphenated_id(w.id@)
    &&& w.name == ws.name
    &&& w.description == ws.description
    &&& w.icon == ws.icon
    &&& w.color == ws.color
    &&& w.launch_settings == ws.launch_settings
    &&& w.hotkey@ == Seq::<char>::empty()
    &&& !w.is_favorite
    &&& w.created_at@ == w.updated_at@
    &&& is_utc_timestamp(w.updated_at@)
    &&& apps_placed(ws.apps@, w.apps@, w.id@, true, false)
}

/// What importing `ws` gives: the validation error of an invalid
/// workspace; a refusal of a risky one the user has not confirmed;
/// otherwise the workspace as it is stored (`imported_from`).
pub open spec fn import_outcome(ws: Workspace, user_confirmed: bool, r: Result<Workspace, WorksetError>) -> bool {
    &&& !workspace_check_result(ws, Ok(())) ==> r is Err && workspace_check_result(ws, as_unit(r))
    &&& workspace_check_result(ws, Ok(())) && import_is_risky(ws) && !user_confirmed ==> (r matches Err(
        WorksetError::Validation(m),
    ) && m@ == risky_message())
    &&& r is Ok <==> workspace_check_result(ws, Ok(())) && (user_confirmed || !import_is_risky(ws))
    &&& r matches Ok(w) ==> imported_from(ws, w)
}

/// An imported workspace with fresh ids and the current time (see
/// `prepare_import_with`).
pub fn prepare_import(ws: &Workspace, user_confirmed: bool) -> (r: Result<Workspace, WorksetError>)
    ensures
        import_outcome(*ws, user_confirmed, r),
{
    let id = new_id();
    let fresh = fresh_ids(ws.apps.len());
    let now = now_iso();
    let r = prepare_import_with(ws, user_confirmed, id.as_str(), &fresh, now.as_str());
    proof {
        if r is Ok {
            lemma_apps_placed(ws.apps@, r->Ok_0.apps@, r->Ok_0.id@, fresh.deep_view(), true, false);
        }
    }
    r
}

/// Export then import: an export writes `schema_version` and `version`
/// as 1 inside an envelope, which the version gate accepts; then a valid
/// workspace that the user confirmed, or that holds no shell-like tokens,
/// is always stored again, under a fresh id, with its descriptive fields
/// and its apps, no hotkey and not a favorite.
pub proof fn lemma_export_then_import(ws: Workspace, user_confirmed: bool)
    requires
        workspace_check_result(ws, Ok(())),
        user_confirmed || !import_is_risky(ws),
    ensures
        schema_version_spec(JsonField::Unsigned(1), JsonField::Unsigned(1), true) == 1,
        forall|r: Result<Workspace, WorksetError>| #[trigger] import_outcome(ws, user_confirmed, r) ==> (r matches Ok(w)
            && imported_from(ws, w)),
{
}

/// Export, import, store: a valid workspace, confirmed or free of
/// shell-like tokens, read back from its export file as the workspace the
/// file holds, is stored again as a new workspace: a fresh hyphenated id,
/// the same name, description, icon, colour and launch settings, not a
/// favorite, no hotkey, timestamps of the current time, and its apps in order with
/// the same content, each with a fresh hyphenated id, the new workspace id
/// and its position as sort order.
pub proof fn lemma_export_import_store(
    ws: Workspace,
    user_confirmed: bool,
    imported: Result<Workspace, WorksetError>,
    stored: Result<Workspace, WorksetError>,
)
    requires
        workspace_check_result(ws, Ok(())),
        user_confirmed || !import_is_risky(ws),
        import_outcome(ws, user_confirmed, imported),
        imported matches Ok(w) ==> new_workspace_outcome(w, stored),
    ensures
        imported is Ok,
        stored matches Ok(st) && {
            &&& st.id@ == imported->Ok_0.id@
            &&& is_hyphenated_id(st.id@)
            &&& st.name == ws.name
            &&& st.description == ws.description
            &&& st.icon == ws.icon
            &&& st.color == ws.color
            &&& st.launch_settings == ws.launch_settings
            &&& !st.is_favorite
            &&& st.hotkey@ == Seq::<char>::empty()
            &&& is_utc_timestamp(st.created_at@)
            &&& is_utc_timestamp(st.updated_at@)
            &&& st.apps@.len() == ws.apps@.len()
            &&& forall|i: int| #![trigger st.apps@[i]] 0 <= i < ws.apps@.len() ==> {
                &&& same_app_content(ws.apps@[i], st.apps@[i])
                &&& is_hyphenated_id(st.apps@[i].id@)
                &&& st.apps@[i].workspace_id@ == st.id@
                &&& st.apps@[i].sort_order == i
            }
        },
{
    let w = imported->Ok_0;
    assert(!is_blank(ws.name@));
    assert forall|i: int| 0 <= i < w.apps@.len() implies app_problem(#[trigger] w.apps@[i]) is None by {
        assert(w.apps@[i] == w.apps@[i]);
        assert(same_app_content(ws.apps@[i], w.apps@[i]));
        assert(app_problem(ws.apps@[i]) is None);
    }
    assert(workspace_check_result(w, Ok(())));
    lemma_hyphenated_not_blank(w.id@);
    let st = stored->Ok_0;
    assert forall|i: int| #![trigger st.apps@[i]] 0 <= i < ws.apps@.len() implies {
        &&& same_app_content(ws.apps@[i], st.apps@[i])
        &&& is_hyphenated_id(st.apps@[i].id@)
        &&& st.apps@[i].workspace_id@ == st.id@
        &&& st.apps@[i].sort_order == i
    } by {
        assert(w.apps@[i] == w.apps@[i]);
        lemma_hyphenated_not_blank(w.apps@[i].id@);
    }
}

/// A hyphenated id is not blank.
pub proof fn lemma_hyphenated_not_blank(s: Seq<char>)
    requires
        is_hyphenated_id(s),
    ensures
        !is_blank(s),
{
    assert(s[8] == '-');
}

/// An import free of shell-like tokens needs no confirmation: a valid
/// workspace in which no exe path and no argument holds `;`, a backtick,
/// `&`, `|`, `$(` or `${` is imported without the user confirming.
pub proof fn lemma_clean_import_needs_no_confirmation(ws: Workspace, r: Result<Workspace, WorksetError>)
    requires
        workspace_check_result(ws, Ok(())),
        forall|k: int| 0 <= k < ws.apps@.len() ==> shell_token_free(#[trigger] ws.apps@[k].exe_path@),
        forall|k: int, j: int| 0 <= k < ws.apps@.len() && 0 <= j < ws.apps@[k].args@.len() ==> shell_token_free(
            #[trigger] ws.apps@[k].args@[j]@,
        ),
        import_outcome(ws, false, r),
    ensures
        r is Ok,
{
    assert forall|k: int| 0 <= k < ws.apps@.len() implies !suspicious_spec(
        (#[trigger] ws.apps@[k]).exe_path@,
        ws.apps@[k].args.deep_view(),
    ) by {
        let a = ws.apps@[k];
        lemma_suspicious_chars(a.exe_path@);
        assert forall|j: int| 0 <= j < a.args.deep_view().len() implies !has_suspicious_token(
            #[trigger] a.args.deep_view()[j],
        ) by {
            assert(a.args.deep_view()[j] == a.args@[j]@);
            assert(shell_token_free(ws.apps@[k].args@[j]@));
            lemma_suspicious_chars(a.args.deep_view()[j]);
        }
    }
}

/// Import a workspace from what was read of the JSON text: the two version
/// fields, whether it is a versioned envelope, and the workspace object or
/// the reason it could not be read.
/// The version gate comes first, then the workspace must have been read,
/// then `prepare_import` decides.
pub fn import_workspace(
    schema_version: JsonField,
    version: JsonField,
    envelope: bool,
    parsed: Result<Workspace, String>,
    user_confirmed: bool,
) -> (r: Result<Workspace, WorksetError>)
    ensures
        schema_version_spec(schema_version, version, envelope) != 1 ==> (r matches Err(WorksetError::Validation(m))
            && m@ == "unsupported schema version "@ + digits_of(schema_version_spec(schema_version, version, envelope) as nat) + " (expected 1)"@),
        schema_version_spec(schema_version, version, envelope) == 1 ==> match parsed {
            Err(reason) => r matches Err(WorksetError::Validation(m)) && m@ == "invalid workspace: "@ + reason@,
            Ok(ws) => import_outcome(ws, user_confirmed, r),
        },
{
    let v = resolve_schema_version(schema_version, version, envelope);
    match check_schema_version(v) {
        Err(e) => {
            return Err(e);
        },
        Ok(()) => {},
    }
    match parsed {
        Err(reason) => Err(WorksetError::Validation(String::from_str("invalid workspace: ").concat(reason.as_str()))),
        Ok(ws) => prepare_import(&ws, user_confirmed),
    }
}

} // verus!
