//! Launching a whole workspace in a session, as a state machine over the
//! apps: validate the workspace, then for each app check for cancellation
//! and launch it; one app's outcome never stops the others. The caller
//! runs each app with `launcher::step` and reports back.

use vstd::prelude::*;

use crate::error::{error_text, ErrorKind, WorksetError};
use crate::launcher::err_view;
use crate::models::{validate_workspace, Workspace};
use crate::numbers::{digits_of, format_u64};
use crate::store::workspace_check_result;

verus! {

/// Where the launch of a workspace stands.
#[derive(Debug, PartialEq)]
pub enum SessionStage {
    /// Nothing happened yet.
    Start,
    /// Cancellation is being checked before app `i`.
    Checking(usize),
    /// App `i` is being launched.
    Launching(usize),
    /// The launch is over.
    Finished(Result<(), WorksetError>),
}

/// What happened since the last step.
#[derive(Debug, PartialEq)]
pub enum SessionEvent {
    /// The launch begins.
    Begin,
    /// Whether the session has been cancelled.
    Checked { cancelled: bool },
    /// The launch of the current app is over, whatever its outcome.
    AppDone,
}

/// Something to do for the session.
#[derive(Debug, PartialEq)]
pub enum SessionAction {
    /// Set the session's status, and its finishing time to now.
    SetStatus(String),
    /// Append a session-level log line.
    Log { level: String, message: String },
    /// Emit the progress event that announces the cancellation, with the
    /// progress of app `index`.
    EmitCancelled { index: usize },
    /// Check whether the session was cancelled (answer: `Checked`).
    CheckCancel,
    /// Launch app `i` of the workspace (answer: `AppDone`).
    LaunchApp(usize),
    /// Show a desktop notification.
    Notify { title: String, body: String },
}

/// A session stage, with errors by their view.
pub enum SessionStageView {
    Start,
    Checking(usize),
    Launching(usize),
    Finished(Option<(ErrorKind, Seq<char>)>),
}

/// A session action, with strings by their characters.
pub enum SessionActionView {
    SetStatus(Seq<char>),
    Log { level: Seq<char>, message: Seq<char> },
    EmitCancelled { index: usize },
    CheckCancel,
    LaunchApp(usize),
    Notify { title: Seq<char>, body: Seq<char> },
}

impl SessionStage {
    pub open spec fn view(self) -> SessionStageView {
        match self {
            SessionStage::Start => SessionStageView::Start,
            SessionStage::Checking(i) => SessionStageView::Checking(i),
            SessionStage::Launching(i) => SessionStageView::Launching(i),
            SessionStage::Finished(r) => SessionStageView::Finished(match r {
                Ok(()) => None,
                Err(e) => Some(err_view(e)),
            }),
        }
    }
}

impl SessionAction {
    pub open spec fn view(self) -> SessionActionView {
        match self {
            SessionAction::SetStatus(s) => SessionActionView::SetStatus(s@),
            SessionAction::Log { level, message } => SessionActionView::Log { level: level@, message: message@ },
            SessionAction::EmitCancelled { index } => SessionActionView::EmitCancelled { index },
            SessionAction::CheckCancel => SessionActionView::CheckCancel,
            SessionAction::LaunchApp(i) => SessionActionView::LaunchApp(i),
            SessionAction::Notify { title, body } => SessionActionView::Notify { title: title@, body: body@ },
        }
    }
}

/// The views of a list of session actions.
pub open spec fn session_actions_view(v: Seq<SessionAction>) -> Seq<SessionActionView> {
    v.map_values(|a: SessionAction| a.view())
}

pub open spec fn log_view(level: Seq<char>, message: Seq<char>) -> SessionActionView {
    SessionActionView::Log { level, message }
}

/// The log line that opens a launch.
pub open spec fn start_message(name: Seq<char>, n: nat) -> Seq<char> {
    "starting launch of workspace '"@ + name + "' ("@ + digits_of(n) + " app(s))"@
}

/// The actions that close a launch that ran to its end.
pub open spec fn finish_views(name: Seq<char>, notify: bool) -> Seq<SessionActionView> {
    seq![SessionActionView::SetStatus("done"@), log_view("done"@, "launch finished"@)] + if notify {
        seq![SessionActionView::Notify { title: "Workset"@, body: "Workspace '"@ + name + "' launched"@ }]
    } else {
        Seq::<SessionActionView>::empty()
    }
}

/// The actions that close a cancelled launch, before app `i`.
pub open spec fn cancel_views(i: usize) -> Seq<SessionActionView> {
    seq![
        log_view("cancelled"@, "launch cancelled by user"@),
        SessionActionView::SetStatus("cancelled"@),
        SessionActionView::EmitCancelled { index: i },
    ]
}

/// What beginning the launch of a workspace with `n` apps does, given the
/// outcome `check` of validating it.
pub open spec fn begin_spec(name: Seq<char>, n: nat, notify: bool, check: Result<(), WorksetError>) -> (SessionStageView, Seq<SessionActionView>) {
    match check {
        Err(e) => (SessionStageView::Finished(Some(err_view(e))), seq![
            SessionActionView::SetStatus("failed"@),
            log_view("failed"@, error_text(e)),
        ]),
        Ok(()) => if n == 0 {
            (SessionStageView::Finished(None), seq![log_view("info"@, start_message(name, n))] + finish_views(name, notify))
        } else {
            (SessionStageView::Checking(0), seq![log_view("info"@, start_message(name, n)), SessionActionView::CheckCancel])
        },
    }
}

/// One step of a launch that has begun, for a workspace named `name` with
/// `n` apps, from a stage given by its view.
pub open spec fn session_step_spec(name: Seq<char>, n: nat, notify: bool, sv: SessionStageView, ev: SessionEvent) -> (SessionStageView, Seq<SessionActionView>) {
    match sv {
        SessionStageView::Checking(i) => match ev {
            SessionEvent::Checked { cancelled } => if cancelled {
                (SessionStageView::Finished(None), cancel_views(i))
            } else {
                (SessionStageView::Launching(i), seq![SessionActionView::LaunchApp(i)])
            },
            _ => (sv, seq![]),
        },
        SessionStageView::Launching(i) => match ev {
            SessionEvent::AppDone => if i + 1 < n {
                (SessionStageView::Checking((i + 1) as usize), seq![SessionActionView::CheckCancel])
            } else {
                (SessionStageView::Finished(None), finish_views(name, notify))
            },
            _ => (sv, seq![]),
        },
        _ => (sv, seq![]),
    }
}

/// The stage reached and the actions asked for by a run of events.
pub open spec fn run_spec(name: Seq<char>, n: nat, notify: bool, sv: SessionStageView, evs: Seq<SessionEvent>) -> (SessionStageView, Seq<SessionActionView>)
    decreases evs.len(),
{
    if evs.len() == 0 {
        (sv, seq![])
    } else {
        let (next, acts) = session_step_spec(name, n, notify, sv, evs[0]);
        let (last, more) = run_spec(name, n, notify, next, evs.drop_first());
        (last, acts + more)
    }
}

/// `k` rounds of: not cancelled, then the app's launch is over.
pub open spec fn uncancelled_rounds(k: nat) -> Seq<SessionEvent>
    decreases k,
{
    if k == 0 {
        seq![]
    } else {
        seq![SessionEvent::Checked { cancelled: false }, SessionEvent::AppDone] + uncancelled_rounds((k - 1) as nat)
    }
}

/// The launches of apps `i..n` in order, with a cancellation check before
/// each but the first.
pub open spec fn launch_trace(i: nat, n: nat) -> Seq<SessionActionView>
    decreases n - i,
{
    if i >= n {
        seq![]
    } else if i + 1 < n {
        seq![SessionActionView::LaunchApp(i as usize), SessionActionView::CheckCancel] + launch_trace(i + 1, n)
    } else {
        seq![SessionActionView::LaunchApp(i as usize)]
    }
}

/// Every app is launched, in order, whatever became of the ones before:
/// when no cancellation comes, a launch that checks app `i` goes on to
/// launch apps `i..n` one after the other and then closes the session as
/// done.
pub proof fn lemma_every_app_launched(name: Seq<char>, n: nat, notify: bool, i: nat)
    requires
        i < n,
        n <= usize::MAX,
    ensures
        run_spec(name, n, notify, SessionStageView::Checking(i as usize), uncancelled_rounds((n - i) as nat))
            == (SessionStageView::Finished(None), launch_trace(i, n) + finish_views(name, notify)),
    decreases n - i,
{
    let evs = uncancelled_rounds((n - i) as nat);
    let s0 = SessionStageView::Checking(i as usize);
    assert(evs[0] == SessionEvent::Checked { cancelled: false });
    assert(evs.drop_first()[0] == SessionEvent::AppDone);
    let rest = uncancelled_rounds((n - i - 1) as nat);
    assert(evs.drop_first().drop_first() =~= rest);
    let s1 = SessionStageView::Launching(i as usize);
    assert(session_step_spec(name, n, notify, s0, evs[0]) == (s1, seq![SessionActionView::LaunchApp(i as usize)]));
    if i + 1 < n {
        let s2 = SessionStageView::Checking((i + 1) as usize);
        lemma_every_app_launched(name, n, notify, i + 1);
        assert(run_spec(name, n, notify, s2, rest)
            == (SessionStageView::Finished(None), launch_trace(i + 1, n) + finish_views(name, notify)));
        assert(run_spec(name, n, notify, s1, evs.drop_first()) == (SessionStageView::Finished(None),
            seq![SessionActionView::CheckCancel] + (launch_trace(i + 1, n) + finish_views(name, notify))));
        assert(launch_trace(i, n) =~= seq![SessionActionView::LaunchApp(i as usize), SessionActionView::CheckCancel] + launch_trace(i + 1, n));
        assert(seq![SessionActionView::LaunchApp(i as usize)] + (seq![SessionActionView::CheckCancel] + (launch_trace(i + 1, n) + finish_views(name, notify)))
            =~= launch_trace(i, n) + finish_views(name, notify));
    } else {
        assert(rest =~= Seq::<SessionEvent>::empty());
        let fin = SessionStageView::Finished(None);
        assert(run_spec(name, n, notify, fin, rest) == (fin, Seq::<SessionActionView>::empty()));
        assert(run_spec(name, n, notify, s1, evs.drop_first()) == (fin, finish_views(name, notify) + Seq::<SessionActionView>::empty()));
        assert(seq![SessionActionView::LaunchApp(i as usize)] + ((finish_views(name, notify) + Seq::<SessionActionView>::empty()) + Seq::<SessionActionView>::empty())
            =~= launch_trace(i, n) + finish_views(name, notify));
    }
}

/// The event that a session stage waits for.
pub open spec fn session_waits_for(sv: SessionStageView, ev: SessionEvent) -> bool {
    match sv {
        SessionStageView::Start => ev is Begin,
        SessionStageView::Checking(_) => ev is Checked,
        SessionStageView::Launching(_) => ev is AppDone,
        SessionStageView::Finished(_) => false,
    }
}

/// A session action whose outcome is the next event.
pub open spec fn session_is_question(a: SessionActionView) -> bool {
    a is CheckCancel || a is LaunchApp
}

/// `a` asks for the event that the stage `next` waits for.
pub open spec fn session_asks_for(a: SessionActionView, next: SessionStageView) -> bool {
    match a {
        SessionActionView::CheckCancel => next is Checking,
        SessionActionView::LaunchApp(_) => next is Launching,
        _ => false,
    }
}

/// Exactly one of the actions is a question, and it asks for the event
/// that `next` waits for.
pub open spec fn session_asks_once(acts: Seq<SessionActionView>, next: SessionStageView) -> bool {
    exists|k: int| 0 <= k < acts.len() && #[trigger] session_asks_for(acts[k], next)
        && forall|j: int| 0 <= j < acts.len() && j != k ==> !session_is_question(#[trigger] acts[j])
}

/// A session launch that is not over always waits for an answer: a step on
/// the event its stage waits for (beginning, with whatever validating the
/// workspace gave) either finishes the launch or asks exactly one
/// question, for the event the next stage waits for.
pub proof fn lemma_unfinished_session_step_asks_once(
    name: Seq<char>,
    n: nat,
    notify: bool,
    sv: SessionStageView,
    ev: SessionEvent,
    check: Result<(), WorksetError>,
)
    requires
        session_waits_for(sv, ev),
    ensures
        sv is Start ==> (begin_spec(name, n, notify, check).0 is Finished || session_asks_once(
            begin_spec(name, n, notify, check).1,
            begin_spec(name, n, notify, check).0,
        )),
        !(sv is Start) ==> (session_step_spec(name, n, notify, sv, ev).0 is Finished || session_asks_once(
            session_step_spec(name, n, notify, sv, ev).1,
            session_step_spec(name, n, notify, sv, ev).0,
        )),
{
    if sv is Start {
        let (next, acts) = begin_spec(name, n, notify, check);
        if !(next is Finished) {
            assert(acts.len() == 2);
            assert(session_asks_for(acts[1], next));
        }
    } else {
        let (next, acts) = session_step_spec(name, n, notify, sv, ev);
        if !(next is Finished) {
            assert(acts.len() == 1);
            assert(session_asks_for(acts[0], next));
        }
    }
}

fn log(level: &str, message: String) -> (a: SessionAction)
    ensures
        a.view() == log_view(level@, message@),
{
    SessionAction::Log { level: String::from_str(level), message }
}

fn finish_actions(ws: &Workspace, notify: bool) -> (v: Vec<SessionAction>)
    ensures
        session_actions_view(v@) == finish_views(ws.name@, notify),
{
    let mut v: Vec<SessionAction> = Vec::new();
    v.push(SessionAction::SetStatus(String::from_str("done")));
    v.push(log("done", String::from_str("launch finished")));
    if notify {
        let body = String::from_str("Workspace '").concat(ws.name.as_str()).concat("' launched");
        v.push(SessionAction::Notify { title: String::from_str("Workset"), body });
    }
    assert(session_actions_view(v@) =~= finish_views(ws.name@, notify));
    v
}

/// One step of the launch of workspace `ws`: the next stage and the actions
/// to perform, in order. Beginning validates the workspace; an event that
/// the stage does not wait for changes nothing.
pub fn session_step(ws: &Workspace, notify: bool, stage: SessionStage, ev: SessionEvent) -> (r: (SessionStage, Vec<SessionAction>))
    ensures
        (stage is Start && ev is Begin) ==> exists|check: Result<(), WorksetError>| {
            &&& workspace_check_result(*ws, check)
            &&& (r.0.view(), session_actions_view(r.1@)) == begin_spec(ws.name@, ws.apps@.len(), notify, check)
        },
        !(stage is Start) ==> (r.0.view(), session_actions_view(r.1@))
            == session_step_spec(ws.name@, ws.apps@.len(), notify, stage.view(), ev),
        (stage is Start && !(ev is Begin)) ==> (r.0.view(), session_actions_view(r.1@))
            == (SessionStageView::Start, Seq::<SessionActionView>::empty()),
{
    let n = ws.apps.len();
    let mut v: Vec<SessionAction> = Vec::new();
    match stage {
        SessionStage::Start => match ev {
            SessionEvent::Begin => {
                let check = validate_workspace(ws);
                match check {
                    Err(e) => {
                        let ghost ge = e;
                        v.push(SessionAction::SetStatus(String::from_str("failed")));
                        v.push(log("failed", e.message()));
                        assert(session_actions_view(v@) =~= seq![
                            SessionActionView::SetStatus("failed"@),
                            log_view("failed"@, error_text(ge)),
                        ]);
                        assert(workspace_check_result(*ws, Err(ge)));
                        (SessionStage::Finished(Err(e)), v)
                    },
                    Ok(()) => {
                        let msg = String::from_str("starting launch of workspace '").concat(ws.name.as_str())
                            .concat("' (").concat(format_u64(n as u64).as_str()).concat(" app(s))");
                        assert(msg@ =~= start_message(ws.name@, ws.apps@.len()));
                        v.push(log("info", msg));
                        assert(workspace_check_result(*ws, Ok(())));
                        if n == 0 {
                            let ghost first = session_actions_view(v@);
                            let f = finish_actions(ws, notify);
                            let mut f2 = f;
                            v.append(&mut f2);
                            assert(session_actions_view(v@) =~= first + session_actions_view(f@));
                            (SessionStage::Finished(Ok(())), v)
                        } else {
                            v.push(SessionAction::CheckCancel);
                            assert(session_actions_view(v@) =~= seq![
                                log_view("info"@, start_message(ws.name@, ws.apps@.len())),
                                SessionActionView::CheckCancel,
                            ]);
                            (SessionStage::Checking(0), v)
                        }
                    },
                }
            },
            _ => {
                assert(session_actions_view(v@) =~= Seq::<SessionActionView>::empty());
                (SessionStage::Start, v)
            },
        },
        SessionStage::Checking(i) => match ev {
            SessionEvent::Checked { cancelled } => {
                if cancelled {
                    v.push(log("cancelled", String::from_str("launch cancelled by user")));
                    v.push(SessionAction::SetStatus(String::from_str("cancelled")));
                    v.push(SessionAction::EmitCancelled { index: i });
                    assert(session_actions_view(v@) =~= cancel_views(i));
                    (SessionStage::Finished(Ok(())), v)
                } else {
                    v.push(SessionAction::LaunchApp(i));
                    assert(session_actions_view(v@) =~= seq![SessionActionView::LaunchApp(i)]);
                    (SessionStage::Launching(i), v)
                }
            },
            _ => {
                assert(session_actions_view(v@) =~= Seq::<SessionActionView>::empty());
                (SessionStage::Checking(i), v)
            },
        },
        SessionStage::Launching(i) => match ev {
            SessionEvent::AppDone => {
                if i < n && i + 1 < n {
                    v.push(SessionAction::CheckCancel);
                    assert(session_actions_view(v@) =~= seq![SessionActionView::CheckCancel]);
                    (SessionStage::Checking(i + 1), v)
                } else {
                    (SessionStage::Finished(Ok(())), finish_actions(ws, notify))
                }
            },
            _ => {
                assert(session_actions_view(v@) =~= Seq::<SessionActionView>::empty());
                (SessionStage::Launching(i), v)
            },
        },
        SessionStage::Finished(r) => {
            assert(session_actions_view(v@) =~= Seq::<SessionActionView>::empty());
            (SessionStage::Finished(r), v)
        },
    }
}

/// The timeout for an app's window: the one asked for, else the stored
/// default but at least one second.
pub fn effective_timeout(asked_ms: Option<u64>, default_ms: i64) -> (t: u64)
    ensures
        t == match asked_ms {
            Some(a) => a,
            None => if default_ms >= 1000 { default_ms as u64 } else { 1000 },
        },
{
    match asked_ms {
        Some(a) => a,
        None => if default_ms >= 1000 { default_ms as u64 } else { 1000 },
    }
}

} // verus!
