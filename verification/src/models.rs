//! The shared data model and its validation rules.

use vstd::prelude::*;

use crate::error::WorksetError;
use crate::pattern::{regex_valid, TitlePattern};
use crate::text::{copy_str, from_chars, has_substr, lemma_has_char, lemma_has_pair, is_blank, is_blank_str, to_chars, trim, trim_str, contains_chars};

verus! {

/// The bit pattern of an IEEE-754 binary64 value (`f64::to_bits`). Layout
/// fractions travel through the library in this form and are only turned
/// back into floating point at the edge.
#[derive(Debug, Clone, Copy, PartialEq, Eq)]
pub struct FloatBits {
    pub bits: u64,
}

/// Bits of `1.0`.
pub const ONE_BITS: u64 = 0x3FF0_0000_0000_0000;
/// Bits of `-0.0`.
pub const NEG_ZERO_BITS: u64 = 0x8000_0000_0000_0000;
/// Bits of `0.05`, the smallest allowed width or height fraction.
pub const MIN_SIZE_BITS: u64 = 0x3FA9_9999_9999_999A;
/// Bits of `0.5`.
pub const HALF_BITS: u64 = 0x3FE0_0000_0000_0000;

/// The value is finite and lies in `0.0..=1.0` (`-0.0` included). Positive
/// finite doubles are ordered like their bit patterns, and every NaN or
/// infinity has bits above those of `1.0` or a set sign bit.
pub open spec fn in_unit_interval(f: FloatBits) -> bool {
    f.bits <= ONE_BITS || f.bits == NEG_ZERO_BITS
}

/// For a value in `0.0..=1.0`: it is below `0.05`.
pub open spec fn below_min_size(f: FloatBits) -> bool {
    f.bits < MIN_SIZE_BITS || f.bits == NEG_ZERO_BITS
}

/// Rules that identify an app's window among all top-level windows.
#[derive(Debug, Clone, PartialEq, Eq)]
pub struct MatchRules {
    pub exe_contains: Option<String>,
    pub title_contains: Option<String>,
    pub title_regex: Option<String>,
    pub window_class: Option<String>,
    pub use_regex: bool,
}

/// One application entry of a workspace. `x`, `y`, `w`, `h` are fractions
/// of the target monitor's work area.
#[derive(Debug, Clone, PartialEq)]
pub struct WorkspaceApp {
    pub id: String,
    pub workspace_id: String,
    pub sort_order: i64,
    pub name: String,
    pub exe_path: String,
    pub args: Vec<String>,
    pub cwd: String,
    pub url: String,
    pub app_icon: String,
    pub match_rules: MatchRules,
    pub launch_delay_ms: i64,
    pub target_monitor: String,
    pub x: FloatBits,
    pub y: FloatBits,
    pub w: FloatBits,
    pub h: FloatBits,
    pub window_state: String,
    pub launch_policy: String,
}

/// A named group of applications. `launch_settings` is JSON text.
#[derive(Debug, Clone, PartialEq)]
pub struct Workspace {
    pub id: String,
    pub name: String,
    pub description: String,
    pub icon: String,
    pub color: String,
    pub is_favorite: bool,
    pub hotkey: String,
    pub launch_settings: String,
    pub created_at: String,
    pub updated_at: String,
    pub apps: Vec<WorkspaceApp>,
}

/// A display: full bounds, work area (without task bar), DPI scale.
#[derive(Debug, Clone, PartialEq)]
pub struct MonitorInfo {
    pub id: String,
    pub x: i32,
    pub y: i32,
    pub w: i32,
    pub h: i32,
    pub work_x: i32,
    pub work_y: i32,
    pub work_w: i32,
    pub work_h: i32,
    pub scale: FloatBits,
    pub is_primary: bool,
    pub name: String,
}

/// A visible top-level window.
#[derive(Debug, Clone, PartialEq, Eq)]
pub struct CapturedWindow {
    pub hwnd: i64,
    pub pid: u32,
    pub exe_path: String,
    pub title: String,
    pub class: String,
    pub x: i32,
    pub y: i32,
    pub w: i32,
    pub h: i32,
    pub monitor_id: String,
    pub state: String,
}

/// A launchable application found on the machine.
#[derive(Debug, Clone, PartialEq, Eq)]
pub struct DiscoveredApp {
    pub name: String,
    pub exe_path: String,
    pub source: String,
    pub icon: String,
}

/// Progress of one app during a launch. `progress` is a fraction.
#[derive(Debug, Clone, PartialEq)]
pub struct LaunchProgressEvent {
    pub session_id: String,
    pub workspace_id: String,
    pub app_id: String,
    pub app_name: String,
    pub status: String,
    pub message: String,
    pub progress: FloatBits,
}

/// One tracked window of a launch session. `last_rect` is JSON text.
#[derive(Debug, Clone, PartialEq, Eq)]
pub struct SessionWindowRow {
    pub id: String,
    pub session_id: String,
    pub app_id: String,
    pub pid: Option<i64>,
    pub hwnd: Option<i64>,
    pub status: String,
    pub message: String,
    pub last_rect: String,
    pub launched_at: String,
}

/// A launch session and its tracked windows.
#[derive(Debug, Clone, PartialEq, Eq)]
pub struct SessionInfo {
    pub id: String,
    pub workspace_id: String,
    pub status: String,
    pub started_at: String,
    pub finished_at: Option<String>,
    pub windows: Vec<SessionWindowRow>,
}

/// Typed application settings.
#[derive(Debug, Clone, PartialEq, Eq)]
pub struct AppSettings {
    pub theme: String,
    pub default_timeout_ms: i64,
    pub default_match_policy: String,
    pub confirm_before_launch: bool,
    pub notifications_enabled: bool,
}

/// The versioned envelope of an exported workspace.
#[derive(Debug, Clone, PartialEq)]
pub struct ExportFormat {
    pub schema_version: u32,
    pub workspace: Workspace,
}

/// One line of the launch log.
#[derive(Debug, Clone, PartialEq, Eq)]
pub struct LaunchLog {
    pub id: i64,
    pub session_id: String,
    pub app_id: String,
    pub level: String,
    pub message: String,
    pub created_at: String,
}

/// A copy of an optional string.
pub fn copy_opt(o: &Option<String>) -> (r: Option<String>)
    ensures
        r == *o,
{
    match o {
        Some(s) => Some(s.clone()),
        None => None,
    }
}

/// A copy of a list of strings.
pub fn copy_strings(v: &Vec<String>) -> (r: Vec<String>)
    ensures
        r@ == v@,
{
    let mut r: Vec<String> = Vec::new();
    let mut i: usize = 0;
    while i < v.len()
        invariant
            i <= v@.len(),
            r@ == v@.take(i as int),
        decreases v@.len() - i,
    {
        r.push(v[i].clone());
        i = i + 1;
        assert(r@ =~= v@.take(i as int));
    }
    assert(v@.take(v@.len() as int) =~= v@);
    r
}

impl MatchRules {
    /// A copy of these rules.
    pub fn copy(&self) -> (r: MatchRules)
        ensures
            r == *self,
    {
        MatchRules {
            exe_contains: copy_opt(&self.exe_contains),
            title_contains: copy_opt(&self.title_contains),
            title_regex: copy_opt(&self.title_regex),
            window_class: copy_opt(&self.window_class),
            use_regex: self.use_regex,
        }
    }

    /// No rule set (`MatchRules::default()`).
    pub fn empty() -> (r: MatchRules)
        ensures
            r.exe_contains is None,
            r.title_contains is None,
            r.title_regex is None,
            r.window_class is None,
            !r.use_regex,
    {
        MatchRules {
            exe_contains: None,
            title_contains: None,
            title_regex: None,
            window_class: None,
            use_regex: false,
        }
    }
}

impl CapturedWindow {
    /// A copy of this window record.
    pub fn copy(&self) -> (r: CapturedWindow)
        ensures
            r == *self,
    {
        CapturedWindow {
            hwnd: self.hwnd,
            pid: self.pid,
            exe_path: self.exe_path.clone(),
            title: self.title.clone(),
            class: self.class.clone(),
            x: self.x,
            y: self.y,
            w: self.w,
            h: self.h,
            monitor_id: self.monitor_id.clone(),
            state: self.state.clone(),
        }
    }
}

impl MonitorInfo {
    /// A copy of this monitor description.
    pub fn copy(&self) -> (r: MonitorInfo)
        ensures
            r == *self,
    {
        MonitorInfo {
            id: self.id.clone(),
            x: self.x,
            y: self.y,
            w: self.w,
            h: self.h,
            work_x: self.work_x,
            work_y: self.work_y,
            work_w: self.work_w,
            work_h: self.work_h,
            scale: self.scale,
            is_primary: self.is_primary,
            name: self.name.clone(),
        }
    }
}

impl WorkspaceApp {
    /// A copy of this app entry.
    pub fn copy(&self) -> (r: WorkspaceApp)
        ensures
            r == (WorkspaceApp { args: r.args, ..*self }),
            r.args@ == self.args@,
    {
        let args = copy_strings(&self.args);
        WorkspaceApp {
            id: self.id.clone(),
            workspace_id: self.workspace_id.clone(),
            sort_order: self.sort_order,
            name: self.name.clone(),
            exe_path: self.exe_path.clone(),
            args,
            cwd: self.cwd.clone(),
            url: self.url.clone(),
            app_icon: self.app_icon.clone(),
            match_rules: self.match_rules.copy(),
            launch_delay_ms: self.launch_delay_ms,
            target_monitor: self.target_monitor.clone(),
            x: self.x,
            y: self.y,
            w: self.w,
            h: self.h,
            window_state: self.window_state.clone(),
            launch_policy: self.launch_policy.clone(),
        }
    }
}

/// Default workspace colour.
pub fn default_color() -> (s: String)
    ensures
        s@ == "#0078d4"@,
{
    String::from_str("#0078d4")
}

/// Default window state of an app.
pub fn default_window_state() -> (s: String)
    ensures
        s@ == "normal"@,
{
    String::from_str("normal")
}

/// Default launch policy of an app.
pub fn default_launch_policy() -> (s: String)
    ensures
        s@ == "if_not_running"@,
{
    String::from_str("if_not_running")
}

/// Default status of a tracked window.
pub fn default_pending() -> (s: String)
    ensures
        s@ == "pending"@,
{
    String::from_str("pending")
}

/// Default status of a session.
pub fn default_running() -> (s: String)
    ensures
        s@ == "running"@,
{
    String::from_str("running")
}

/// Default log level.
pub fn default_info() -> (s: String)
    ensures
        s@ == "info"@,
{
    String::from_str("info")
}

/// Default theme.
pub fn default_theme() -> (s: String)
    ensures
        s@ == "system"@,
{
    String::from_str("system")
}

/// Default wait for a launched window, in milliseconds.
pub fn default_timeout_ms() -> (n: i64)
    ensures
        n == 15000,
{
    15000
}

/// Default window matching policy.
pub fn default_match_policy() -> (s: String)
    ensures
        s@ == "exe_and_title"@,
{
    String::from_str("exe_and_title")
}

/// `true`, the default of flags that are on unless switched off.
pub fn default_true() -> (b: bool)
    ensures
        b,
{
    true
}

/// Version of the export envelope.
pub fn default_schema_version() -> (v: u32)
    ensures
        v == 1,
{
    1
}

/// Default width or height fraction, `0.5`.
pub fn default_half() -> (f: FloatBits)
    ensures
        f.bits == HALF_BITS,
{
    FloatBits { bits: HALF_BITS }
}

/// Default display scale, `1.0`.
pub fn default_scale() -> (f: FloatBits)
    ensures
        f.bits == ONE_BITS,
{
    FloatBits { bits: ONE_BITS }
}

/// `s` holds one of the tokens that suggest shell interpretation.
pub open spec fn has_suspicious_token(s: Seq<char>) -> bool {
    has_substr(s, seq![';']) || has_substr(s, seq!['`']) || has_substr(s, seq!['$', '('])
        || has_substr(s, seq!['$', '{']) || has_substr(s, seq!['&', '&'])
        || has_substr(s, seq!['|', '|']) || has_substr(s, seq!['&']) || has_substr(s, seq!['|'])
}

/// The exe path or one of the args holds a suspicious token.
pub open spec fn suspicious_spec(exe_path: Seq<char>, args: Seq<Seq<char>>) -> bool {
    has_suspicious_token(exe_path) || exists|i: int| 0 <= i < args.len() && has_suspicious_token(#[trigger] args[i])
}

/// Whether `s` holds one of the suspicious tokens.
fn has_token(s: &str) -> (b: bool)
    ensures
        b == has_suspicious_token(s@),
{
    let h = to_chars(s);
    let hay = h.as_slice();
    let t1 = vec![';'];
    let t2 = vec!['`'];
    let t3 = vec!['$', '('];
    let t4 = vec!['$', '{'];
    let t5 = vec!['&', '&'];
    let t6 = vec!['|', '|'];
    let t7 = vec!['&'];
    let t8 = vec!['|'];
    assert(t1@ =~= seq![';'] && t2@ =~= seq!['`'] && t3@ =~= seq!['$', '('] && t4@ =~= seq!['$', '{']);
    assert(t5@ =~= seq!['&', '&'] && t6@ =~= seq!['|', '|'] && t7@ =~= seq!['&'] && t8@ =~= seq!['|']);
    contains_chars(hay, t1.as_slice()) || contains_chars(hay, t2.as_slice())
        || contains_chars(hay, t3.as_slice()) || contains_chars(hay, t4.as_slice())
        || contains_chars(hay, t5.as_slice()) || contains_chars(hay, t6.as_slice())
        || contains_chars(hay, t7.as_slice()) || contains_chars(hay, t8.as_slice())
}

/// Tokens that suggest shell interpretation (`;` `` ` `` `$(` `${` `&&`
/// `||` `&` `|`) in the exe path or any argument. Imports containing
/// them need explicit confirmation.
pub fn contains_suspicious_tokens(exe_path: &str, args: &[String]) -> (b: bool)
    ensures
        b == suspicious_spec(exe_path@, args.deep_view()),
{
    if has_token(exe_path) {
        return true;
    }
    let mut i: usize = 0;
    while i < args.len()
        invariant
            i <= args@.len(),
            !has_suspicious_token(exe_path@),
            forall|k: int| 0 <= k < i ==> !has_suspicious_token(#[trigger] args.deep_view()[k]),
        decreases args@.len() - i,
    {
        if has_token(args[i].as_str()) {
            assert(has_suspicious_token(args.deep_view()[i as int]));
            return true;
        }
        i = i + 1;
    }
    false
}


/// `s` holds no shell-like token, character by character: no `;`, no
/// backtick, no `&`, no `|`, and no `$` followed by `(` or `{`.
pub open spec fn shell_token_free(s: Seq<char>) -> bool {
    forall|i: int| 0 <= i < s.len() ==> {
        &&& #[trigger] s[i] != ';' && s[i] != '`' && s[i] != '&' && s[i] != '|'
        &&& s[i] == '$' && i + 1 < s.len() ==> s[i + 1] != '(' && s[i + 1] != '{'
    }
}

/// The shell-like tokens are `;`, a backtick, `$(`, `${`, `&&`, `||`, `&`
/// and `|`: a string is suspicious exactly when it is not
/// `shell_token_free`.
pub proof fn lemma_suspicious_chars(s: Seq<char>)
    ensures
        has_suspicious_token(s) == !shell_token_free(s),
{
    lemma_has_char(s, ';');
    lemma_has_char(s, '`');
    lemma_has_char(s, '&');
    lemma_has_char(s, '|');
    lemma_has_pair(s, '$', '(');
    lemma_has_pair(s, '$', '{');
    lemma_has_pair(s, '&', '&');
    lemma_has_pair(s, '|', '|');
    if !shell_token_free(s) {
        let i = choose|i: int| 0 <= i < s.len() && !({
            &&& #[trigger] s[i] != ';' && s[i] != '`' && s[i] != '&' && s[i] != '|'
            &&& s[i] == '$' && i + 1 < s.len() ==> s[i + 1] != '(' && s[i + 1] != '{'
        });
        assert(s[i] == s[i]);
    }
}

/// What is wrong with an app entry, in the order the checks run.
pub enum AppProblem {
    EmptyName,
    CoordOutOfRange(char),
    TooSmall,
    NoTarget,
    BadTitleRegex,
    NegativeDelay,
}

/// The first of `x`, `y`, `w`, `h` that is not a finite value in `0..=1`.
pub open spec fn first_bad_coord(app: WorkspaceApp) -> Option<char> {
    if !in_unit_interval(app.x) {
        Some('x')
    } else if !in_unit_interval(app.y) {
        Some('y')
    } else if !in_unit_interval(app.w) {
        Some('w')
    } else if !in_unit_interval(app.h) {
        Some('h')
    } else {
        None
    }
}

/// A non-blank `title_regex` that `regex` refuses (it is compiled trimmed).
pub open spec fn title_regex_invalid(rx: Option<String>) -> bool {
    match rx {
        Some(p) => !is_blank(p@) && !regex_valid(trim(p@)),
        None => false,
    }
}

/// The first problem of an app entry, if any.
pub open spec fn app_problem(app: WorkspaceApp) -> Option<AppProblem> {
    if is_blank(app.name@) {
        Some(AppProblem::EmptyName)
    } else if first_bad_coord(app) is Some {
        Some(AppProblem::CoordOutOfRange(first_bad_coord(app)->0))
    } else if below_min_size(app.w) || below_min_size(app.h) {
        Some(AppProblem::TooSmall)
    } else if is_blank(app.exe_path@) && is_blank(app.url@) {
        Some(AppProblem::NoTarget)
    } else if title_regex_invalid(app.match_rules.title_regex) {
        Some(AppProblem::BadTitleRegex)
    } else if app.launch_delay_ms < 0 {
        Some(AppProblem::NegativeDelay)
    } else {
        None
    }
}

/// The validation message for a problem of the app named `name`
/// (all but `BadTitleRegex`, whose message holds the regex crate's text).
pub open spec fn problem_message(name: Seq<char>, p: AppProblem) -> Seq<char> {
    match p {
        AppProblem::EmptyName => "app name must not be empty"@,
        AppProblem::CoordOutOfRange(k) => "app \""@ + name + "\" has invalid "@ + seq![k]
            + ": must be within 0..1"@,
        AppProblem::TooSmall => "app \""@ + name + "\" is too small: w/h must be >= 0.05"@,
        AppProblem::NoTarget => "app \""@ + name + "\" needs either exe_path or url"@,
        AppProblem::NegativeDelay => "app \""@ + name + "\" has a negative launch delay"@,
        AppProblem::BadTitleRegex => "invalid title_regex: "@,
    }
}

/// What `validate_app` answers for an app entry.
pub open spec fn app_check_result(app: WorkspaceApp, r: Result<(), WorksetError>) -> bool {
    match app_problem(app) {
        None => r is Ok,
        Some(AppProblem::BadTitleRegex) => r matches Err(WorksetError::Regex(m))
            && m@.len() >= 21 && m@.take(21) == "invalid title_regex: "@,
        Some(p) => r matches Err(WorksetError::Validation(m)) && m@ == problem_message(app.name@, p),
    }
}

/// `a + b + c` as a new string.
pub fn concat3(a: &str, b: &str, c: &str) -> (s: String)
    ensures
        s@ == a@ + b@ + c@,
{
    String::from_str(a).concat(b).concat(c)
}

/// Whether a layout fraction is a finite value in `0..=1`.
pub fn is_unit_fraction(f: FloatBits) -> (b: bool)
    ensures
        b == in_unit_interval(f),
{
    f.bits <= ONE_BITS || f.bits == NEG_ZERO_BITS
}

/// Whether a fraction in `0..=1` is below the minimum size `0.05`.
pub fn is_below_min_size(f: FloatBits) -> (b: bool)
    ensures
        b == below_min_size(f),
{
    f.bits < MIN_SIZE_BITS || f.bits == NEG_ZERO_BITS
}

/// The layout rectangle check of `validate_app`.
fn check_rect(name: &str, x: FloatBits, y: FloatBits, w: FloatBits, h: FloatBits) -> (r: Result<(), WorksetError>)
    ensures
        ({
            let bad = if !in_unit_interval(x) {
                Some('x')
            } else if !in_unit_interval(y) {
                Some('y')
            } else if !in_unit_interval(w) {
                Some('w')
            } else if !in_unit_interval(h) {
                Some('h')
            } else {
                None::<char>
            };
            match bad {
                Some(k) => r matches Err(WorksetError::Validation(m)) && m@ == problem_message(
                    name@,
                    AppProblem::CoordOutOfRange(k),
                ),
                None => if below_min_size(w) || below_min_size(h) {
                    r matches Err(WorksetError::Validation(m)) && m@ == problem_message(
                        name@,
                        AppProblem::TooSmall,
                    )
                } else {
                    r is Ok
                },
            }
        }),
{
    let coords = [('x', x), ('y', y), ('w', w), ('h', h)];
    let mut i: usize = 0;
    while i < 4
        invariant
            coords@ == seq![('x', x), ('y', y), ('w', w), ('h', h)],
            i <= 4,
            forall|k: int| 0 <= k < i ==> in_unit_interval(#[trigger] coords@[k].1),
        decreases 4 - i,
    {
        let (k, v) = coords[i];
        if !is_unit_fraction(v) {
            let kv = vec![k];
            let label = from_chars(kv.as_slice());
            let head = concat3("app \"", name, "\" has invalid ");
            let msg = concat3(head.as_str(), label.as_str(), ": must be within 0..1");
            proof {
                assert(kv@ =~= seq![k]);
                assert(coords@[0].1 == x && coords@[1].1 == y && coords@[2].1 == w);
            }
            return Err(WorksetError::Validation(msg));
        }
        i = i + 1;
    }
    assert(coords@[0].1 == x && coords@[1].1 == y && coords@[2].1 == w && coords@[3].1 == h);
    if is_below_min_size(w) || is_below_min_size(h) {
        return Err(WorksetError::Validation(concat3("app \"", name, "\" is too small: w/h must be >= 0.05")));
    }
    Ok(())
}

/// Validate a single app entry: a name, a layout inside the work area and
/// at least 5% wide and high, something to launch, a compilable title
/// regex, and no negative launch delay. The first failed check is reported.
pub fn validate_app(app: &WorkspaceApp) -> (r: Result<(), WorksetError>)
    ensures
        app_check_result(*app, r),
{
    if is_blank_str(app.name.as_str()) {
        return Err(WorksetError::Validation(String::from_str("app name must not be empty")));
    }
    let rect = check_rect(app.name.as_str(), app.x, app.y, app.w, app.h);
    if rect.is_err() {
        return rect;
    }
    if is_blank_str(app.exe_path.as_str()) && is_blank_str(app.url.as_str()) {
        return Err(WorksetError::Validation(concat3("app \"", app.name.as_str(), "\" needs either exe_path or url")));
    }
    match &app.match_rules.title_regex {
        Some(rx) => {
            let t = trim_str(rx.as_str());
            if t.len() > 0 {
                proof {
                    crate::text::lemma_trim_empty_iff_blank(rx@);
                }
                let pattern = from_chars(t.as_slice());
                match TitlePattern::compile(pattern.as_str()) {
                    Ok(_) => {},
                    Err(e) => {
                        let prefix = String::from_str("invalid title_regex: ");
                        let msg = prefix.concat(e.as_str());
                        proof {
                            reveal_strlit("invalid title_regex: ");
                        }
                        assert(msg@.take(21) =~= "invalid title_regex: "@);
                        return Err(WorksetError::Regex(msg));
                    },
                }
            } else {
                proof {
                    crate::text::lemma_trim_empty_iff_blank(rx@);
                }
            }
        },
        None => {},
    }
    if app.launch_delay_ms < 0 {
        return Err(WorksetError::Validation(concat3("app \"", app.name.as_str(), "\" has a negative launch delay")));
    }
    Ok(())
}

/// Validate a workspace: a non-blank name, then every app in order.
pub fn validate_workspace(ws: &Workspace) -> (r: Result<(), WorksetError>)
    ensures
        is_blank(ws.name@) ==> (r matches Err(WorksetError::Validation(m)) && m@
            == "workspace name must not be empty"@),
        !is_blank(ws.name@) ==> (r is Ok <==> forall|i: int| 0 <= i < ws.apps@.len()
            ==> app_problem(#[trigger] ws.apps@[i]) is None),
        !is_blank(ws.name@) && r is Err ==> exists|i: int| 0 <= i < ws.apps@.len()
            && app_check_result(#[trigger] ws.apps@[i], r) && forall|j: int| 0 <= j < i
            ==> app_problem(#[trigger] ws.apps@[j]) is None,
{
    if is_blank_str(ws.name.as_str()) {
        return Err(WorksetError::Validation(String::from_str("workspace name must not be empty")));
    }
    let mut i: usize = 0;
    while i < ws.apps.len()
        invariant
            i <= ws.apps@.len(),
            !is_blank(ws.name@),
            forall|j: int| 0 <= j < i ==> app_problem(#[trigger] ws.apps@[j]) is None,
        decreases ws.apps@.len() - i,
    {
        let r = validate_app(&ws.apps[i]);
        if r.is_err() {
            return r;
        }
        i = i + 1;
    }
    Ok(())
}

} // verus!
