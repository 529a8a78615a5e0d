//! Window matching: score candidate windows against an app's rules and
//! pick the best one. An invalid title regex counts as no regex.

use vstd::prelude::*;

use crate::models::{CapturedWindow, MatchRules};
use crate::pattern::{regex_matches, regex_valid, TitlePattern};
use crate::text::{
    contains_chars, eq_ignore_ascii_case, from_chars, has_substr, is_blank, lowercase, to_chars,
    to_lowercase, trim, trim_str, ascii_lower_seq, lemma_trim_empty_iff_blank,
};

verus! {

/// The trimmed text of an optional rule, when it is not blank.
pub open spec fn rule_text(opt: Option<String>) -> Option<Seq<char>> {
    match opt {
        Some(s) => if trim(s@).len() > 0 { Some(trim(s@)) } else { None },
        None => None,
    }
}

/// The trimmed value of an optional rule, or `None` when absent or blank.
pub fn non_empty(opt: &Option<String>) -> (r: Option<String>)
    ensures
        match rule_text(*opt) {
            Some(t) => r matches Some(s) && s@ == t,
            None => r is None,
        },
{
    match opt {
        Some(s) => {
            let t = trim_str(s.as_str());
            if t.len() > 0 {
                Some(from_chars(t.as_slice()))
            } else {
                None
            }
        },
        None => None,
    }
}

/// Executable hints of operating-system windows; matching them is penalized.
pub open spec fn system_hints() -> Seq<Seq<char>> {
    seq![
        "system32"@, "syswow64"@, "sihost"@, "shellexperiencehost"@, "textinputhost"@,
        "applicationframehost"@, "startmenuexperiencehost"@, "searchhost"@, "dwm.exe"@,
        "winlogon"@, "csrss"@, "smss"@, "services.exe"@, "lsass"@, "fontdrvhost"@,
    ]
}

/// `exe` holds one of the system hints.
pub open spec fn is_system_exe(exe: Seq<char>) -> bool {
    exists|k: int| 0 <= k < system_hints().len() && has_substr(exe, #[trigger] system_hints()[k])
}

/// Whether `exe` holds one of the system hints.
fn has_system_hint(exe: &[char]) -> (b: bool)
    ensures
        b == is_system_exe(exe@),
{
    let hints: Vec<&str> = vec![
        "system32", "syswow64", "sihost", "shellexperiencehost", "textinputhost",
        "applicationframehost", "startmenuexperiencehost", "searchhost", "dwm.exe",
        "winlogon", "csrss", "smss", "services.exe", "lsass", "fontdrvhost",
    ];
    assert(hints@.map_values(|s: &str| s@) =~= system_hints());
    let mut k: usize = 0;
    while k < hints.len()
        invariant
            hints@.map_values(|s: &str| s@) == system_hints(),
            k <= hints@.len(),
            forall|m: int| 0 <= m < k ==> !has_substr(exe@, #[trigger] system_hints()[m]),
        decreases hints@.len() - k,
    {
        let h = to_chars(hints[k]);
        assert(h@ == system_hints()[k as int]);
        if contains_chars(exe, h.as_slice()) {
            return true;
        }
        k = k + 1;
    }
    false
}

/// Score of the exe rule: +50 when the lower-cased exe path holds the
/// lower-cased needle.
pub open spec fn exe_points(w: CapturedWindow, rules: MatchRules) -> int {
    match rule_text(rules.exe_contains) {
        Some(n) => if has_substr(lowercase(w.exe_path@), lowercase(n)) { 50 } else { 0 },
        None => 0,
    }
}

/// Score of the class rule: +30 when the class equals, ignoring ASCII case.
pub open spec fn class_points(w: CapturedWindow, rules: MatchRules) -> int {
    match rule_text(rules.window_class) {
        Some(c) => if ascii_lower_seq(w.class@) == ascii_lower_seq(c) { 30 } else { 0 },
        None => 0,
    }
}

/// Score of the title rule: +20 when the lower-cased title holds the needle.
pub open spec fn title_points(w: CapturedWindow, rules: MatchRules) -> int {
    match rule_text(rules.title_contains) {
        Some(n) => if has_substr(lowercase(w.title@), lowercase(n)) { 20 } else { 0 },
        None => 0,
    }
}

/// Score of the regex rule: +25 when a valid regex matches the title.
pub open spec fn regex_points(w: CapturedWindow, rules: MatchRules) -> int {
    match rule_text(rules.title_regex) {
        Some(p) => if regex_valid(p) && regex_matches(p, w.title@) { 25 } else { 0 },
        None => 0,
    }
}

/// The score of a candidate window: exe +50, class +30, title +20,
/// regex +25, fresh after a launch +15, system window -50.
pub open spec fn score_spec(w: CapturedWindow, rules: MatchRules, launch_ts: Option<i64>) -> int {
    exe_points(w, rules) + class_points(w, rules) + title_points(w, rules) + regex_points(w, rules)
        + (if launch_ts is Some { 15int } else { 0 }) - (if is_system_exe(lowercase(w.exe_path@)) {
        50int
    } else {
        0
    })
}

/// More than a title substring speaks for the window: an exe, class or
/// regex hit, or its freshness after a launch.
pub open spec fn has_evidence(w: CapturedWindow, rules: MatchRules, launch_ts: Option<i64>) -> bool {
    exe_points(w, rules) > 0 || class_points(w, rules) > 0 || regex_points(w, rules) > 0 || launch_ts is Some
}

/// A window can be picked: its score is positive and it is not picked on a
/// title substring hit alone.
pub open spec fn eligible(w: CapturedWindow, rules: MatchRules, launch_ts: Option<i64>) -> bool {
    score_spec(w, rules, launch_ts) > 0 && has_evidence(w, rules, launch_ts)
}

/// Score a candidate window. Weights: exe +50, class +30, title +20,
/// regex +25, fresh-after-launch +15, system-window penalty -50.
pub fn score_window(window: &CapturedWindow, rules: &MatchRules, launch_ts: Option<i64>) -> (score: i32)
    ensures
        score == score_spec(*window, *rules, launch_ts),
{
    rate_window(window, rules, launch_ts).0
}

/// The score of a candidate window and whether more than a title substring
/// speaks for it.
fn rate_window(window: &CapturedWindow, rules: &MatchRules, launch_ts: Option<i64>) -> (r: (i32, bool))
    ensures
        r.0 == score_spec(*window, *rules, launch_ts),
        r.1 == has_evidence(*window, *rules, launch_ts),
{
    let mut evidence = launch_ts.is_some();
    let mut score: i32 = 0;
    let exe_s = to_lowercase(window.exe_path.as_str());
    let exe = to_chars(exe_s.as_str());
    match non_empty(&rules.exe_contains) {
        Some(needle) => {
            let n = to_lowercase(needle.as_str());
            let nv = to_chars(n.as_str());
            if contains_chars(exe.as_slice(), nv.as_slice()) {
                score = score + 50;
                evidence = true;
            }
        },
        None => {},
    }
    match non_empty(&rules.window_class) {
        Some(class) => {
            if eq_ignore_ascii_case(window.class.as_str(), class.as_str()) {
                score = score + 30;
                evidence = true;
            }
        },
        None => {},
    }
    match non_empty(&rules.title_contains) {
        Some(needle) => {
            let t = to_lowercase(window.title.as_str());
            let tv = to_chars(t.as_str());
            let n = to_lowercase(needle.as_str());
            let nv = to_chars(n.as_str());
            if contains_chars(tv.as_slice(), nv.as_slice()) {
                score = score + 20;
            }
        },
        None => {},
    }
    match non_empty(&rules.title_regex) {
        Some(rx) => {
            match TitlePattern::compile(rx.as_str()) {
                Ok(re) => {
                    if re.is_match(window.title.as_str()) {
                        score = score + 25;
                        evidence = true;
                    }
                },
                Err(_) => {},
            }
        },
        None => {},
    }
    if launch_ts.is_some() {
        score = score + 15;
    }
    if has_system_hint(exe.as_slice()) {
        score = score - 50;
    }
    (score, evidence)
}

/// Whether `title` satisfies the title half of the rules: a valid,
/// non-blank regex decides alone; otherwise the `title_contains` needle
/// (case-insensitive); with neither, every title matches.
pub open spec fn title_match_spec(title: Seq<char>, rules: MatchRules) -> bool {
    match rule_text(rules.title_regex) {
        Some(p) if regex_valid(p) => regex_matches(p, title),
        _ => match rule_text(rules.title_contains) {
            None => true,
            Some(n) => has_substr(lowercase(title), lowercase(n)),
        },
    }
}

/// True when `title` satisfies the title half of `rules`. A non-empty
/// `title_regex` is tried first (an invalid pattern falls back to substring
/// matching); otherwise `title_contains` applies; with neither set every
/// title matches.
pub fn is_title_match(title: &str, rules: &MatchRules) -> (b: bool)
    ensures
        b == title_match_spec(title@, *rules),
{
    match non_empty(&rules.title_regex) {
        Some(rx) => {
            match TitlePattern::compile(rx.as_str()) {
                Ok(re) => {
                    return re.is_match(title);
                },
                Err(_) => {},
            }
        },
        None => {},
    }
    match non_empty(&rules.title_contains) {
        None => true,
        Some(needle) => {
            let t = to_lowercase(title);
            let tv = to_chars(t.as_str());
            let n = to_lowercase(needle.as_str());
            let nv = to_chars(n.as_str());
            contains_chars(tv.as_slice(), nv.as_slice())
        },
    }
}

/// Best candidate among the first `n`: the first index of the largest score
/// among the eligible windows (-1 and 0 when none is eligible).
pub open spec fn best_candidate(
    cands: Seq<CapturedWindow>,
    rules: MatchRules,
    launch_ts: Option<i64>,
    n: int,
) -> (int, int)
    decreases n,
{
    if n <= 0 {
        (-1, 0)
    } else {
        let prev = best_candidate(cands, rules, launch_ts, n - 1);
        let s = score_spec(cands[n - 1], rules, launch_ts);
        if eligible(cands[n - 1], rules, launch_ts) && (prev.0 < 0 || s > prev.1) { (n - 1, s) } else { prev }
    }
}

/// What `find_best_with` chooses: among the windows with a positive score
/// that are backed by more than a title substring hit, the first of the
/// largest score.
pub open spec fn find_best_spec(cands: Seq<CapturedWindow>, rules: MatchRules, launch_ts: Option<i64>) -> Option<CapturedWindow> {
    let b = best_candidate(cands, rules, launch_ts, cands.len() as int);
    if b.0 >= 0 { Some(cands[b.0]) } else { None }
}

/// The best candidate is the first of the largest positive score.
pub proof fn lemma_best_candidate(cands: Seq<CapturedWindow>, rules: MatchRules, launch_ts: Option<i64>, n: int)
    requires
        0 <= n <= cands.len(),
    ensures
        ({
            let (i, s) = best_candidate(cands, rules, launch_ts, n);
            &&& -1 <= i < n
            &&& i >= 0 ==> s == score_spec(cands[i], rules, launch_ts) && eligible(cands[i], rules, launch_ts)
            &&& i < 0 ==> forall|j: int| 0 <= j < n ==> !eligible(#[trigger] cands[j], rules, launch_ts)
            &&& i >= 0 ==> forall|j: int| 0 <= j < n && eligible(#[trigger] cands[j], rules, launch_ts)
                ==> score_spec(cands[j], rules, launch_ts) <= s
            &&& i >= 0 ==> forall|j: int| 0 <= j < i && eligible(#[trigger] cands[j], rules, launch_ts)
                ==> score_spec(cands[j], rules, launch_ts) < s
        }),
    decreases n,
{
    if n > 0 {
        lemma_best_candidate(cands, rules, launch_ts, n - 1);
    }
}

/// Best candidate with a positive score, or `None`.
pub fn find_best(candidates: &[CapturedWindow], rules: &MatchRules) -> (r: Option<CapturedWindow>)
    ensures
        r == find_best_spec(candidates@, *rules, None),
{
    find_best_with(candidates, rules, None)
}

/// Best candidate with a positive score (ties keep the earlier window),
/// or `None`.
pub fn find_best_with(
    candidates: &[CapturedWindow],
    rules: &MatchRules,
    launch_ts: Option<i64>,
) -> (r: Option<CapturedWindow>)
    ensures
        r == find_best_spec(candidates@, *rules, launch_ts),
{
    let mut best: usize = 0;
    let mut found = false;
    let mut best_score: i32 = 0;
    let mut i: usize = 0;
    while i < candidates.len()
        invariant
            i <= candidates@.len(),
            best_candidate(candidates@, *rules, launch_ts, i as int) == (
                if found { best as int } else { -1 },
                if found { best_score as int } else { 0 },
            ),
            found ==> best < candidates@.len(),
        decreases candidates@.len() - i,
    {
        let (s, evidence) = rate_window(&candidates[i], rules, launch_ts);
        if s > 0 && evidence && (!found || s > best_score) {
            best = i;
            best_score = s;
            found = true;
        }
        i = i + 1;
    }
    if found {
        Some(candidates[best].copy())
    } else {
        None
    }
}

/// A window is never picked on a title substring hit alone: whatever is
/// picked has a positive score and an exe, class or regex hit, or is fresh
/// after a launch.
pub proof fn lemma_no_title_only_pick(cands: Seq<CapturedWindow>, rules: MatchRules, launch_ts: Option<i64>)
    ensures
        find_best_spec(cands, rules, launch_ts) matches Some(w) ==> score_spec(w, rules, launch_ts) > 0
            && has_evidence(w, rules, launch_ts),
{
    lemma_best_candidate(cands, rules, launch_ts, cands.len() as int);
}

/// The system-window penalty applies exactly to exe paths that hold one of
/// the names of the operating system's own processes and folders:
/// system32, syswow64, sihost, shellexperiencehost, textinputhost,
/// applicationframehost, startmenuexperiencehost, searchhost, dwm.exe,
/// winlogon, csrss, smss, services.exe, lsass and fontdrvhost.
pub proof fn lemma_system_exe_names(exe: Seq<char>)
    ensures
        is_system_exe(exe) <==> (has_substr(exe, "system32"@) || has_substr(exe, "syswow64"@) || has_substr(exe, "sihost"@)
            || has_substr(exe, "shellexperiencehost"@) || has_substr(exe, "textinputhost"@)
            || has_substr(exe, "applicationframehost"@) || has_substr(exe, "startmenuexperiencehost"@)
            || has_substr(exe, "searchhost"@) || has_substr(exe, "dwm.exe"@) || has_substr(exe, "winlogon"@)
            || has_substr(exe, "csrss"@) || has_substr(exe, "smss"@) || has_substr(exe, "services.exe"@)
            || has_substr(exe, "lsass"@) || has_substr(exe, "fontdrvhost"@)),
{
    let h = system_hints();
    assert(h.len() == 15);
    assert(h[0] == "system32"@ && h[1] == "syswow64"@ && h[2] == "sihost"@ && h[3] == "shellexperiencehost"@);
    assert(h[4] == "textinputhost"@ && h[5] == "applicationframehost"@ && h[6] == "startmenuexperiencehost"@);
    assert(h[7] == "searchhost"@ && h[8] == "dwm.exe"@ && h[9] == "winlogon"@ && h[10] == "csrss"@);
    assert(h[11] == "smss"@ && h[12] == "services.exe"@ && h[13] == "lsass"@ && h[14] == "fontdrvhost"@);
    if is_system_exe(exe) {
        let k = choose|k: int| 0 <= k < h.len() && has_substr(exe, #[trigger] h[k]);
        assert(0 <= k < 15);
    }
}

/// A window found by its exe alone scores 50 and is picked: under a rule
/// that only names an exe needle, a window whose lower-cased exe path
/// holds the lower-cased needle and none of the system names is scored 50
/// and is the one `find_best` returns among itself alone.
pub proof fn lemma_exe_hit_is_picked(w: CapturedWindow, rules: MatchRules)
    requires
        rule_text(rules.exe_contains) is Some,
        has_substr(lowercase(w.exe_path@), lowercase(rule_text(rules.exe_contains)->0)),
        rules.title_contains is None,
        rules.title_regex is None,
        rules.window_class is None,
        !(has_substr(lowercase(w.exe_path@), "system32"@) || has_substr(lowercase(w.exe_path@), "syswow64"@)
            || has_substr(lowercase(w.exe_path@), "sihost"@) || has_substr(lowercase(w.exe_path@), "shellexperiencehost"@)
            || has_substr(lowercase(w.exe_path@), "textinputhost"@)
            || has_substr(lowercase(w.exe_path@), "applicationframehost"@)
            || has_substr(lowercase(w.exe_path@), "startmenuexperiencehost"@)
            || has_substr(lowercase(w.exe_path@), "searchhost"@) || has_substr(lowercase(w.exe_path@), "dwm.exe"@)
            || has_substr(lowercase(w.exe_path@), "winlogon"@) || has_substr(lowercase(w.exe_path@), "csrss"@)
            || has_substr(lowercase(w.exe_path@), "smss"@) || has_substr(lowercase(w.exe_path@), "services.exe"@)
            || has_substr(lowercase(w.exe_path@), "lsass"@) || has_substr(lowercase(w.exe_path@), "fontdrvhost"@)),
    ensures
        score_spec(w, rules, None) == 50,
        find_best_spec(seq![w], rules, None) == Some(w),
{
    lemma_system_exe_names(lowercase(w.exe_path@));
    let c = seq![w];
    assert(best_candidate(c, rules, None, 0) == (-1int, 0int));
    assert(eligible(c[0], rules, None));
    assert(best_candidate(c, rules, None, 1) == (0int, 50int));
}

} // verus!
