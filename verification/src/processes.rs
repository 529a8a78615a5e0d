//! Launch targets: URL detection, executable validation and the command
//! that starts an app. Nothing here goes through a shell string: the plan
//! hands the program and its arguments over separately.

use vstd::prelude::*;

use crate::error::{ErrorKind, WorksetError, error_kind, error_detail};
use crate::paths::{extension, extension_spec};
use crate::text::{lemma_trim_idempotent, lemma_has_pair,
    ascii_lower_chars, ascii_lower_seq, chars_eq, contains_char, contains_chars, from_chars,
    has_substr, is_blank, is_blank_str, to_chars, trim, trim_str, copy_str,
};
use crate::models::{concat3, copy_strings};

verus! {

/// A character allowed in a URL scheme.
pub open spec fn is_scheme_char(c: char) -> bool {
    ('a' <= c && c <= 'z') || ('A' <= c && c <= 'Z') || ('0' <= c && c <= '9') || c == '+'
        || c == '-' || c == '.'
}

/// Index of the first `c` in `s`, or -1.
pub open spec fn first_index_of(s: Seq<char>, c: char) -> int
    decreases s.len(),
{
    if s.len() == 0 {
        -1
    } else if s[0] == c {
        0
    } else if first_index_of(s.drop_first(), c) < 0 {
        -1
    } else {
        first_index_of(s.drop_first(), c) + 1
    }
}

proof fn lemma_first_index_of(s: Seq<char>, c: char)
    ensures
        -1 <= first_index_of(s, c) < s.len(),
        first_index_of(s, c) >= 0 ==> s[first_index_of(s, c)] == c,
        forall|k: int| 0 <= k < s.len() && (first_index_of(s, c) < 0 || k < first_index_of(s, c))
            ==> #[trigger] s[k] != c,
    decreases s.len(),
{
    if s.len() > 0 && s[0] != c {
        lemma_first_index_of(s.drop_first(), c);
        assert forall|k: int| 0 <= k < s.len() && (first_index_of(s, c) < 0 || k < first_index_of(s, c))
            implies #[trigger] s[k] != c by {
            if k > 0 {
                assert(s[k] == s.drop_first()[k - 1]);
            }
        }
    }
}

/// A target is a URL when, trimmed, it is not empty and either holds
/// `://` or starts with a scheme of 2 to 32 letters, digits, `+`, `-` or
/// `.` followed by `:` (so a `C:` drive prefix is a file, not a scheme).
pub open spec fn url_spec(s: Seq<char>) -> bool {
    let t = trim(s);
    let k = first_index_of(t, ':');
    t.len() > 0 && (has_substr(t, seq![':', '/', '/']) || (k >= 2 && k <= 32 && forall|i: int|
        0 <= i < k ==> is_scheme_char(#[trigger] t[i])))
}

/// Whether a target is a URL does not depend on surrounding whitespace.
pub proof fn lemma_url_ignores_padding(s: Seq<char>)
    ensures
        url_spec(trim(s)) == url_spec(s),
{
    lemma_trim_idempotent(s);
}

/// Heuristic: is this target a URL/protocol rather than a file path?
/// Single-letter `C:` drive prefixes are files, not schemes.
pub fn is_url_target(s: &str) -> (b: bool)
    ensures
        b == url_spec(s@),
{
    let t = trim_str(s);
    if t.len() == 0 {
        return false;
    }
    let sep = vec![':', '/', '/'];
    assert(sep@ =~= seq![':', '/', '/']);
    if contains_chars(t.as_slice(), sep.as_slice()) {
        return true;
    }
    proof {
        lemma_first_index_of(t@, ':');
    }
    let mut k: usize = 0;
    while k < t.len() && t[k] != ':'
        invariant
            k <= t@.len(),
            forall|m: int| 0 <= m < k ==> t@[m] != ':',
        decreases t@.len() - k,
    {
        k = k + 1;
    }
    if k == t.len() {
        assert(first_index_of(t@, ':') < 0) by {
            if first_index_of(t@, ':') >= 0 {
                assert(t@[first_index_of(t@, ':')] == ':');
            }
        }
        return false;
    }
    assert(first_index_of(t@, ':') == k) by {
        if first_index_of(t@, ':') < k {
            assert(t@[first_index_of(t@, ':')] == ':');
        }
    }
    if k < 2 || k > 32 {
        return false;
    }
    let mut i: usize = 0;
    while i < k
        invariant
            k <= t@.len(),
            t@ == trim(s@),
            t@.len() > 0,
            !has_substr(t@, seq![':', '/', '/']),
            first_index_of(t@, ':') == k,
            2 <= k <= 32,
            i <= k,
            forall|m: int| 0 <= m < i ==> is_scheme_char(#[trigger] t@[m]),
        decreases k - i,
    {
        let c = t[i];
        if !(('a' <= c && c <= 'z') || ('A' <= c && c <= 'Z') || ('0' <= c && c <= '9') || c == '+'
            || c == '-' || c == '.') {
            assert(!is_scheme_char(t@[i as int]));
            return false;
        }
        i = i + 1;
    }
    true
}

/// `t` holds a character or token that is never allowed in an exe path.
pub open spec fn has_forbidden(t: Seq<char>) -> bool {
    t.contains('\0') || t.contains('\n') || t.contains('\r') || t.contains('`') || t.contains(';')
        || has_substr(t, seq!['$', '(']) || has_substr(t, seq!['$', '{'])
        || has_substr(t, seq!['&', '&']) || has_substr(t, seq!['|', '|'])
}

/// The file types that can be launched.
pub open spec fn allowed_extensions() -> Seq<Seq<char>> {
    seq![
        "exe"@, "com"@, "bat"@, "cmd"@, "lnk"@, "url"@, "msi"@, "ps1"@, "vbs"@, "wsf"@,
        "appref-ms"@,
    ]
}

/// Why an executable path is refused, if it is: the error variant and
/// message. `exists` and `is_dir` describe the trimmed path on disk.
pub open spec fn exe_check_spec(path: Seq<char>, exists: bool, is_dir: bool) -> Option<(ErrorKind, Seq<char>)> {
    let t = trim(path);
    if t.len() == 0 {
        Some((ErrorKind::Validation, "executable path is empty"@))
    } else if has_forbidden(t) {
        Some((ErrorKind::Validation, "executable path contains disallowed characters: "@ + t))
    } else if url_spec(t) {
        None
    } else if !exists {
        Some((ErrorKind::NotFound, "executable not found: "@ + t))
    } else if is_dir {
        Some((ErrorKind::Validation, "launch target is a directory: "@ + t))
    } else {
        let e = match extension_spec(t) {
            Some(e) => ascii_lower_seq(e),
            None => Seq::<char>::empty(),
        };
        if allowed_extensions().contains(e) {
            None
        } else {
            Some((ErrorKind::Validation, "file type ."@ + e + " is not launchable"@))
        }
    }
}

/// `r` is the outcome `o` describes: `Ok` for `None`, else that error.
pub open spec fn outcome_is(r: Result<(), WorksetError>, o: Option<(ErrorKind, Seq<char>)>) -> bool {
    match o {
        None => r is Ok,
        Some((k, m)) => r matches Err(e) && error_kind(e) == k && error_detail(e) == m,
    }
}

/// Whether a lower-cased extension is one of the launchable types.
fn is_allowed_extension(e: &[char]) -> (b: bool)
    ensures
        b == allowed_extensions().contains(e@),
{
    let list: Vec<&str> = vec![
        "exe", "com", "bat", "cmd", "lnk", "url", "msi", "ps1", "vbs", "wsf", "appref-ms",
    ];
    assert(list@.map_values(|s: &str| s@) =~= allowed_extensions());
    let mut k: usize = 0;
    while k < list.len()
        invariant
            list@.map_values(|s: &str| s@) == allowed_extensions(),
            k <= list@.len(),
            forall|m: int| 0 <= m < k ==> allowed_extensions()[m] != e@,
        decreases list@.len() - k,
    {
        let cand = to_chars(list[k]);
        assert(cand@ == allowed_extensions()[k as int]);
        if chars_eq(cand.as_slice(), e) {
            return true;
        }
        k = k + 1;
    }
    false
}

/// Whether the path names something on disk (`Path::exists`). Depends on
/// the file system at the moment of the call, so nothing is claimed.
#[verifier::external_body]
fn path_exists(p: &str) -> bool {
    std::path::Path::new(p).exists()
}

/// Whether the path names a directory (`Path::is_dir`). Depends on the file
/// system at the moment of the call, so nothing is claimed.
#[verifier::external_body]
fn path_is_dir(p: &str) -> bool {
    std::path::Path::new(p).is_dir()
}

/// Validate an executable path against what is known of it on disk:
/// non-empty, no shell-injection characters, and either a URL or an
/// existing file of a launchable type (a file without an extension has
/// none).
pub fn validate_exe_with(path: &str, exists: bool, is_dir: bool) -> (r: Result<(), WorksetError>)
    ensures
        outcome_is(r, exe_check_spec(path@, exists, is_dir)),
{
    let tv = trim_str(path);
    let t = from_chars(tv.as_slice());
    if tv.len() == 0 {
        return Err(WorksetError::Validation(String::from_str("executable path is empty")));
    }
    let s = tv.as_slice();
    let d = vec!['$', '('];
    let b = vec!['$', '{'];
    let a = vec!['&', '&'];
    let o = vec!['|', '|'];
    assert(d@ =~= seq!['$', '('] && b@ =~= seq!['$', '{'] && a@ =~= seq!['&', '&'] && o@ =~= seq!['|', '|']);
    if contains_char(s, '\0') || contains_char(s, '\n') || contains_char(s, '\r')
        || contains_char(s, '`') || contains_char(s, ';') || contains_chars(s, d.as_slice())
        || contains_chars(s, b.as_slice()) || contains_chars(s, a.as_slice())
        || contains_chars(s, o.as_slice()) {
        let msg = String::from_str("executable path contains disallowed characters: ").concat(t.as_str());
        return Err(WorksetError::Validation(msg));
    }
    if is_url_target(t.as_str()) {
        return Ok(());
    }
    if !exists {
        return Err(WorksetError::NotFound(String::from_str("executable not found: ").concat(t.as_str())));
    }
    if is_dir {
        return Err(WorksetError::Validation(String::from_str("launch target is a directory: ").concat(t.as_str())));
    }
    let e: Vec<char> = match extension(s) {
        Some(ext) => ascii_lower_chars(ext.as_slice()),
        None => Vec::new(),
    };
    proof {
        if extension_spec(tv@) is None {
            assert(e@ =~= Seq::<char>::empty());
        }
    }
    if !is_allowed_extension(e.as_slice()) {
        let es = from_chars(e.as_slice());
        return Err(WorksetError::Validation(concat3("file type .", es.as_str(), " is not launchable")));
    }
    Ok(())
}

/// Validate an executable path: non-empty, no shell-injection tokens, an
/// allowed file type that exists (URLs skip the existence check). The file
/// system is consulted for the trimmed path; the result is the one
/// `validate_exe_with` gives for what it reported.
pub fn validate_exe(path: &str) -> (r: Result<(), WorksetError>)
    ensures
        exists|e: bool, d: bool| outcome_is(r, exe_check_spec(path@, e, d)),
{
    let tv = trim_str(path);
    let t = from_chars(tv.as_slice());
    let e = path_exists(t.as_str());
    let d = path_is_dir(t.as_str());
    let r = validate_exe_with(path, e, d);
    assert(outcome_is(r, exe_check_spec(path@, e, d)));
    r
}


/// How to start an app: the program, its arguments and, when set, the
/// working directory. `cmd /C start` is used for anything that is not a
/// plain `.exe`/`.com` file, so that shell associations resolve.
#[derive(Debug, Clone, PartialEq, Eq)]
pub struct LaunchPlan {
    pub program: String,
    pub args: Vec<String>,
    pub cwd: Option<String>,
}

/// The launch plan as plain sequences.
pub struct PlanSpec {
    pub program: Seq<char>,
    pub args: Seq<Seq<char>>,
    pub cwd: Option<Seq<char>>,
}

/// `cmd /C start ""`, the prefix of every shell-association launch.
pub open spec fn start_prefix() -> Seq<Seq<char>> {
    seq!["/C"@, "start"@, Seq::<char>::empty()]
}

/// What launching an app entry amounts to. `exists`, `is_dir` describe the
/// trimmed exe path on disk, `cwd_is_dir` the working directory.
pub open spec fn plan_spec(
    exe_path: Seq<char>,
    args: Seq<Seq<char>>,
    cwd: Seq<char>,
    url: Seq<char>,
    exists: bool,
    is_dir: bool,
    cwd_is_dir: bool,
) -> Result<PlanSpec, (ErrorKind, Seq<char>)> {
    let exe = trim(exe_path);
    if exe.len() == 0 {
        let u = trim(url);
        if u.len() == 0 {
            Err((ErrorKind::Validation, "nothing to launch: exe_path and url are both empty"@))
        } else {
            Ok(PlanSpec { program: "cmd"@, args: start_prefix().push(u), cwd: None })
        }
    } else {
        match exe_check_spec(exe, exists, is_dir) {
            Some(e) => Err(e),
            None => {
                let ext = match extension_spec(exe) {
                    Some(e) => ascii_lower_seq(e),
                    None => Seq::<char>::empty(),
                };
                let direct = (ext == "exe"@ || ext == "com"@) && !url_spec(exe);
                if direct {
                    if !is_blank(cwd) {
                        if !cwd_is_dir {
                            Err((ErrorKind::Validation, "working directory does not exist: "@ + cwd))
                        } else {
                            Ok(PlanSpec { program: exe, args, cwd: Some(cwd) })
                        }
                    } else {
                        Ok(PlanSpec { program: exe, args, cwd: None })
                    }
                } else {
                    let dir: Seq<Seq<char>> = if !is_blank(cwd) && cwd_is_dir {
                        seq!["/D"@, cwd]
                    } else {
                        Seq::empty()
                    };
                    Ok(PlanSpec { program: "cmd"@, args: start_prefix() + dir + seq![exe] + args, cwd: None })
                }
            },
        }
    }
}

/// `r` is the plan or error that `p` describes.
pub open spec fn plan_is(r: Result<LaunchPlan, WorksetError>, p: Result<PlanSpec, (ErrorKind, Seq<char>)>) -> bool {
    match p {
        Ok(ps) => r matches Ok(lp) && lp.program@ == ps.program && lp.args.deep_view() == ps.args
            && match ps.cwd {
            Some(c) => lp.cwd matches Some(d) && d@ == c,
            None => lp.cwd is None,
        },
        Err((k, m)) => r matches Err(e) && error_kind(e) == k && error_detail(e) == m,
    }
}

/// Strings of `v` appended to `out`.
fn append_strings(out: &mut Vec<String>, v: &[String])
    ensures
        final(out).deep_view() == old(out).deep_view() + v.deep_view(),
{
    let ghost base = out.deep_view();
    let mut i: usize = 0;
    while i < v.len()
        invariant
            i <= v@.len(),
            out.deep_view() == base + v.deep_view().take(i as int),
        decreases v@.len() - i,
    {
        let ghost prev = out.deep_view();
        let c = v[i].clone();
        out.push(c);
        assert(out.deep_view() =~= prev.push(v@[i as int]@));
        i = i + 1;
        assert(out.deep_view() =~= base + v.deep_view().take(i as int));
    }
    assert(v.deep_view().take(v@.len() as int) =~= v.deep_view());
}

/// `cmd /C start ""` as arguments.
fn start_args() -> (v: Vec<String>)
    ensures
        v.deep_view() == start_prefix(),
{
    let mut v: Vec<String> = Vec::new();
    v.push(String::from_str("/C"));
    v.push(String::from_str("start"));
    v.push(String::new());
    assert(v.deep_view() =~= start_prefix());
    v
}

/// Plan the launch of an app entry from what is known of the disk:
/// `.exe`/`.com` files start directly (in `cwd`, which must then exist);
/// anything else (`.lnk`, `.bat`, URLs, ...) goes through `cmd /C start`;
/// an entry without exe opens its URL.
pub fn plan_launch_with(
    exe_path: &str,
    args: &[String],
    cwd: &str,
    url: &str,
    exists: bool,
    is_dir: bool,
    cwd_is_dir: bool,
) -> (r: Result<LaunchPlan, WorksetError>)
    ensures
        plan_is(r, plan_spec(exe_path@, args.deep_view(), cwd@, url@, exists, is_dir, cwd_is_dir)),
{
    let ev = trim_str(exe_path);
    let exe = from_chars(ev.as_slice());
    if ev.len() == 0 {
        let uv = trim_str(url);
        if uv.len() == 0 {
            return Err(WorksetError::Validation(String::from_str("nothing to launch: exe_path and url are both empty")));
        }
        let mut a = start_args();
        let ghost base = a.deep_view();
        a.push(from_chars(uv.as_slice()));
        assert(a.deep_view() =~= base.push(uv@));
        return Ok(LaunchPlan { program: String::from_str("cmd"), args: a, cwd: None });
    }
    match validate_exe_with(exe.as_str(), exists, is_dir) {
        Err(e) => {
            return Err(e);
        },
        Ok(()) => {},
    }
    let ext = match extension(ev.as_slice()) {
        Some(e) => ascii_lower_chars(e.as_slice()),
        None => Vec::new(),
    };
    let exe_ext = to_chars("exe");
    let com_ext = to_chars("com");
    let direct = (chars_eq(ext.as_slice(), exe_ext.as_slice()) || chars_eq(ext.as_slice(), com_ext.as_slice()))
        && !is_url_target(exe.as_str());
    proof {
        if extension_spec(ev@) is None {
            assert(ext@ =~= Seq::<char>::empty());
        }
    }
    if direct {
        if !is_blank_str(cwd) {
            if !cwd_is_dir {
                return Err(WorksetError::Validation(String::from_str("working directory does not exist: ").concat(cwd)));
            }
            let mut a: Vec<String> = Vec::new();
            append_strings(&mut a, args);
            assert(a.deep_view() =~= args.deep_view());
            return Ok(LaunchPlan { program: exe, args: a, cwd: Some(copy_str(cwd)) });
        }
        let mut a: Vec<String> = Vec::new();
        append_strings(&mut a, args);
        assert(a.deep_view() =~= args.deep_view());
        Ok(LaunchPlan { program: exe, args: a, cwd: None })
    } else {
        let mut a = start_args();
        let ghost base = a.deep_view();
        let with_dir = !is_blank_str(cwd) && cwd_is_dir;
        if with_dir {
            a.push(String::from_str("/D"));
            a.push(copy_str(cwd));
        }
        let ghost mid = a.deep_view();
        assert(mid =~= base + (if with_dir { seq!["/D"@, cwd@] } else { Seq::<Seq<char>>::empty() }));
        a.push(exe.clone());
        append_strings(&mut a, args);
        assert(a.deep_view() =~= mid + seq![ev@] + args.deep_view());
        Ok(LaunchPlan { program: String::from_str("cmd"), args: a, cwd: None })
    }
}

/// Plan the launch of an app entry, consulting the file system for the
/// exe path and the working directory. The plan is the one
/// `plan_launch_with` gives for what the file system reported.
pub fn plan_launch(exe_path: &str, args: &[String], cwd: &str, url: &str) -> (r: Result<LaunchPlan, WorksetError>)
    ensures
        exists|e: bool, d: bool, c: bool| plan_is(r, plan_spec(exe_path@, args.deep_view(), cwd@, url@, e, d, c)),
{
    let ev = trim_str(exe_path);
    let exe = from_chars(ev.as_slice());
    let e = path_exists(exe.as_str());
    let d = path_is_dir(exe.as_str());
    let c = path_is_dir(cwd);
    let r = plan_launch_with(exe_path, args, cwd, url, e, d, c);
    assert(plan_is(r, plan_spec(exe_path@, args.deep_view(), cwd@, url@, e, d, c)));
    r
}

/// `has_forbidden` read character by character.
proof fn lemma_forbidden_chars(t: Seq<char>)
    ensures
        has_forbidden(t) == (exists|i: int| 0 <= i < t.len() && (#[trigger] t[i] == '\0' || t[i] == '\n' || t[i] == '\r' || t[i] == '`' || t[i] == ';' || (i + 1 < t.len() && ((t[i] == '$' && (t[i + 1] == '(' || t[i + 1] == '{')) || (t[i] == '&' && t[i + 1] == '&') || (t[i] == '|' && t[i + 1] == '|'))))),
{
    lemma_has_pair(t, '$', '(');
    lemma_has_pair(t, '$', '{');
    lemma_has_pair(t, '&', '&');
    lemma_has_pair(t, '|', '|');
    if (exists|i: int| 0 <= i < t.len() && (#[trigger] t[i] == '\0' || t[i] == '\n' || t[i] == '\r' || t[i] == '`' || t[i] == ';' || (i + 1 < t.len() && ((t[i] == '$' && (t[i + 1] == '(' || t[i + 1] == '{')) || (t[i] == '&' && t[i + 1] == '&') || (t[i] == '|' && t[i + 1] == '|'))))) {
        let i = choose|i: int| 0 <= i < t.len() && (#[trigger] t[i] == '\0' || t[i] == '\n' || t[i] == '\r' || t[i] == '`' || t[i] == ';' || (i + 1 < t.len() && ((t[i] == '$' && (t[i + 1] == '(' || t[i + 1] == '{')) || (t[i] == '&' && t[i + 1] == '&') || (t[i] == '|' && t[i + 1] == '|'))));
        assert(t.contains(t[i]));
    }
    if t.contains('\0') || t.contains('\n') || t.contains('\r') || t.contains('`') || t.contains(';') {
        let i = choose|i: int| 0 <= i < t.len() && (t[i] == '\0' || t[i] == '\n' || t[i] == '\r' || t[i] == '`' || t[i] == ';');
        assert(0 <= i < t.len() && (t[i] == '\0' || t[i] == '\n' || t[i] == '\r' || t[i] == '`' || t[i] == ';'));
    }
}

/// Which characters make an exe path unusable. The trimmed path `t` is
/// refused for its characters exactly when it holds a NUL, a line feed, a
/// carriage return, a backtick or a semicolon, or one of `$(`, `${`, `&&`,
/// `||`. Otherwise nothing about its characters is held against it: an
/// existing file whose extension is `exe` in any case is accepted, and a
/// missing one that is not a URL is reported as not found.
pub proof fn lemma_exe_disallowed_characters(path: Seq<char>, exists: bool, is_dir: bool)
    ensures
        ({
            let t = trim(path);
            let bad = exists|i: int| 0 <= i < t.len() && (#[trigger] t[i] == '\0' || t[i] == '\n' || t[i] == '\r'
                || t[i] == '`' || t[i] == ';' || (i + 1 < t.len() && ((t[i] == '$' && (t[i + 1] == '(' || t[i + 1] == '{'))
                || (t[i] == '&' && t[i + 1] == '&') || (t[i] == '|' && t[i + 1] == '|'))));
            &&& t.len() > 0 && bad ==> exe_check_spec(path, exists, is_dir) == Some(
                (ErrorKind::Validation, "executable path contains disallowed characters: "@ + t),
            )
            &&& t.len() > 0 && !bad && exists && !is_dir && (extension_spec(t) matches Some(e) && ascii_lower_seq(e)
                == "exe"@) ==> exe_check_spec(path, exists, is_dir) is None
            &&& t.len() > 0 && !bad && !exists && !url_spec(t) ==> exe_check_spec(path, exists, is_dir) == Some(
                (ErrorKind::NotFound, "executable not found: "@ + t),
            )
        }),
{
    lemma_forbidden_chars(trim(path));
    assert(allowed_extensions()[0] == "exe"@);
}

} // verus!
