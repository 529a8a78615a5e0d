//! Typed application settings over the string key/value settings store.

use vstd::prelude::*;

use crate::models::AppSettings;
use crate::numbers::{format_i64, format_i64_spec, lemma_parse_format_i64, parse_i64, parse_i64_spec};
use crate::text::{ascii_lower_chars, ascii_lower_seq, chars_eq, to_chars, trim, trim_str};

verus! {

/// The settings used when nothing is stored.
pub open spec fn defaults_spec() -> (Seq<char>, i64, Seq<char>, bool, bool) {
    ("system"@, 15000, "exe_and_title"@, false, true)
}

/// The settings used when nothing is stored: system theme, a 15 s window
/// timeout, exe-and-title matching, no launch confirmation, notifications on.
pub fn defaults() -> (s: AppSettings)
    ensures
        (s.theme@, s.default_timeout_ms, s.default_match_policy@, s.confirm_before_launch,
            s.notifications_enabled) == defaults_spec(),
{
    AppSettings {
        theme: String::from_str("system"),
        default_timeout_ms: 15000,
        default_match_policy: String::from_str("exe_and_title"),
        confirm_before_launch: false,
        notifications_enabled: true,
    }
}

/// A stored flag: `1 true yes on` and `0 false no off`, trimmed and
/// ignoring ASCII case; anything else is unreadable.
pub open spec fn parse_bool_spec(v: Seq<char>) -> Option<bool> {
    let t = ascii_lower_seq(trim(v));
    if t == "1"@ || t == "true"@ || t == "yes"@ || t == "on"@ {
        Some(true)
    } else if t == "0"@ || t == "false"@ || t == "no"@ || t == "off"@ {
        Some(false)
    } else {
        None
    }
}

/// Whether `t` spells the literal `lit`.
pub fn is_word(t: &[char], lit: &str) -> (b: bool)
    ensures
        b == (t@ == lit@),
{
    let l = to_chars(lit);
    chars_eq(t, l.as_slice())
}

/// Read a stored flag.
pub fn parse_bool(v: &str) -> (r: Option<bool>)
    ensures
        r == parse_bool_spec(v@),
{
    let t0 = trim_str(v);
    let tv = ascii_lower_chars(t0.as_slice());
    let t = tv.as_slice();
    if is_word(t, "1") || is_word(t, "true") || is_word(t, "yes") || is_word(t, "on") {
        Some(true)
    } else if is_word(t, "0") || is_word(t, "false") || is_word(t, "no") || is_word(t, "off") {
        Some(false)
    } else {
        None
    }
}

/// The stored text of each typed setting, when it is stored.
pub struct StoredSettings {
    pub theme: Option<String>,
    pub default_timeout_ms: Option<String>,
    pub default_match_policy: Option<String>,
    pub confirm_before_launch: Option<String>,
    pub notifications_enabled: Option<String>,
}

/// Typed settings from what is stored; a missing or unreadable value
/// takes its default.
pub open spec fn load_spec(st: StoredSettings) -> (Seq<char>, i64, Seq<char>, bool, bool) {
    let d = defaults_spec();
    (
        match st.theme {
            Some(t) => t@,
            None => d.0,
        },
        match st.default_timeout_ms {
            Some(t) => match parse_i64_spec(t@) {
                Some(n) => n,
                None => d.1,
            },
            None => d.1,
        },
        match st.default_match_policy {
            Some(t) => t@,
            None => d.2,
        },
        match st.confirm_before_launch {
            Some(t) => match parse_bool_spec(t@) {
                Some(b) => b,
                None => d.3,
            },
            None => d.3,
        },
        match st.notifications_enabled {
            Some(t) => match parse_bool_spec(t@) {
                Some(b) => b,
                None => d.4,
            },
            None => d.4,
        },
    )
}

/// The fields of typed settings as plain values.
pub open spec fn settings_view(s: AppSettings) -> (Seq<char>, i64, Seq<char>, bool, bool) {
    (s.theme@, s.default_timeout_ms, s.default_match_policy@, s.confirm_before_launch, s.notifications_enabled)
}

/// Load typed settings from the stored values, falling back to defaults
/// for missing or unreadable keys.
pub fn load(st: StoredSettings) -> (s: AppSettings)
    ensures
        settings_view(s) == load_spec(st),
{
    let d = defaults();
    let theme = match st.theme {
        Some(t) => t,
        None => d.theme,
    };
    let default_timeout_ms = match st.default_timeout_ms {
        Some(t) => match parse_i64(t.as_str()) {
            Some(n) => n,
            None => d.default_timeout_ms,
        },
        None => d.default_timeout_ms,
    };
    let default_match_policy = match st.default_match_policy {
        Some(t) => t,
        None => d.default_match_policy,
    };
    let confirm_before_launch = match st.confirm_before_launch {
        Some(t) => match parse_bool(t.as_str()) {
            Some(b) => b,
            None => d.confirm_before_launch,
        },
        None => d.confirm_before_launch,
    };
    let notifications_enabled = match st.notifications_enabled {
        Some(t) => match parse_bool(t.as_str()) {
            Some(b) => b,
            None => d.notifications_enabled,
        },
        None => d.notifications_enabled,
    };
    AppSettings { theme, default_timeout_ms, default_match_policy, confirm_before_launch, notifications_enabled }
}

/// The text stored for a flag.
pub open spec fn bool_text(b: bool) -> Seq<char> {
    if b { "true"@ } else { "false"@ }
}

/// The key/value pairs that persist typed settings, in write order.
pub open spec fn save_spec(s: AppSettings) -> Seq<(Seq<char>, Seq<char>)> {
    seq![
        ("theme"@, s.theme@),
        ("default_timeout_ms"@, format_i64_spec(s.default_timeout_ms)),
        ("default_match_policy"@, s.default_match_policy@),
        ("confirm_before_launch"@, bool_text(s.confirm_before_launch)),
        ("notifications_enabled"@, bool_text(s.notifications_enabled)),
    ]
}

/// Persist typed settings: the key/value pairs to write, in order.
pub fn save(s: &AppSettings) -> (entries: Vec<(String, String)>)
    ensures
        entries@.map_values(|e: (String, String)| (e.0@, e.1@)) == save_spec(*s),
{
    let mut v: Vec<(String, String)> = Vec::new();
    v.push((String::from_str("theme"), s.theme.clone()));
    v.push((String::from_str("default_timeout_ms"), format_i64(s.default_timeout_ms)));
    v.push((String::from_str("default_match_policy"), s.default_match_policy.clone()));
    v.push((
        String::from_str("confirm_before_launch"),
        String::from_str(if s.confirm_before_launch { "true" } else { "false" }),
    ));
    v.push((
        String::from_str("notifications_enabled"),
        String::from_str(if s.notifications_enabled { "true" } else { "false" }),
    ));
    assert(v@.map_values(|e: (String, String)| (e.0@, e.1@)) =~= save_spec(*s));
    v
}

/// Settings read back after they were saved are the settings that were
/// saved.
pub proof fn lemma_load_after_save(s: AppSettings, st: StoredSettings)
    requires
        ({
            let e = save_spec(s);
            &&& st.theme matches Some(t) && t@ == e[0].1
            &&& st.default_timeout_ms matches Some(t) && t@ == e[1].1
            &&& st.default_match_policy matches Some(t) && t@ == e[2].1
            &&& st.confirm_before_launch matches Some(t) && t@ == e[3].1
            &&& st.notifications_enabled matches Some(t) && t@ == e[4].1
        }),
    ensures
        load_spec(st) == settings_view(s),
{
    lemma_parse_format_i64(s.default_timeout_ms);
    reveal_strlit("true");
    reveal_strlit("false");
    reveal_strlit("1");
    reveal_strlit("yes");
    reveal_strlit("on");
    reveal_strlit("0");
    reveal_strlit("no");
    reveal_strlit("off");
    lemma_flag_text(true);
    lemma_flag_text(false);
}

/// A flag's stored text reads back as the flag.
proof fn lemma_flag_text(b: bool)
    ensures
        parse_bool_spec(bool_text(b)) == Some(b),
{
    reveal_strlit("true");
    reveal_strlit("false");
    reveal_strlit("1");
    reveal_strlit("yes");
    reveal_strlit("on");
    reveal_strlit("0");
    reveal_strlit("no");
    reveal_strlit("off");
    let t = bool_text(b);
    assert(crate::text::trim_start(t) == t);
    assert(crate::text::trim_end(t) == t);
    assert(ascii_lower_seq(t) =~= t);
}

} // verus!
