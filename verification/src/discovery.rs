//! App discovery: turning what was found on the machine into the list the
//! user picks from, deduplicated by lower-cased exe path and sorted.

use vstd::prelude::*;

use crate::models::DiscoveredApp;
use crate::paths::{extension, extension_spec, file_stem, stem_spec};
use crate::sorting::{key_lt, sort_indices, sorted_indices, is_stable_order, lemma_key_order, lemma_sorted_indices, Key};
use crate::text::{ascii_lower_seq, eq_ignore_ascii_case, chars_eq, copy_str, from_chars, is_blank, is_blank_str, lowercase, to_chars, to_lowercase};

verus! {

/// Launch target of a Start Menu shortcut. Resolving a `.lnk` needs COM, so
/// the shortcut itself is the launch target.
pub fn parse_lnk_target(lnk_path: &str) -> (r: String)
    ensures
        r@ == lnk_path@,
{
    copy_str(lnk_path)
}

/// Display name of a discovered file: its stem, or "Unknown" when blank.
pub open spec fn display_name_spec(path: Seq<char>) -> Seq<char> {
    match stem_spec(path) {
        Some(s) => if !is_blank(s) { s } else { "Unknown"@ },
        None => "Unknown"@,
    }
}

/// Display name of a discovered file: its stem, or "Unknown" when blank.
pub fn display_name(path: &str) -> (r: String)
    ensures
        r@ == display_name_spec(path@),
{
    let v = to_chars(path);
    match file_stem(v.as_slice()) {
        Some(s) => {
            let st = from_chars(s.as_slice());
            if !is_blank_str(st.as_str()) {
                st
            } else {
                String::from_str("Unknown")
            }
        },
        None => String::from_str("Unknown"),
    }
}

/// The entry at `i` is the first with its lower-cased exe path, and that
/// path is not blank.
pub open spec fn kept(exe_keys: Seq<Seq<char>>, i: int) -> bool {
    !is_blank(exe_keys[i]) && forall|j: int| 0 <= j < i ==> exe_keys[j] != exe_keys[i]
}

/// Indices of the kept entries among the first `n`, in order.
pub open spec fn kept_indices(exe_keys: Seq<Seq<char>>, n: int) -> Seq<int>
    decreases n,
{
    if n <= 0 {
        Seq::empty()
    } else if kept(exe_keys, n - 1) {
        kept_indices(exe_keys, n - 1).push(n - 1)
    } else {
        kept_indices(exe_keys, n - 1)
    }
}

/// The lower-cased exe paths of the found apps.
pub open spec fn exe_keys(found: Seq<DiscoveredApp>) -> Seq<Seq<char>> {
    Seq::new(found.len(), |i: int| lowercase(found[i].exe_path@))
}

/// The sort keys of the kept apps: lower-cased name, then lower-cased exe.
pub open spec fn kept_keys(found: Seq<DiscoveredApp>) -> Seq<Key> {
    let ks = kept_indices(exe_keys(found), found.len() as int);
    Seq::new(ks.len(), |p: int| (lowercase(found[ks[p]].name@), lowercase(found[ks[p]].exe_path@)))
}

/// The discovered list: one entry per lower-cased exe path (the first
/// found), no blank paths, sorted by lower-cased name then exe path.
pub open spec fn discover_spec(found: Seq<DiscoveredApp>) -> Seq<DiscoveredApp> {
    let ks = kept_indices(exe_keys(found), found.len() as int);
    let order = sorted_indices(kept_keys(found), ks.len() as int);
    Seq::new(order.len(), |p: int| found[ks[order[p]]])
}

proof fn lemma_kept_indices(keys: Seq<Seq<char>>, n: int)
    requires
        0 <= n <= keys.len(),
    ensures
        forall|p: int| 0 <= p < kept_indices(keys, n).len() ==> 0 <= #[trigger] kept_indices(keys, n)[p] < n
            && kept(keys, kept_indices(keys, n)[p]),
        forall|p: int, q: int| 0 <= p < q < kept_indices(keys, n).len() ==> kept_indices(keys, n)[p]
            < kept_indices(keys, n)[q],
        forall|i: int| 0 <= i < n && kept(keys, i) ==> kept_indices(keys, n).contains(i),
    decreases n,
{
    if n > 0 {
        lemma_kept_indices(keys, n - 1);
        let s = kept_indices(keys, n - 1);
        if kept(keys, n - 1) {
            let t = s.push(n - 1);
            assert forall|i: int| 0 <= i < n && kept(keys, i) implies t.contains(i) by {
                if i < n - 1 {
                    let p = choose|p: int| 0 <= p < s.len() && s[p] == i;
                    assert(t[p] == i);
                } else {
                    assert(t[s.len() as int] == i);
                }
            }
        }
    }
}

/// Deduplicate and sort what discovery found (Start Menu shortcuts, then
/// installed programs, then running processes): the first entry of each
/// lower-cased exe path is kept, blank paths are dropped, and the result
/// is ordered by lower-cased name, then lower-cased exe path.
pub fn discover_apps(found: Vec<DiscoveredApp>) -> (out: Vec<DiscoveredApp>)
    ensures
        out@ == discover_spec(found@),
{
    let n = found.len();
    let ghost ekeys = exe_keys(found@);
    let mut lower_exe: Vec<Vec<char>> = Vec::new();
    let mut i: usize = 0;
    while i < n
        invariant
            n == found@.len(),
            ekeys == exe_keys(found@),
            i <= n,
            lower_exe@.len() == i,
            forall|k: int| #![trigger lower_exe@[k]] 0 <= k < i ==> lower_exe@[k]@ == ekeys[k],
        decreases n - i,
    {
        let l = to_lowercase(found[i].exe_path.as_str());
        lower_exe.push(to_chars(l.as_str()));
        i = i + 1;
    }
    let mut kept_idx: Vec<usize> = Vec::new();
    let mut names: Vec<Vec<char>> = Vec::new();
    let mut exes: Vec<Vec<char>> = Vec::new();
    i = 0;
    while i < n
        invariant
            n == found@.len(),
            ekeys == exe_keys(found@),
            lower_exe@.len() == n,
            forall|k: int| #![trigger lower_exe@[k]] 0 <= k < n ==> lower_exe@[k]@ == ekeys[k],
            i <= n,
            kept_idx@.map_values(|k: usize| k as int) == kept_indices(ekeys, i as int),
            names@.len() == kept_idx@.len(),
            exes@.len() == kept_idx@.len(),
            forall|p: int| #![trigger names@[p]] 0 <= p < kept_idx@.len() ==> names@[p]@ == lowercase(found@[kept_idx@[p] as int].name@),
            forall|p: int| #![trigger exes@[p]] 0 <= p < kept_idx@.len() ==> exes@[p]@ == lowercase(found@[kept_idx@[p] as int].exe_path@),
        decreases n - i,
    {
        let key = lower_exe[i].as_slice();
        let blank = is_blank_str(from_chars(key).as_str());
        let mut dup = false;
        let mut j: usize = 0;
        while j < i && !dup
            invariant
                i < n,
                lower_exe@.len() == n,
                forall|k: int| #![trigger lower_exe@[k]] 0 <= k < n ==> lower_exe@[k]@ == ekeys[k],
                key@ == ekeys[i as int],
                j <= i,
                dup ==> exists|k: int| 0 <= k < i && ekeys[k] == ekeys[i as int],
                !dup ==> forall|k: int| 0 <= k < j ==> ekeys[k] != ekeys[i as int],
            decreases i - j + (if dup { 0int } else { 1int }),
        {
            if chars_eq(lower_exe[j].as_slice(), key) {
                dup = true;
            } else {
                j = j + 1;
            }
        }
        assert(kept(ekeys, i as int) == (!blank && !dup));
        if !blank && !dup {
            let ghost before = kept_idx@.map_values(|k: usize| k as int);
            kept_idx.push(i);
            assert(kept_idx@.map_values(|k: usize| k as int) =~= before.push(i as int));
            let ln = to_lowercase(found[i].name.as_str());
            names.push(to_chars(ln.as_str()));
            exes.push(to_chars(from_chars(key).as_str()));
        }
        i = i + 1;
    }
    proof {
        lemma_kept_indices(ekeys, n as int);
    }
    let ghost ks = kept_indices(ekeys, n as int);
    let ghost keys = kept_keys(found@);
    assert(Seq::new(names@.len(), |p: int| (names@[p]@, exes@[p]@)) =~= keys);
    let order = sort_indices(&names, &exes);
    proof {
        lemma_sorted_indices(keys, ks.len() as int);
    }
    let mut out: Vec<DiscoveredApp> = Vec::new();
    let mut p: usize = 0;
    while p < order.len()
        invariant
            n == found@.len(),
            ks == kept_indices(exe_keys(found@), n as int),
            kept_idx@.map_values(|k: usize| k as int) == ks,
            forall|q: int| 0 <= q < ks.len() ==> 0 <= #[trigger] ks[q] < n,
            keys == kept_keys(found@),
            order@.map_values(|i: usize| i as int) == sorted_indices(keys, ks.len() as int),
            is_stable_order(sorted_indices(keys, ks.len() as int), keys, ks.len() as int),
            p <= order@.len(),
            out@.len() == p,
            forall|q: int| #![trigger out@[q]] 0 <= q < p ==> out@[q] == found@[ks[sorted_indices(keys, ks.len() as int)[q]]],
        decreases order@.len() - p,
    {
        let oi = order[p];
        assert(sorted_indices(keys, ks.len() as int)[p as int] == oi as int);
        assert(kept_idx@.len() == ks.len());
        let ki = kept_idx[oi];
        assert(ks[oi as int] == ki as int);
        let a = &found[ki];
        out.push(DiscoveredApp {
            name: a.name.clone(),
            exe_path: a.exe_path.clone(),
            source: a.source.clone(),
            icon: a.icon.clone(),
        });
        p = p + 1;
    }
    assert(out@ =~= discover_spec(found@));
    out
}

/// The file's extension is one of `exts`, ignoring ASCII case.
pub open spec fn extension_in(path: Seq<char>, exts: Seq<Seq<char>>) -> bool {
    match extension_spec(path) {
        Some(e) => exists|k: int| 0 <= k < exts.len() && ascii_lower_seq(#[trigger] exts[k]) == ascii_lower_seq(e),
        None => false,
    }
}

/// Whether a file's extension is one of `exts`, ignoring ASCII case.
pub fn has_extension_in(path: &str, exts: &[&str]) -> (b: bool)
    ensures
        b == extension_in(path@, exts@.map_values(|s: &str| s@)),
{
    let pv = to_chars(path);
    let ghost views = exts@.map_values(|s: &str| s@);
    match extension(pv.as_slice()) {
        Some(e) => {
            let es = from_chars(e.as_slice());
            let mut k: usize = 0;
            while k < exts.len()
                invariant
                    k <= exts@.len(),
                    views == exts@.map_values(|s: &str| s@),
                    es@ == e@,
                    extension_spec(path@) == Some(e@),
                    forall|j: int| 0 <= j < k ==> ascii_lower_seq(#[trigger] views[j]) != ascii_lower_seq(e@),
                decreases exts@.len() - k,
            {
                assert(views[k as int] == exts@[k as int]@);
                if eq_ignore_ascii_case(exts[k], es.as_str()) {
                    assert(ascii_lower_seq(views[k as int]) == ascii_lower_seq(e@));
                    return true;
                }
                k = k + 1;
            }
            false
        },
        None => false,
    }
}

/// `d` is a discovered app with the given fields and no icon.
pub open spec fn is_entry(d: DiscoveredApp, name: Seq<char>, exe_path: Seq<char>, source: Seq<char>) -> bool {
    d.name@ == name && d.exe_path@ == exe_path && d.source@ == source && d.icon@ == Seq::<char>::empty()
}

/// The entry of a Start Menu shortcut: named after the file, launched
/// through the shortcut itself.
pub fn shortcut_entry(lnk_path: &str) -> (d: DiscoveredApp)
    ensures
        is_entry(d, display_name_spec(lnk_path@), lnk_path@, "start_menu"@),
{
    DiscoveredApp {
        name: display_name(lnk_path),
        exe_path: parse_lnk_target(lnk_path),
        source: String::from_str("start_menu"),
        icon: String::new(),
    }
}

/// The entry of an executable found among the installed programs.
pub fn installed_entry(exe_path: &str) -> (d: DiscoveredApp)
    ensures
        is_entry(d, display_name_spec(exe_path@), exe_path@, "installed"@),
{
    DiscoveredApp {
        name: display_name(exe_path),
        exe_path: copy_str(exe_path),
        source: String::from_str("installed"),
        icon: String::new(),
    }
}

/// The entry of a running process: none when its executable is unknown
/// (blank); named after the process, or after the file when the process
/// name is blank.
pub fn running_entry(exe_path: &str, process_name: &str) -> (r: Option<DiscoveredApp>)
    ensures
        is_blank(exe_path@) ==> r is None,
        !is_blank(exe_path@) ==> (r matches Some(d) && is_entry(d,
            if is_blank(process_name@) { display_name_spec(exe_path@) } else { process_name@ },
            exe_path@, "running"@)),
{
    if is_blank_str(exe_path) {
        return None;
    }
    let name = if is_blank_str(process_name) { display_name(exe_path) } else { copy_str(process_name) };
    Some(DiscoveredApp {
        name,
        exe_path: copy_str(exe_path),
        source: String::from_str("running"),
        icon: String::new(),
    })
}

/// The discovered list holds each lower-cased exe path at most once and
/// no blank one, and is ordered by lower-cased name, then lower-cased exe
/// path.
pub proof fn lemma_discovered_unique_and_sorted(found: Seq<DiscoveredApp>)
    ensures
        ({
            let out = discover_spec(found);
            &&& forall|p: int, q: int| 0 <= p < q < out.len()
                ==> lowercase(out[p].exe_path@) != lowercase(out[q].exe_path@)
            &&& forall|p: int| 0 <= p < out.len() ==> !is_blank(lowercase(#[trigger] out[p].exe_path@))
            &&& forall|p: int, q: int| 0 <= p < q < out.len() ==> !key_lt(
                (lowercase(out[q].name@), lowercase(out[q].exe_path@)),
                (lowercase(out[p].name@), lowercase(out[p].exe_path@)),
            )
        }),
{
    let keys = exe_keys(found);
    let n = found.len() as int;
    let ks = kept_indices(keys, n);
    let kk = kept_keys(found);
    lemma_kept_indices(keys, n);
    lemma_sorted_indices(kk, ks.len() as int);
    let order = sorted_indices(kk, ks.len() as int);
    let out = discover_spec(found);
    assert forall|p: int, q: int| 0 <= p < q < out.len()
        implies lowercase(out[p].exe_path@) != lowercase(out[q].exe_path@) by {
        let a = ks[order[p]];
        let b = ks[order[q]];
        assert(order[p] != order[q]);
        if order[p] < order[q] {
            assert(a < b);
            assert(kept(keys, b));
            assert(keys[a] != keys[b]);
        } else {
            assert(b < a);
            assert(kept(keys, a));
            assert(keys[b] != keys[a]);
        }
    }
    assert forall|p: int| 0 <= p < out.len() implies !is_blank(lowercase(#[trigger] out[p].exe_path@)) by {
        assert(0 <= order[p] < ks.len());
        assert(kept(keys, ks[order[p]]));
    }
    assert forall|p: int, q: int| 0 <= p < q < out.len() implies !key_lt(
        (lowercase(out[q].name@), lowercase(out[q].exe_path@)),
        (lowercase(out[p].name@), lowercase(out[p].exe_path@)),
    ) by {
        assert(!key_lt(kk[order[q]], kk[order[p]]));
    }
}

} // verus!
