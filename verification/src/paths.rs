//! File-name parts of Windows paths: the file name, its extension and its
//! stem. Both `\` and `/` separate components, a drive prefix such as
//! `C:` is no component, and `.` components are dropped except when one
//! comes first.

use vstd::prelude::*;

verus! {

/// A path separator.
pub open spec fn is_sep(c: char) -> bool {
    c == '\\' || c == '/'
}

/// `s` without its trailing separators.
pub open spec fn strip_trailing_seps(s: Seq<char>) -> Seq<char>
    decreases s.len(),
{
    if s.len() > 0 && is_sep(s.last()) {
        strip_trailing_seps(s.drop_last())
    } else {
        s
    }
}

/// Index just after the last separator of `s` (0 when there is none).
pub open spec fn after_last_sep(s: Seq<char>) -> int
    decreases s.len(),
{
    if s.len() == 0 {
        0
    } else if is_sep(s.last()) {
        s.len() as int
    } else {
        after_last_sep(s.drop_last())
    }
}

/// Length of the drive prefix of a path: 2 for a letter and `:`, else 0.
pub open spec fn drive_len(path: Seq<char>) -> int {
    if path.len() >= 2 && path[1] == ':' && (('a' <= path[0] && path[0] <= 'z') || ('A' <= path[0] && path[0] <= 'Z')) {
        2
    } else {
        0
    }
}

/// `s` without its trailing separators and trailing `.` components; a `.`
/// that is the first component stays.
pub open spec fn strip_tail(s: Seq<char>) -> Seq<char>
    decreases s.len(),
{
    let q = strip_trailing_seps(s);
    let a = after_last_sep(q);
    if 0 < a && a < q.len() && q.subrange(a, q.len() as int) == seq!['.'] {
        proof {
            lemma_strip_trailing_seps(s);
        }
        strip_tail(q.subrange(0, a))
    } else {
        q
    }
}

/// The last component of a path (`Path::file_name`); `None` when the path
/// has no normal last component: it is empty, a root, `.` or `..`.
pub open spec fn file_name_spec(path: Seq<char>) -> Option<Seq<char>> {
    let p = strip_tail(path.subrange(drive_len(path), path.len() as int));
    let name = p.subrange(after_last_sep(p), p.len() as int);
    if name.len() == 0 || name == seq!['.'] || name == seq!['.', '.'] {
        None
    } else {
        Some(name)
    }
}

/// Index of the last `.` of `s`, or -1.
pub open spec fn last_dot(s: Seq<char>) -> int
    decreases s.len(),
{
    if s.len() == 0 {
        -1
    } else if s.last() == '.' {
        s.len() - 1
    } else {
        last_dot(s.drop_last())
    }
}

/// The extension of a file name: the text after its last `.`, unless the
/// name has no dot, starts with its only dot, or is `..`.
pub open spec fn name_extension(name: Seq<char>) -> Option<Seq<char>> {
    if name == seq!['.', '.'] || last_dot(name) <= 0 {
        None
    } else {
        Some(name.subrange(last_dot(name) + 1, name.len() as int))
    }
}

/// The extension of a path (`Path::extension`).
pub open spec fn extension_spec(path: Seq<char>) -> Option<Seq<char>> {
    match file_name_spec(path) {
        Some(n) => name_extension(n),
        None => None,
    }
}

/// The stem of a path (`Path::file_stem`): the file name without its
/// extension.
pub open spec fn stem_spec(path: Seq<char>) -> Option<Seq<char>> {
    match file_name_spec(path) {
        Some(n) => if name_extension(n) is Some { Some(n.subrange(0, last_dot(n))) } else { Some(n) },
        None => None,
    }
}

/// Removing trailing separators shortens a path and is done in one pass.
pub proof fn lemma_strip_trailing_seps(s: Seq<char>)
    ensures
        strip_trailing_seps(s).len() <= s.len(),
        strip_trailing_seps(strip_trailing_seps(s)) == strip_trailing_seps(s),
    decreases s.len(),
{
    if s.len() > 0 && is_sep(s.last()) {
        lemma_strip_trailing_seps(s.drop_last());
    }
}

proof fn lemma_after_last_sep(s: Seq<char>)
    ensures
        0 <= after_last_sep(s) <= s.len(),
        after_last_sep(s) > 0 ==> is_sep(s[after_last_sep(s) - 1]),
        forall|k: int| after_last_sep(s) <= k < s.len() ==> !is_sep(#[trigger] s[k]),
    decreases s.len(),
{
    if s.len() > 0 && !is_sep(s.last()) {
        lemma_after_last_sep(s.drop_last());
        assert forall|k: int| after_last_sep(s) <= k < s.len() implies !is_sep(#[trigger] s[k]) by {
            if k < s.len() - 1 {
                assert(s[k] == s.drop_last()[k]);
            }
        }
    }
}

proof fn lemma_last_dot(s: Seq<char>)
    ensures
        -1 <= last_dot(s) < s.len(),
        last_dot(s) >= 0 ==> s[last_dot(s)] == '.',
        forall|k: int| last_dot(s) < k < s.len() ==> #[trigger] s[k] != '.',
    decreases s.len(),
{
    if s.len() > 0 && s.last() != '.' {
        lemma_last_dot(s.drop_last());
        assert forall|k: int| last_dot(s) < k < s.len() implies #[trigger] s[k] != '.' by {
            if k < s.len() - 1 {
                assert(s[k] == s.drop_last()[k]);
            }
        }
    }
}

/// A path separator.
fn is_sep_char(c: char) -> (b: bool)
    ensures
        b == is_sep(c),
{
    c == '\\' || c == '/'
}

/// The end of `path[base..end]` without its trailing separators.
fn strip_seps_end(path: &[char], base: usize, end: usize) -> (e: usize)
    requires
        base <= end <= path@.len(),
    ensures
        base <= e <= end,
        path@.subrange(base as int, e as int) == strip_trailing_seps(path@.subrange(base as int, end as int)),
{
    let mut e: usize = end;
    while e > base && is_sep_char(path[e - 1])
        invariant
            base <= e <= end <= path@.len(),
            strip_trailing_seps(path@.subrange(base as int, e as int)) == strip_trailing_seps(
                path@.subrange(base as int, end as int),
            ),
        decreases e,
    {
        assert(path@.subrange(base as int, e as int).drop_last() =~= path@.subrange(base as int, e - 1));
        e = e - 1;
    }
    if e > base {
        assert(path@.subrange(base as int, e as int).last() == path@[e - 1]);
    }
    e
}

/// The start of the last component of `path[base..end]`.
fn last_sep_after(path: &[char], base: usize, end: usize) -> (s: usize)
    requires
        base <= end <= path@.len(),
    ensures
        base <= s <= end,
        s - base == after_last_sep(path@.subrange(base as int, end as int)),
{
    let mut s: usize = end;
    while s > base && !is_sep_char(path[s - 1])
        invariant
            base <= s <= end <= path@.len(),
            after_last_sep(path@.subrange(base as int, end as int)) == after_last_sep(
                path@.subrange(base as int, s as int),
            ),
        decreases s,
    {
        assert(path@.subrange(base as int, s as int).drop_last() =~= path@.subrange(base as int, s - 1));
        s = s - 1;
    }
    if s > base {
        assert(path@.subrange(base as int, s as int).last() == path@[s - 1]);
    }
    s
}

/// The last component of a path, as characters.
pub fn file_name(path: &[char]) -> (r: Option<Vec<char>>)
    ensures
        match file_name_spec(path@) {
            Some(n) => r matches Some(v) && v@ == n,
            None => r is None,
        },
{
    let base: usize = if path.len() >= 2 && path[1] == ':' && (('a' <= path[0] && path[0] <= 'z') || ('A' <= path[0]
        && path[0] <= 'Z')) {
        2
    } else {
        0
    };
    let ghost b = path@.subrange(base as int, path@.len() as int);
    assert(base == drive_len(path@));
    let mut e = strip_seps_end(path, base, path.len());
    proof {
        lemma_strip_trailing_seps(b);
    }
    let mut s = last_sep_after(path, base, e);
    while s > base && e - s == 1 && path[s] == '.'
        invariant
            base <= s <= e <= path@.len(),
            strip_trailing_seps(path@.subrange(base as int, e as int)) == path@.subrange(base as int, e as int),
            s - base == after_last_sep(path@.subrange(base as int, e as int)),
            strip_tail(b) == strip_tail(path@.subrange(base as int, e as int)),
        decreases e,
    {
        let ghost q = path@.subrange(base as int, e as int);
        assert(q.subrange(s - base, q.len() as int) =~= seq!['.']);
        assert(q.subrange(0, s - base) =~= path@.subrange(base as int, s as int));
        assert(strip_tail(q) == strip_tail(path@.subrange(base as int, s as int)));
        let e2 = strip_seps_end(path, base, s);
        proof {
            lemma_strip_trailing_seps(path@.subrange(base as int, s as int));
        }
        e = e2;
        s = last_sep_after(path, base, e);
    }
    let ghost q = path@.subrange(base as int, e as int);
    assert(strip_tail(q) == q) by {
        if 0 < s - base && s - base < q.len() && q.subrange(s - base, q.len() as int) == seq!['.'] {
            assert(q.subrange(s - base, q.len() as int).len() == 1);
            assert(q.subrange(s - base, q.len() as int)[0] == path@[s as int]);
            assert(false);
        }
    }
    let mut name: Vec<char> = Vec::new();
    let mut k: usize = s;
    while k < e
        invariant
            s <= k <= e <= path@.len(),
            name@ == path@.subrange(s as int, k as int),
        decreases e - k,
    {
        name.push(path[k]);
        k = k + 1;
        assert(name@ =~= path@.subrange(s as int, k as int));
    }
    assert(name@ =~= q.subrange(s - base, q.len() as int));
    if name.len() == 0 {
        None
    } else if name.len() == 1 && name[0] == '.' {
        assert(name@ =~= seq!['.']);
        None
    } else if name.len() == 2 && name[0] == '.' && name[1] == '.' {
        assert(name@ =~= seq!['.', '.']);
        None
    } else {
        assert(name@ != seq!['.']) by {
            if name@ == seq!['.'] {
                assert(name@.len() == 1 && name@[0] == '.');
            }
        }
        assert(name@ != seq!['.', '.']) by {
            if name@ == seq!['.', '.'] {
                assert(name@.len() == 2 && name@[0] == '.' && name@[1] == '.');
            }
        }
        Some(name)
    }
}

/// Index of the last `.` of a file name, if any.
fn find_last_dot(name: &[char]) -> (r: Option<usize>)
    ensures
        last_dot(name@) < 0 ==> r is None,
        last_dot(name@) >= 0 ==> r == Some(last_dot(name@) as usize),
{
    let mut i: usize = name.len();
    assert(name@.take(i as int) =~= name@);
    while i > 0
        invariant
            i <= name@.len(),
            last_dot(name@) == last_dot(name@.take(i as int)),
        decreases i,
    {
        if name[i - 1] == '.' {
            assert(name@.take(i as int).last() == '.');
            return Some(i - 1);
        }
        assert(name@.take(i as int).drop_last() =~= name@.take(i - 1));
        i = i - 1;
    }
    assert(name@.take(0) =~= Seq::<char>::empty());
    None
}

/// The characters `s[from..to]`.
fn slice_chars(s: &[char], from: usize, to: usize) -> (r: Vec<char>)
    requires
        from <= to <= s@.len(),
    ensures
        r@ == s@.subrange(from as int, to as int),
{
    let mut r: Vec<char> = Vec::new();
    let mut k: usize = from;
    while k < to
        invariant
            from <= k <= to <= s@.len(),
            r@ == s@.subrange(from as int, k as int),
        decreases to - k,
    {
        r.push(s[k]);
        k = k + 1;
        assert(r@ =~= s@.subrange(from as int, k as int));
    }
    r
}

/// The extension of a path (`Path::extension`), as characters.
pub fn extension(path: &[char]) -> (r: Option<Vec<char>>)
    ensures
        match extension_spec(path@) {
            Some(e) => r matches Some(v) && v@ == e,
            None => r is None,
        },
{
    match file_name(path) {
        Some(name) => {
            if name.len() == 2 && name[0] == '.' && name[1] == '.' {
                assert(name@ =~= seq!['.', '.']);
                return None;
            }
            assert(name@ != seq!['.', '.']) by {
                if name@ == seq!['.', '.'] {
                    assert(name@.len() == 2 && name@[0] == '.' && name@[1] == '.');
                }
            }
            proof {
                lemma_last_dot(name@);
            }
            match find_last_dot(name.as_slice()) {
                Some(d) => {
                    if d == 0 {
                        None
                    } else {
                        Some(slice_chars(name.as_slice(), d + 1, name.len()))
                    }
                },
                None => None,
            }
        },
        None => None,
    }
}

/// The stem of a path (`Path::file_stem`), as characters.
pub fn file_stem(path: &[char]) -> (r: Option<Vec<char>>)
    ensures
        match stem_spec(path@) {
            Some(e) => r matches Some(v) && v@ == e,
            None => r is None,
        },
{
    match file_name(path) {
        Some(name) => {
            if name.len() == 2 && name[0] == '.' && name[1] == '.' {
                assert(name@ =~= seq!['.', '.']);
                return Some(name);
            }
            assert(name@ != seq!['.', '.']) by {
                if name@ == seq!['.', '.'] {
                    assert(name@.len() == 2 && name@[0] == '.' && name@[1] == '.');
                }
            }
            proof {
                lemma_last_dot(name@);
            }
            match find_last_dot(name.as_slice()) {
                Some(d) => {
                    if d == 0 {
                        Some(name)
                    } else {
                        Some(slice_chars(name.as_slice(), 0, d))
                    }
                },
                None => Some(name),
            }
        },
        None => None,
    }
}

} // verus!
