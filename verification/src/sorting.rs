//! Ordering of text keys and a stable sort of indices by such keys.
//! Character sequences are compared lexicographically by code point,
//! which is the order of Rust's `String` comparison.

use vstd::prelude::*;

verus! {

/// `a` comes before `b` in lexicographic code-point order.
pub open spec fn lex_lt(a: Seq<char>, b: Seq<char>) -> bool
    decreases a.len(),
{
    if a.len() == 0 {
        b.len() > 0
    } else if b.len() == 0 {
        false
    } else if a[0] < b[0] {
        true
    } else if a[0] > b[0] {
        false
    } else {
        lex_lt(a.drop_first(), b.drop_first())
    }
}

/// A sort key: a primary and a secondary text.
pub type Key = (Seq<char>, Seq<char>);

/// `a` sorts strictly before `b`: by the primary text, then the secondary.
pub open spec fn key_lt(a: Key, b: Key) -> bool {
    lex_lt(a.0, b.0) || (a.0 == b.0 && lex_lt(a.1, b.1))
}

pub proof fn lemma_lex_irreflexive(a: Seq<char>)
    ensures
        !lex_lt(a, a),
    decreases a.len(),
{
    if a.len() > 0 {
        lemma_lex_irreflexive(a.drop_first());
    }
}

pub proof fn lemma_lex_transitive(a: Seq<char>, b: Seq<char>, c: Seq<char>)
    requires
        lex_lt(a, b),
        lex_lt(b, c),
    ensures
        lex_lt(a, c),
    decreases a.len(),
{
    if a.len() > 0 && b.len() > 0 && c.len() > 0 && a[0] == b[0] && b[0] == c[0] {
        lemma_lex_transitive(a.drop_first(), b.drop_first(), c.drop_first());
    }
}

pub proof fn lemma_lex_total(a: Seq<char>, b: Seq<char>)
    requires
        a != b,
    ensures
        lex_lt(a, b) || lex_lt(b, a),
    decreases a.len(),
{
    if a.len() > 0 && b.len() > 0 && a[0] == b[0] {
        if a.drop_first() == b.drop_first() {
            assert(a =~= seq![a[0]] + a.drop_first());
            assert(b =~= seq![b[0]] + b.drop_first());
        }
        lemma_lex_total(a.drop_first(), b.drop_first());
    } else if a.len() == 0 && b.len() == 0 {
        assert(a =~= b);
    }
}

pub proof fn lemma_key_irreflexive(a: Key)
    ensures
        !key_lt(a, a),
{
    lemma_lex_irreflexive(a.0);
    lemma_lex_irreflexive(a.1);
}

pub proof fn lemma_key_transitive(a: Key, b: Key, c: Key)
    requires
        key_lt(a, b),
        key_lt(b, c),
    ensures
        key_lt(a, c),
{
    if lex_lt(a.0, b.0) && lex_lt(b.0, c.0) {
        lemma_lex_transitive(a.0, b.0, c.0);
    } else if lex_lt(a.0, b.0) {
    } else if lex_lt(b.0, c.0) {
    } else {
        lemma_lex_transitive(a.1, b.1, c.1);
    }
}

pub proof fn lemma_key_total(a: Key, b: Key)
    requires
        a != b,
    ensures
        key_lt(a, b) || key_lt(b, a),
{
    if a.0 != b.0 {
        lemma_lex_total(a.0, b.0);
    } else {
        assert(a.1 != b.1);
        lemma_lex_total(a.1, b.1);
    }
}

/// `key_lt` over the keys of every pair of indices.
pub proof fn lemma_key_order()
    ensures
        forall|a: Key| !key_lt(a, a),
        forall|a: Key, b: Key, c: Key| key_lt(a, b) && key_lt(b, c) ==> key_lt(a, c),
        forall|a: Key, b: Key| a != b ==> key_lt(a, b) || key_lt(b, a),
{
    assert forall|a: Key| !key_lt(a, a) by {
        lemma_key_irreflexive(a);
    }
    assert forall|a: Key, b: Key, c: Key| key_lt(a, b) && key_lt(b, c) implies key_lt(a, c) by {
        lemma_key_transitive(a, b, c);
    }
    assert forall|a: Key, b: Key| a != b implies key_lt(a, b) || key_lt(b, a) by {
        lemma_key_total(a, b);
    }
}

/// Whether `a` comes before `b`.
pub fn lex_less(a: &[char], b: &[char]) -> (r: bool)
    ensures
        r == lex_lt(a@, b@),
{
    let mut i: usize = 0;
    assert(a@.skip(0) =~= a@ && b@.skip(0) =~= b@);
    while i < a.len() && i < b.len() && a[i] == b[i]
        invariant
            i <= a@.len(),
            i <= b@.len(),
            lex_lt(a@, b@) == lex_lt(a@.skip(i as int), b@.skip(i as int)),
        decreases a@.len() - i,
    {
        assert(a@.skip(i as int).drop_first() =~= a@.skip(i + 1));
        assert(b@.skip(i as int).drop_first() =~= b@.skip(i + 1));
        i = i + 1;
    }
    if i == a.len() {
        i < b.len()
    } else if i == b.len() {
        false
    } else {
        a[i] < b[i]
    }
}

/// Where index `i` goes in the sorted prefix `s`: after every index whose
/// key is not greater than its own.
pub open spec fn insert_pos(s: Seq<int>, keys: Seq<Key>, i: int) -> int
    decreases s.len(),
{
    if s.len() == 0 {
        0
    } else if key_lt(keys[i], keys[s.last()]) {
        insert_pos(s.drop_last(), keys, i)
    } else {
        s.len() as int
    }
}

/// The indices `0..n` stably sorted by their keys.
pub open spec fn sorted_indices(keys: Seq<Key>, n: int) -> Seq<int>
    decreases n,
{
    if n <= 0 {
        Seq::empty()
    } else {
        let s = sorted_indices(keys, n - 1);
        s.insert(insert_pos(s, keys, n - 1), n - 1)
    }
}

/// `s` lists `0..n` once each, in key order, equal keys in index order.
pub open spec fn is_stable_order(s: Seq<int>, keys: Seq<Key>, n: int) -> bool {
    &&& s.len() == n
    &&& forall|p: int| 0 <= p < n ==> 0 <= #[trigger] s[p] < n
    &&& forall|p: int, q: int| 0 <= p < q < n ==> s[p] != s[q]
    &&& forall|p: int, q: int| 0 <= p < q < n ==> !key_lt(keys[s[q]], keys[s[p]])
    &&& forall|p: int, q: int| 0 <= p < q < n && keys[s[p]] == keys[s[q]] ==> s[p] < s[q]
}

proof fn lemma_insert_pos(s: Seq<int>, keys: Seq<Key>, i: int)
    ensures
        0 <= insert_pos(s, keys, i) <= s.len(),
        insert_pos(s, keys, i) > 0 ==> !key_lt(keys[i], keys[s[insert_pos(s, keys, i) - 1]]),
        forall|p: int| insert_pos(s, keys, i) <= p < s.len() ==> key_lt(keys[i], keys[#[trigger] s[p]]),
    decreases s.len(),
{
    if s.len() > 0 && key_lt(keys[i], keys[s.last()]) {
        lemma_insert_pos(s.drop_last(), keys, i);
        let k = insert_pos(s, keys, i);
        assert forall|p: int| k <= p < s.len() implies key_lt(keys[i], keys[#[trigger] s[p]]) by {
            if p < s.len() - 1 {
                assert(s[p] == s.drop_last()[p]);
            }
        }
        if k > 0 {
            assert(s[k - 1] == s.drop_last()[k - 1]);
        }
    }
}

/// The stable insertion order is a stable sort of `0..n`.
pub proof fn lemma_sorted_indices(keys: Seq<Key>, n: int)
    requires
        0 <= n <= keys.len(),
    ensures
        is_stable_order(sorted_indices(keys, n), keys, n),
    decreases n,
{
    if n > 0 {
        lemma_key_order();
        lemma_sorted_indices(keys, n - 1);
        let s = sorted_indices(keys, n - 1);
        let i = n - 1;
        lemma_insert_pos(s, keys, i);
        let k = insert_pos(s, keys, i);
        let t = s.insert(k, i);
        assert(t == sorted_indices(keys, n));
        assert forall|p: int| 0 <= p < n implies 0 <= #[trigger] t[p] < n by {
            if p < k {
                assert(t[p] == s[p]);
            } else if p > k {
                assert(t[p] == s[p - 1]);
            }
        }
        assert forall|p: int, q: int| 0 <= p < q < n implies t[p] != t[q] by {
            if q < k {
                assert(t[p] == s[p] && t[q] == s[q]);
            } else if q == k {
                assert(t[p] == s[p]);
            } else if p < k {
                assert(t[p] == s[p] && t[q] == s[q - 1]);
            } else if p == k {
                assert(t[q] == s[q - 1]);
            } else {
                assert(t[p] == s[p - 1] && t[q] == s[q - 1]);
            }
        }
        assert forall|p: int, q: int| 0 <= p < q < n implies !key_lt(keys[t[q]], keys[t[p]]) by {
            if q < k {
                assert(t[p] == s[p] && t[q] == s[q]);
            } else if q == k {
                assert(t[p] == s[p]);
                if p < k - 1 {
                    if key_lt(keys[i], keys[s[p]]) {
                        assert(!key_lt(keys[s[k - 1]], keys[s[p]]));
                        if keys[s[k - 1]] != keys[s[p]] {
                            assert(key_lt(keys[s[p]], keys[s[k - 1]]));
                        }
                    }
                }
            } else if p < k {
                assert(t[p] == s[p] && t[q] == s[q - 1]);
            } else if p == k {
                assert(t[q] == s[q - 1]);
                assert(key_lt(keys[i], keys[s[q - 1]]));
            } else {
                assert(t[p] == s[p - 1] && t[q] == s[q - 1]);
            }
        }
        assert forall|p: int, q: int| 0 <= p < q < n && keys[t[p]] == keys[t[q]] implies t[p] < t[q] by {
            if q < k {
                assert(t[p] == s[p] && t[q] == s[q]);
            } else if q == k {
                assert(t[p] == s[p]);
            } else if p < k {
                assert(t[p] == s[p] && t[q] == s[q - 1]);
            } else if p == k {
                assert(t[q] == s[q - 1]);
                assert(key_lt(keys[i], keys[s[q - 1]]));
            } else {
                assert(t[p] == s[p - 1] && t[q] == s[q - 1]);
            }
        }
    }
}

/// Whether the key of `a` sorts strictly before the key of `b`.
fn key_less(primary: &Vec<Vec<char>>, secondary: &Vec<Vec<char>>, a: usize, b: usize) -> (r: bool)
    requires
        primary@.len() == secondary@.len(),
        a < primary@.len(),
        b < primary@.len(),
    ensures
        r == key_lt((primary@[a as int]@, secondary@[a as int]@), (primary@[b as int]@, secondary@[b as int]@)),
{
    lex_less(primary[a].as_slice(), primary[b].as_slice()) || (
        crate::text::chars_eq(primary[a].as_slice(), primary[b].as_slice())
        && lex_less(secondary[a].as_slice(), secondary[b].as_slice()))
}

/// The indices `0..keys.len()` stably sorted by the keys (primary text,
/// then secondary text).
pub fn sort_indices(primary: &Vec<Vec<char>>, secondary: &Vec<Vec<char>>) -> (r: Vec<usize>)
    requires
        primary@.len() == secondary@.len(),
    ensures
        r@.map_values(|i: usize| i as int) == sorted_indices(
            Seq::new(primary@.len(), |i: int| (primary@[i]@, secondary@[i]@)),
            primary@.len() as int,
        ),
{
    let ghost keys = Seq::new(primary@.len(), |i: int| (primary@[i]@, secondary@[i]@));
    let n = primary.len();
    let mut out: Vec<usize> = Vec::new();
    let mut i: usize = 0;
    while i < n
        invariant
            n == primary@.len(),
            n == secondary@.len(),
            keys == Seq::new(primary@.len(), |i: int| (primary@[i]@, secondary@[i]@)),
            i <= n,
            out@.map_values(|j: usize| j as int) == sorted_indices(keys, i as int),
            forall|p: int| 0 <= p < out@.len() ==> (#[trigger] out@[p]) < i,
        decreases n - i,
    {
        let ghost s = out@.map_values(|j: usize| j as int);
        let mut pos: usize = out.len();
        assert(s.take(pos as int) =~= s);
        while pos > 0 && key_less(primary, secondary, i, out[pos - 1])
            invariant
                n == primary@.len(),
                n == secondary@.len(),
                i < n,
                keys == Seq::new(primary@.len(), |i: int| (primary@[i]@, secondary@[i]@)),
                s == out@.map_values(|j: usize| j as int),
                forall|p: int| 0 <= p < out@.len() ==> (#[trigger] out@[p]) < i,
                pos <= out@.len(),
                insert_pos(s, keys, i as int) == insert_pos(s.take(pos as int), keys, i as int),
            decreases pos,
        {
            assert(s.take(pos as int).drop_last() =~= s.take(pos - 1));
            pos = pos - 1;
        }
        proof {
            let sp = s.take(pos as int);
            if pos > 0 {
                assert(sp.last() == out@[pos - 1] as int);
                assert(!key_lt(keys[i as int], keys[sp.last()]));
            }
            assert(insert_pos(sp, keys, i as int) == pos);
        }
        out.insert(pos, i);
        assert(out@.map_values(|j: usize| j as int) =~= s.insert(pos as int, i as int));
        i = i + 1;
    }
    out
}

} // verus!
