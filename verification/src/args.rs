//! Command-line words: splitting a command line honouring double quotes,
//! and joining words back into a command line.

use vstd::prelude::*;

use crate::text::{from_chars, is_whitespace_char, is_ws, to_chars};

verus! {

/// Progress of the splitter over a command line.
pub struct SplitState {
    /// Words already finished.
    pub done: Seq<Seq<char>>,
    /// The word being read.
    pub cur: Seq<char>,
    /// Inside a double-quoted run.
    pub quoted: bool,
    /// A word has started and not yet ended.
    pub in_word: bool,
}

/// The splitter before any character.
pub open spec fn split_start() -> SplitState {
    SplitState { done: Seq::empty(), cur: Seq::empty(), quoted: false, in_word: false }
}

/// One character of the splitter: a quote toggles quoting and starts a
/// word; unquoted whitespace ends the current word; anything else is
/// part of the word.
pub open spec fn split_step(st: SplitState, c: char) -> SplitState {
    if c == '"' {
        SplitState { quoted: !st.quoted, in_word: true, ..st }
    } else if is_ws(c) && !st.quoted {
        if st.in_word {
            SplitState { done: st.done.push(st.cur), cur: Seq::empty(), in_word: false, ..st }
        } else {
            st
        }
    } else {
        SplitState { cur: st.cur.push(c), in_word: true, ..st }
    }
}

/// The splitter after reading `s`, started in `st`.
pub open spec fn split_run(st: SplitState, s: Seq<char>) -> SplitState
    decreases s.len(),
{
    if s.len() == 0 {
        st
    } else {
        split_step(split_run(st, s.drop_last()), s.last())
    }
}

/// The words of a command line.
pub open spec fn split_spec(s: Seq<char>) -> Seq<Seq<char>> {
    let st = split_run(split_start(), s);
    if st.in_word {
        st.done.push(st.cur)
    } else {
        st.done
    }
}

/// Characters that neither quote nor, outside quotes, separate are added
/// to the current word.
proof fn lemma_split_run_word(st: SplitState, a: Seq<char>)
    requires
        forall|i: int| 0 <= i < a.len() ==> #[trigger] a[i] != '"' && (st.quoted || !is_ws(a[i])),
    ensures
        split_run(st, a) == (SplitState {
            done: st.done,
            cur: st.cur + a,
            quoted: st.quoted,
            in_word: st.in_word || a.len() > 0,
        }),
    decreases a.len(),
{
    if a.len() == 0 {
        assert(st.cur + a =~= st.cur);
    } else {
        assert forall|i: int| 0 <= i < a.drop_last().len() implies #[trigger] a.drop_last()[i] != '"' && (st.quoted
            || !is_ws(a.drop_last()[i])) by {
            assert(a.drop_last()[i] == a[i]);
        }
        lemma_split_run_word(st, a.drop_last());
        assert((st.cur + a.drop_last()).push(a.last()) =~= st.cur + a);
    }
}

/// The splitter's words and current word never hold a quote.
proof fn lemma_split_run_quote_free(s: Seq<char>)
    ensures
        forall|k: int, i: int| 0 <= k < split_run(split_start(), s).done.len() && 0 <= i < split_run(split_start(), s).done[k].len()
            ==> #[trigger] split_run(split_start(), s).done[k][i] != '"',
        forall|i: int| 0 <= i < split_run(split_start(), s).cur.len() ==> #[trigger] split_run(split_start(), s).cur[i] != '"',
    decreases s.len(),
{
    if s.len() > 0 {
        lemma_split_run_quote_free(s.drop_last());
        let st = split_run(split_start(), s.drop_last());
        let c = s.last();
        let nx = split_step(st, c);
        assert(nx == split_run(split_start(), s));
        if c != '"' && !(is_ws(c) && !st.quoted) {
            assert forall|i: int| 0 <= i < nx.cur.len() implies #[trigger] nx.cur[i] != '"' by {
                if i < st.cur.len() {
                    assert(nx.cur[i] == st.cur[i]);
                }
            }
        }
        if c != '"' && is_ws(c) && !st.quoted && st.in_word {
            assert forall|k: int, i: int| 0 <= k < nx.done.len() && 0 <= i < nx.done[k].len()
                implies #[trigger] nx.done[k][i] != '"' by {
                if k < st.done.len() {
                    assert(nx.done[k] == st.done[k]);
                } else {
                    assert(nx.done[k] == st.cur);
                }
            }
        }
    }
}

/// A double quote is never part of a word: every quote of a command line
/// only switches quoting on or off, wherever it stands.
pub proof fn lemma_words_hold_no_quote(s: Seq<char>)
    ensures
        forall|k: int, i: int| 0 <= k < split_spec(s).len() && 0 <= i < split_spec(s)[k].len() ==> #[trigger] split_spec(s)[k][i]
            != '"',
{
    lemma_split_run_quote_free(s);
    let st = split_run(split_start(), s);
    assert forall|k: int, i: int| 0 <= k < split_spec(s).len() && 0 <= i < split_spec(s)[k].len()
        implies #[trigger] split_spec(s)[k][i] != '"' by {
        if k < st.done.len() {
            assert(split_spec(s)[k] == st.done[k]);
        } else {
            assert(split_spec(s)[k] == st.cur);
        }
    }
}

/// Quotes group: after a word start `a` (no whitespace, no quote), a quoted
/// run `b` (no quote) stays in the same word, whitespace included, and the
/// quotes themselves are dropped.
pub proof fn lemma_quotes_group(a: Seq<char>, b: Seq<char>)
    requires
        forall|i: int| 0 <= i < a.len() ==> #[trigger] a[i] != '"' && !is_ws(a[i]),
        forall|i: int| 0 <= i < b.len() ==> #[trigger] b[i] != '"',
    ensures
        split_spec(a + seq!['"'] + b + seq!['"']) == seq![a + b],
{
    let q = seq!['"'];
    let st0 = split_start();
    lemma_split_run_word(st0, a);
    let st1 = split_run(st0, a);
    assert(st0.cur + a =~= a);
    lemma_split_run_concat(st0, a, q);
    assert(split_run(st1, q) == split_step(split_run(st1, q.drop_last()), '"'));
    assert(q.drop_last() =~= Seq::<char>::empty());
    let st2 = split_run(st0, a + q);
    assert(st2 == SplitState { done: Seq::empty(), cur: a, quoted: true, in_word: true });
    lemma_split_run_word(st2, b);
    lemma_split_run_concat(st0, a + q, b);
    let st3 = split_run(st0, a + q + b);
    assert(st3 == SplitState { done: Seq::empty(), cur: a + b, quoted: true, in_word: true });
    let s = a + q + b + q;
    assert(s.drop_last() =~= a + q + b);
    assert(s.last() == '"');
    assert(split_run(st0, s) == split_step(st3, '"'));
    assert(Seq::<Seq<char>>::empty().push(a + b) =~= seq![a + b]);
}

/// Unquoted whitespace separates words: two words without whitespace or
/// quotes joined by one whitespace character split into those two words.
pub proof fn lemma_whitespace_separates(a: Seq<char>, w: char, b: Seq<char>)
    requires
        a.len() > 0,
        b.len() > 0,
        is_ws(w),
        forall|i: int| 0 <= i < a.len() ==> #[trigger] a[i] != '"' && !is_ws(a[i]),
        forall|i: int| 0 <= i < b.len() ==> #[trigger] b[i] != '"' && !is_ws(b[i]),
    ensures
        split_spec(a + seq![w] + b) == seq![a, b],
{
    let st0 = split_start();
    lemma_split_run_word(st0, a);
    assert(st0.cur + a =~= a);
    let st1 = split_run(st0, a);
    lemma_split_run_concat(st0, a, seq![w]);
    assert(seq![w].drop_last() =~= Seq::<char>::empty());
    assert(split_run(st1, seq![w].drop_last()) == st1);
    assert(seq![w].last() == w);
    assert(split_run(st1, seq![w]) == split_step(st1, w));
    let st2 = split_run(st0, a + seq![w]);
    assert(st2 == SplitState { done: seq![a], cur: Seq::empty(), quoted: false, in_word: false });
    lemma_split_run_word(st2, b);
    lemma_split_run_concat(st0, a + seq![w], b);
    assert(Seq::<char>::empty() + b =~= b);
    assert(seq![a].push(b) =~= seq![a, b]);
}

/// A word must be quoted when it is empty or holds whitespace or a quote.
pub open spec fn needs_quotes(a: Seq<char>) -> bool {
    a.len() == 0 || exists|i: int| 0 <= i < a.len() && (is_ws(#[trigger] a[i]) || a[i] == '"')
}

/// Every quote of `a` preceded by a backslash.
pub open spec fn escape_quotes(a: Seq<char>) -> Seq<char>
    decreases a.len(),
{
    if a.len() == 0 {
        Seq::empty()
    } else if a.last() == '"' {
        escape_quotes(a.drop_last()) + seq!['\\', '"']
    } else {
        escape_quotes(a.drop_last()).push(a.last())
    }
}

/// How one word is written on a command line.
pub open spec fn quote_word(a: Seq<char>) -> Seq<char> {
    if needs_quotes(a) {
        seq!['"'] + escape_quotes(a) + seq!['"']
    } else {
        a
    }
}

/// Words joined by single spaces, each written with `quote_word`.
pub open spec fn join_spec(args: Seq<Seq<char>>) -> Seq<char>
    decreases args.len(),
{
    if args.len() == 0 {
        Seq::empty()
    } else if args.len() == 1 {
        quote_word(args[0])
    } else {
        join_spec(args.drop_last()) + seq![' '] + quote_word(args.last())
    }
}

/// Split a command line into words, honouring double quotes.
pub fn split_args(s: &str) -> (out: Vec<String>)
    ensures
        out.deep_view() == split_spec(s@),
{
    let v = to_chars(s);
    let mut out: Vec<String> = Vec::new();
    let mut cur: Vec<char> = Vec::new();
    let mut in_quotes = false;
    let mut in_word = false;
    let mut i: usize = 0;
    assert(out.deep_view() =~= Seq::<Seq<char>>::empty());
    assert(v@.take(0) =~= Seq::<char>::empty());
    while i < v.len()
        invariant
            v@ == s@,
            i <= v@.len(),
            split_run(split_start(), v@.take(i as int)) == (SplitState {
                done: out.deep_view(),
                cur: cur@,
                quoted: in_quotes,
                in_word,
            }),
        decreases v@.len() - i,
    {
        let c = v[i];
        let ghost before = out.deep_view();
        if c == '"' {
            in_quotes = !in_quotes;
            in_word = true;
        } else if is_whitespace_char(c) && !in_quotes {
            if in_word {
                let w = from_chars(cur.as_slice());
                out.push(w);
                cur = Vec::new();
                in_word = false;
                assert(out.deep_view() =~= before.push(w@));
            }
        } else {
            cur.push(c);
            in_word = true;
        }
        i = i + 1;
        assert(v@.take(i as int).drop_last() =~= v@.take(i - 1));
    }
    assert(v@.take(v@.len() as int) =~= v@);
    if in_word {
        let ghost before = out.deep_view();
        let w = from_chars(cur.as_slice());
        out.push(w);
        assert(out.deep_view() =~= before.push(w@));
    }
    out
}

/// Whether a word must be quoted on a command line.
fn word_needs_quotes(a: &[char]) -> (b: bool)
    ensures
        b == needs_quotes(a@),
{
    if a.len() == 0 {
        return true;
    }
    let mut i: usize = 0;
    while i < a.len()
        invariant
            i <= a@.len(),
            forall|k: int| 0 <= k < i ==> !(is_ws(#[trigger] a@[k]) || a@[k] == '"'),
        decreases a@.len() - i,
    {
        if is_whitespace_char(a[i]) || a[i] == '"' {
            return true;
        }
        i = i + 1;
    }
    false
}

/// Appends `quote_word(a)` to `out`.
fn push_quoted(out: &mut Vec<char>, a: &[char])
    ensures
        final(out)@ == old(out)@ + quote_word(a@),
{
    if word_needs_quotes(a) {
        out.push('"');
        let ghost base = out@;
        let mut i: usize = 0;
        while i < a.len()
            invariant
                i <= a@.len(),
                out@ == base + escape_quotes(a@.take(i as int)),
            decreases a@.len() - i,
        {
            let ghost prev = out@;
            if a[i] == '"' {
                out.push('\\');
                out.push('"');
            } else {
                out.push(a[i]);
            }
            i = i + 1;
            assert(a@.take(i as int).drop_last() =~= a@.take(i - 1));
            assert(out@ =~= base + escape_quotes(a@.take(i as int)));
        }
        out.push('"');
        assert(a@.take(a@.len() as int) =~= a@);
        assert(out@ =~= old(out)@ + quote_word(a@));
    } else {
        let ghost base = out@;
        let mut i: usize = 0;
        while i < a.len()
            invariant
                i <= a@.len(),
                out@ == base + a@.take(i as int),
            decreases a@.len() - i,
        {
            out.push(a[i]);
            i = i + 1;
            assert(out@ =~= base + a@.take(i as int));
        }
        assert(a@.take(a@.len() as int) =~= a@);
    }
}

/// Join words back into a command line, quoting words that are empty or
/// hold whitespace or quotes (quotes inside are backslash-escaped).
pub fn join_args(args: &[String]) -> (s: String)
    ensures
        s@ == join_spec(args.deep_view()),
{
    let mut out: Vec<char> = Vec::new();
    let mut i: usize = 0;
    while i < args.len()
        invariant
            i <= args@.len(),
            out@ == join_spec(args.deep_view().take(i as int)),
        decreases args@.len() - i,
    {
        let a = to_chars(args[i].as_str());
        let ghost prev = out@;
        if i > 0 {
            out.push(' ');
        }
        push_quoted(&mut out, a.as_slice());
        i = i + 1;
        proof {
            let t = args.deep_view().take(i as int);
            assert(t.drop_last() =~= args.deep_view().take(i - 1));
            assert(t.last() == args@[i - 1]@);
            if i == 1 {
                assert(out@ =~= join_spec(t));
            } else {
                assert(out@ =~= join_spec(t));
            }
        }
    }
    assert(args.deep_view().take(args@.len() as int) =~= args.deep_view());
    from_chars(out.as_slice())
}


/// Reading `a + b` is reading `a`, then `b`.
proof fn lemma_split_run_concat(st: SplitState, a: Seq<char>, b: Seq<char>)
    ensures
        split_run(st, a + b) == split_run(split_run(st, a), b),
    decreases b.len(),
{
    if b.len() == 0 {
        assert(a + b =~= a);
    } else {
        lemma_split_run_concat(st, a, b.drop_last());
        assert((a + b).drop_last() =~= a + b.drop_last());
        assert((a + b).last() == b.last());
    }
}

/// Escaping changes nothing in a word without quotes.
proof fn lemma_escape_without_quotes(a: Seq<char>)
    requires
        !a.contains('"'),
    ensures
        escape_quotes(a) == a,
    decreases a.len(),
{
    if a.len() > 0 {
        assert(!a.drop_last().contains('"')) by {
            if a.drop_last().contains('"') {
                let k = choose|k: int| 0 <= k < a.drop_last().len() && a.drop_last()[k] == '"';
                assert(a[k] == '"');
            }
        }
        lemma_escape_without_quotes(a.drop_last());
        assert(a.last() != '"') by {
            assert(a[a.len() - 1] == a.last());
        }
        assert(a.drop_last().push(a.last()) =~= a);
    }
}

/// Characters that are neither quotes nor, outside quotes, whitespace
/// are appended to the current word.
proof fn lemma_plain_run(st: SplitState, a: Seq<char>)
    requires
        !a.contains('"'),
        !st.quoted ==> forall|i: int| 0 <= i < a.len() ==> !is_ws(#[trigger] a[i]),
    ensures
        split_run(st, a) == (SplitState {
            cur: st.cur + a,
            in_word: st.in_word || a.len() > 0,
            ..st
        }),
    decreases a.len(),
{
    if a.len() == 0 {
        assert(st.cur + a =~= st.cur);
    } else {
        let p = a.drop_last();
        assert(!p.contains('"')) by {
            if p.contains('"') {
                let k = choose|k: int| 0 <= k < p.len() && p[k] == '"';
                assert(a[k] == '"');
            }
        }
        assert(!st.quoted ==> forall|i: int| 0 <= i < p.len() ==> !is_ws(#[trigger] p[i])) by {
            assert forall|i: int| 0 <= i < p.len() && !st.quoted implies !is_ws(#[trigger] p[i]) by {
                assert(p[i] == a[i]);
            }
        }
        lemma_plain_run(st, p);
        assert(a.last() == a[a.len() - 1]);
        assert((st.cur + p).push(a.last()) =~= st.cur + a);
    }
}

/// Reading one written word from a word boundary leaves exactly that word
/// as the current word.
proof fn lemma_word_run(done: Seq<Seq<char>>, a: Seq<char>)
    requires
        !a.contains('"'),
    ensures
        split_run(
            SplitState { done, cur: Seq::empty(), quoted: false, in_word: false },
            quote_word(a),
        ) == (SplitState { done, cur: a, quoted: false, in_word: true }),
{
    let st = SplitState { done, cur: Seq::<char>::empty(), quoted: false, in_word: false };
    if needs_quotes(a) {
        lemma_escape_without_quotes(a);
        let open_q = seq!['"'];
        assert(quote_word(a) =~= (open_q + a) + seq!['"']);
        lemma_split_run_concat(st, open_q + a, seq!['"']);
        lemma_split_run_concat(st, open_q, a);
        assert(open_q.drop_last() =~= Seq::<char>::empty());
        assert(split_run(st, open_q.drop_last()) == st);
        assert(open_q.last() == '"');
        let st1 = split_run(st, open_q);
        assert(st1 == SplitState { quoted: true, in_word: true, ..st });
        lemma_plain_run(st1, a);
        assert(Seq::<char>::empty() + a =~= a);
        let close_q = seq!['"'];
        let st3 = split_run(st1, a);
        assert(close_q.drop_last() =~= Seq::<char>::empty());
        assert(split_run(st3, close_q.drop_last()) == st3);
        assert(close_q.last() == '"');
    } else {
        assert forall|i: int| 0 <= i < a.len() implies !is_ws(#[trigger] a[i]) by {
            if is_ws(a[i]) {
                assert(needs_quotes(a));
            }
        }
        lemma_plain_run(st, a);
        assert(Seq::<char>::empty() + a =~= a);
    }
}

/// Reading a joined command line of at least one word.
proof fn lemma_join_run(args: Seq<Seq<char>>)
    requires
        args.len() >= 1,
        forall|i: int| 0 <= i < args.len() ==> !(#[trigger] args[i]).contains('"'),
    ensures
        split_run(split_start(), join_spec(args)) == (SplitState {
            done: args.drop_last(),
            cur: args.last(),
            quoted: false,
            in_word: true,
        }),
    decreases args.len(),
{
    if args.len() == 1 {
        assert(!args[0].contains('"'));
        lemma_word_run(Seq::empty(), args[0]);
        assert(args.drop_last() =~= Seq::<Seq<char>>::empty());
    } else {
        let front = args.drop_last();
        assert forall|i: int| 0 <= i < front.len() implies !(#[trigger] front[i]).contains('"') by {
            assert(front[i] == args[i]);
        }
        lemma_join_run(front);
        let head = join_spec(front) + seq![' '];
        lemma_split_run_concat(split_start(), head, quote_word(args.last()));
        lemma_split_run_concat(split_start(), join_spec(front), seq![' ']);
        assert(seq![' '].drop_last() =~= Seq::<char>::empty());
        assert(is_ws(' '));
        let sp = seq![' '];
        let x = split_run(split_start(), join_spec(front));
        assert(split_run(x, sp.drop_last()) == x);
        assert(sp.last() == ' ');
        let st2 = split_run(split_start(), head);
        assert(front.drop_last().push(front.last()) =~= front);
        assert(st2 == SplitState {
            done: front,
            cur: Seq::empty(),
            quoted: false,
            in_word: false,
        });
        assert(!args[args.len() - 1].contains('"'));
        lemma_word_run(front, args.last());
    }
}

/// Splitting a joined command line gives the words back, provided no word
/// holds a double quote (the splitter does not read backslash escapes).
pub proof fn lemma_split_join_roundtrip(args: Seq<Seq<char>>)
    requires
        forall|i: int| 0 <= i < args.len() ==> !(#[trigger] args[i]).contains('"'),
    ensures
        split_spec(join_spec(args)) == args,
{
    if args.len() == 0 {
        assert(split_spec(join_spec(args)) =~= args);
    } else {
        lemma_join_run(args);
        assert(args.drop_last().push(args.last()) =~= args);
    }
}

} // verus!
