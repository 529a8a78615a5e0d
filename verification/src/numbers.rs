//! Decimal text of 64-bit integers: `str::parse::<i64>` and
//! `i64::to_string`, with the law that one undoes the other.

use vstd::prelude::*;

use crate::text::{from_chars, to_chars};

verus! {

pub open spec fn is_digit(c: char) -> bool {
    '0' <= c && c <= '9'
}

pub open spec fn digit_value(c: char) -> int {
    (c as int) - ('0' as int)
}

/// The number written by a sequence of decimal digits.
pub open spec fn decimal_value(d: Seq<char>) -> int
    decreases d.len(),
{
    if d.len() == 0 {
        0
    } else {
        decimal_value(d.drop_last()) * 10 + digit_value(d.last())
    }
}

pub open spec fn all_digits(d: Seq<char>) -> bool {
    forall|i: int| 0 <= i < d.len() ==> is_digit(#[trigger] d[i])
}

/// What `str::parse::<i64>` gives: an optional sign, then at least one
/// decimal digit and nothing else, and a value that fits in an `i64`.
pub open spec fn parse_i64_spec(s: Seq<char>) -> Option<i64> {
    let neg = s.len() > 0 && s[0] == '-';
    let signed = s.len() > 0 && (s[0] == '-' || s[0] == '+');
    let d = if signed { s.drop_first() } else { s };
    let v = if neg { -decimal_value(d) } else { decimal_value(d) };
    if d.len() > 0 && all_digits(d) && i64::MIN <= v <= i64::MAX {
        Some(v as i64)
    } else {
        None
    }
}

/// The character of a decimal digit.
pub open spec fn digit_char(d: nat) -> char {
    if d == 0 { '0' } else if d == 1 { '1' } else if d == 2 { '2' } else if d == 3 { '3' }
    else if d == 4 { '4' } else if d == 5 { '5' } else if d == 6 { '6' } else if d == 7 { '7' }
    else if d == 8 { '8' } else { '9' }
}

/// The character of a decimal digit.
fn digit_char_of(d: u64) -> (c: char)
    requires
        d < 10,
    ensures
        c == digit_char(d as nat),
{
    if d == 0 { '0' } else if d == 1 { '1' } else if d == 2 { '2' } else if d == 3 { '3' }
    else if d == 4 { '4' } else if d == 5 { '5' } else if d == 6 { '6' } else if d == 7 { '7' }
    else if d == 8 { '8' } else { '9' }
}

/// The decimal digits of a natural number, without leading zeros.
pub open spec fn digits_of(m: nat) -> Seq<char>
    decreases m,
{
    if m < 10 {
        seq![digit_char(m)]
    } else {
        digits_of(m / 10).push(digit_char(m % 10))
    }
}

/// What `i64::to_string` gives.
pub open spec fn format_i64_spec(n: i64) -> Seq<char> {
    if n < 0 {
        seq!['-'] + digits_of((-n) as nat)
    } else {
        digits_of(n as nat)
    }
}

proof fn lemma_decimal_nonneg(d: Seq<char>)
    requires
        all_digits(d),
    ensures
        decimal_value(d) >= 0,
    decreases d.len(),
{
    if d.len() > 0 {
        assert(all_digits(d.drop_last())) by {
            assert forall|i: int| 0 <= i < d.drop_last().len() implies is_digit(#[trigger] d.drop_last()[i]) by {
                assert(d.drop_last()[i] == d[i]);
            }
        }
        lemma_decimal_nonneg(d.drop_last());
        assert(is_digit(d[d.len() - 1]));
    }
}

/// A longer digit string never has a smaller value than its prefix.
proof fn lemma_decimal_prefix(d: Seq<char>, i: int)
    requires
        all_digits(d),
        0 <= i <= d.len(),
    ensures
        decimal_value(d.take(i)) <= decimal_value(d),
    decreases d.len() - i,
{
    if i < d.len() {
        lemma_decimal_prefix(d, i + 1);
        let t = d.take(i + 1);
        assert(t.drop_last() =~= d.take(i));
        assert(all_digits(d.take(i))) by {
            assert forall|k: int| 0 <= k < d.take(i).len() implies is_digit(#[trigger] d.take(i)[k]) by {
                assert(d.take(i)[k] == d[k]);
            }
        }
        lemma_decimal_nonneg(d.take(i));
        assert(is_digit(d[i]));
        assert(t.last() == d[i]);
    } else {
        assert(d.take(i) =~= d);
    }
}

/// `str::parse::<i64>`.
pub fn parse_i64(s: &str) -> (r: Option<i64>)
    ensures
        r == parse_i64_spec(s@),
{
    let v = to_chars(s);
    let n = v.len();
    if n == 0 {
        return None;
    }
    let neg = v[0] == '-';
    let signed = v[0] == '-' || v[0] == '+';
    let start: usize = if signed { 1 } else { 0 };
    let ghost d = if signed { s@.drop_first() } else { s@ };
    assert(d =~= v@.subrange(start as int, n as int));
    if start == n {
        return None;
    }
    let limit: u64 = 0x8000_0000_0000_0000;
    let mut acc: u64 = 0;
    let mut i: usize = start;
    while i < n
        invariant
            v@ == s@,
            n == v@.len(),
            n > 0,
            limit == 0x8000_0000_0000_0000u64,
            signed == (s@[0] == '-' || s@[0] == '+'),
            start == (if signed { 1usize } else { 0usize }),
            d == (if signed { s@.drop_first() } else { s@ }),
            start <= i <= n,
            d == v@.subrange(start as int, n as int),
            all_digits(d.take(i - start)),
            acc == decimal_value(d.take(i - start)),
            acc <= limit,
        decreases n - i,
    {
        let c = v[i];
        if !('0' <= c && c <= '9') {
            assert(d[i - start] == c);
            return None;
        }
        let dv: u64 = (c as u64) - ('0' as u64);
        let ghost t = d.take(i - start + 1);
        assert(t.drop_last() =~= d.take(i - start));
        assert(t.last() == c);
        if acc > (limit - dv) / 10 {
            proof {
                assert(all_digits(t)) by {
                    assert forall|k: int| 0 <= k < t.len() implies is_digit(#[trigger] t[k]) by {
                        if k < t.len() - 1 {
                            assert(t[k] == d.take(i - start)[k]);
                        }
                    }
                }
                if all_digits(d) {
                    lemma_decimal_prefix(d, i - start + 1);
                    assert(acc * 10 + dv > limit) by (nonlinear_arith)
                        requires
                            acc > (limit - dv) / 10,
                            dv <= 9,
                            limit == 0x8000_0000_0000_0000u64,
                    ;
                }
            }
            return None;
        }
        assert(acc * 10 + dv <= limit) by (nonlinear_arith)
            requires
                acc <= (limit - dv) / 10,
                dv <= 9,
        ;
        acc = acc * 10 + dv;
        i = i + 1;
        assert(all_digits(d.take(i - start))) by {
            assert forall|k: int| 0 <= k < d.take(i - start).len() implies is_digit(#[trigger] d.take(i - start)[k]) by {
                if k < i - start - 1 {
                    assert(d.take(i - start)[k] == d.take(i - start - 1)[k]);
                }
            }
        }
    }
    assert(d.take(n - start) =~= d);
    if neg {
        if acc == limit {
            Some(i64::MIN)
        } else {
            Some(-(acc as i64))
        }
    } else {
        if acc == limit {
            None
        } else {
            Some(acc as i64)
        }
    }
}

proof fn lemma_digits_of(m: nat)
    ensures
        digits_of(m).len() > 0,
        all_digits(digits_of(m)),
        decimal_value(digits_of(m)) == m,
    decreases m,
{
    if m < 10 {
        assert(digit_value(digit_char(m)) == m);
        assert(is_digit(digit_char(m)));
        assert(digits_of(m).drop_last() =~= Seq::<char>::empty());
        assert(digits_of(m).last() == digit_char(m));
        assert(decimal_value(Seq::<char>::empty()) == 0);
        assert(decimal_value(digits_of(m)) == decimal_value(digits_of(m).drop_last()) * 10 + digit_value(digit_char(m)));
    } else {
        lemma_digits_of(m / 10);
        let p = digits_of(m / 10);
        let c = digit_char(m % 10);
        assert(digits_of(m).drop_last() =~= p);
        assert(digit_value(c) == m % 10);
        assert(digits_of(m).last() == c);
        assert(decimal_value(digits_of(m)) == decimal_value(p) * 10 + digit_value(c));
        assert(m == (m / 10) * 10 + m % 10);
        assert(forall|i: int| 0 <= i < p.len() ==> is_digit(#[trigger] p[i]));
        assert forall|i: int| 0 <= i < digits_of(m).len() implies is_digit(#[trigger] digits_of(m)[i]) by {
            if i < p.len() {
                assert(digits_of(m)[i] == p[i]);
            }
        }
    }
}

/// The decimal digits of `m`, without leading zeros.
fn digits_text(m0: u64) -> (out: Vec<char>)
    ensures
        out@ == digits_of(m0 as nat),
{
    let mut m: u64 = m0;
    let ghost mag = m as nat;
    let mut rev: Vec<char> = Vec::new();
    let ghost mut suffix: Seq<char> = Seq::empty();
    assert(digits_of(mag) =~= digits_of(m as nat) + suffix);
    loop
        invariant_except_break
            digits_of(mag) == digits_of(m as nat) + suffix,
            rev@ == suffix.reverse(),
        ensures
            digits_of(mag) == suffix,
            rev@ == suffix.reverse(),
        decreases m,
    {
        let d: u64 = m % 10;
        let c: char = digit_char_of(d);
        rev.push(c);
        proof {
            let old_suffix = suffix;
            suffix = seq![c] + suffix;
            assert(suffix.reverse() =~= old_suffix.reverse().push(c));
            if m >= 10 {
                assert(digits_of(m as nat) == digits_of((m / 10) as nat).push(c));
                assert(digits_of((m / 10) as nat) + suffix =~= digits_of((m / 10) as nat).push(c) + old_suffix);
            } else {
                assert(digits_of(m as nat) == seq![c]);
                assert(digits_of(mag) =~= suffix);
            }
        }
        if m < 10 {
            break;
        }
        m = m / 10;
    }
    let mut out: Vec<char> = Vec::new();
    let mut k: usize = rev.len();
    while k > 0
        invariant
            k <= rev@.len(),
            rev@ == suffix.reverse(),
            out@ == suffix.take(rev@.len() - k),
        decreases k,
    {
        k = k - 1;
        out.push(rev[k]);
        assert(out@ =~= suffix.take(rev@.len() - k));
    }
    assert(suffix.take(rev@.len() as int) =~= suffix);
    out
}

/// `u64::to_string`.
pub fn format_u64(m: u64) -> (s: String)
    ensures
        s@ == digits_of(m as nat),
{
    let d = digits_text(m);
    from_chars(d.as_slice())
}

/// `i64::to_string`.
pub fn format_i64(n: i64) -> (s: String)
    ensures
        s@ == format_i64_spec(n),
{
    let m: u64 = if n < 0 {
        if n == i64::MIN { 0x8000_0000_0000_0000 } else { (-n) as u64 }
    } else {
        n as u64
    };
    let d = digits_text(m);
    if n < 0 {
        let mut out: Vec<char> = Vec::new();
        out.push('-');
        let mut k: usize = 0;
        while k < d.len()
            invariant
                k <= d@.len(),
                out@ == seq!['-'] + d@.take(k as int),
            decreases d@.len() - k,
        {
            out.push(d[k]);
            k = k + 1;
            assert(out@ =~= seq!['-'] + d@.take(k as int));
        }
        assert(d@.take(d@.len() as int) =~= d@);
        from_chars(out.as_slice())
    } else {
        from_chars(d.as_slice())
    }
}

/// Reading back the decimal text of a number gives the number.
pub proof fn lemma_parse_format_i64(n: i64)
    ensures
        parse_i64_spec(format_i64_spec(n)) == Some(n),
{
    let f = format_i64_spec(n);
    if n < 0 {
        let m = (-n) as nat;
        lemma_digits_of(m);
        let d = digits_of(m);
        assert(f.drop_first() =~= d);
        assert(f[0] == '-');
    } else {
        let m = n as nat;
        lemma_digits_of(m);
        let d = digits_of(m);
        assert(is_digit(d[0]));
        assert(f[0] != '-' && f[0] != '+');
    }
}

} // verus!
