//! Loose version-string comparison.
//!
//! Segments are separated by `.`, `_` or `-`. Within a segment every non-digit
//! byte is ignored (`"8ea"` reads as `8`); a segment without digits, or whose
//! number does not fit in an `i64`, is skipped.
//! Segments are compared numerically, left to right, and the first difference
//! decides. A string that runs out of segments first sorts lower.

use std::cmp::Ordering;
use vstd::prelude::*;
use vstd::string::StringSliceAdditionalSpecFns;

verus! {

/// Whether `c` separates two version segments.
pub open spec fn is_separator(c: u8) -> bool {
    c == 46 || c == 95 || c == 45
}

/// Whether `c` is an ASCII decimal digit.
pub open spec fn is_digit(c: u8) -> bool {
    48 <= c <= 57
}

/// The index of the first separator at or after `start`, or `start` itself once
/// past the end of `s`.
pub open spec fn next_sep(s: Seq<u8>, start: int) -> int
    decreases s.len() - start,
{
    if start < 0 || start >= s.len() {
        start
    } else if is_separator(s[start]) {
        start
    } else {
        next_sep(s, start + 1)
    }
}

/// The number written by the decimal digits of `s[start..end]`, every other
/// byte ignored (`0` when there is none).
pub open spec fn digit_value(s: Seq<u8>, start: int, end: int) -> nat
    decreases end - start,
{
    if end <= start {
        0
    } else if is_digit(s[end - 1]) {
        digit_value(s, start, end - 1) * 10 + (s[end - 1] - 48) as nat
    } else {
        digit_value(s, start, end - 1)
    }
}

/// Whether `s[start..end]` holds a decimal digit.
pub open spec fn has_digit(s: Seq<u8>, start: int, end: int) -> bool {
    exists|k: int| start <= k < end && #[trigger] is_digit(s[k])
}

/// The numeric value of the segment `s[start..end]`: the number its digits
/// write, or `-1` when it holds no digit or that number does not fit in an
/// `i64`.
pub open spec fn segment_value(s: Seq<u8>, start: int, end: int) -> i64 {
    if has_digit(s, start, end) && digit_value(s, start, end) <= i64::MAX {
        digit_value(s, start, end) as i64
    } else {
        -1i64
    }
}

/// Appending bytes never makes the number a digit run writes smaller.
pub proof fn lemma_digit_value_grows(s: Seq<u8>, start: int, i: int, j: int)
    requires
        start <= i <= j,
    ensures
        digit_value(s, start, i) <= digit_value(s, start, j),
    decreases j - i,
{
    if i < j {
        lemma_digit_value_grows(s, start, i, j - 1);
    }
}

/// Starting at `i` with pending value `v`, skips segments while the value is
/// `-1`; gives the value found and the index just after its segment.
pub open spec fn next_value(s: Seq<u8>, i: int, v: i64) -> (i64, int)
    decreases s.len() + 1 - i,
{
    if v == -1 && 0 <= i < s.len() {
        let n = next_sep(s, i);
        proof {
            lemma_next_sep_bounds(s, i);
        }
        next_value(s, n + 1, segment_value(s, i, n))
    } else {
        (v, i)
    }
}

/// The order of `l[il..]` against `r[ir..]`, segment by segment.
pub open spec fn version_order_from(l: Seq<u8>, r: Seq<u8>, il: int, ir: int) -> Ordering
    decreases (l.len() + 1 - il) + (r.len() + 1 - ir),
{
    if il < 0 || ir < 0 {
        Ordering::Equal
    } else if il >= l.len() {
        if ir >= r.len() {
            Ordering::Equal
        } else {
            Ordering::Less
        }
    } else if ir >= r.len() {
        Ordering::Greater
    } else {
        let (lv, il2) = next_value(l, il, -1i64);
        let (rv, ir2) = next_value(r, ir, -1i64);
        proof {
            lemma_next_value_advances(l, il, -1i64);
            lemma_next_value_advances(r, ir, -1i64);
        }
        if lv == rv {
            version_order_from(l, r, il2, ir2)
        } else if lv < rv {
            Ordering::Less
        } else {
            Ordering::Greater
        }
    }
}

/// The order of two version strings given as their UTF-8 bytes.
pub open spec fn version_order(l: Seq<u8>, r: Seq<u8>) -> Ordering {
    if l == r {
        Ordering::Equal
    } else {
        version_order_from(l, r, 0, 0)
    }
}

/// The reverse of an ordering.
pub open spec fn reversed(o: Ordering) -> Ordering {
    match o {
        Ordering::Less => Ordering::Greater,
        Ordering::Equal => Ordering::Equal,
        Ordering::Greater => Ordering::Less,
    }
}

pub proof fn lemma_next_sep_bounds(s: Seq<u8>, i: int)
    requires
        0 <= i <= s.len(),
    ensures
        i <= next_sep(s, i) <= s.len(),
    decreases s.len() - i,
{
    if i < s.len() && !is_separator(s[i]) {
        lemma_next_sep_bounds(s, i + 1);
    }
}

pub proof fn lemma_next_value_advances(s: Seq<u8>, i: int, v: i64)
    requires
        0 <= i,
    ensures
        next_value(s, i, v).1 >= i,
        (v == -1 && i < s.len()) ==> next_value(s, i, v).1 > i,
        next_value(s, i, v).1 <= s.len() + 1 || next_value(s, i, v).1 == i,
    decreases s.len() + 1 - i,
{
    if v == -1 && i < s.len() {
        let n = next_sep(s, i);
        lemma_next_sep_bounds(s, i);
        lemma_next_value_advances(s, n + 1, segment_value(s, i, n));
    }
}

/// The order is antisymmetric: swapping the operands reverses the result.
pub proof fn lemma_version_order_antisymmetric(l: Seq<u8>, r: Seq<u8>)
    ensures
        version_order(l, r) == reversed(version_order(r, l)),
{
    if l != r {
        lemma_order_from_antisymmetric(l, r, 0, 0);
    }
}

/// Every version string is equal to itself.
pub proof fn lemma_version_order_reflexive(l: Seq<u8>)
    ensures
        version_order(l, l) == Ordering::Equal,
{
}

proof fn lemma_order_from_antisymmetric(l: Seq<u8>, r: Seq<u8>, il: int, ir: int)
    ensures
        version_order_from(l, r, il, ir) == reversed(version_order_from(r, l, ir, il)),
    decreases (l.len() + 1 - il) + (r.len() + 1 - ir),
{
    if il >= 0 && ir >= 0 && il < l.len() && ir < r.len() {
        let (lv, il2) = next_value(l, il, -1i64);
        let (rv, ir2) = next_value(r, ir, -1i64);
        lemma_next_value_advances(l, il, -1i64);
        lemma_next_value_advances(r, ir, -1i64);
        if lv == rv {
            lemma_order_from_antisymmetric(l, r, il2, ir2);
        }
    }
}

/// Two bytes that a version comparison cannot tell apart: the same byte, two of
/// the separators `.`, `_` and `-`, or two bytes that are neither a decimal
/// digit nor a separator.
pub open spec fn interchangeable(a: u8, b: u8) -> bool {
    ||| a == b
    ||| (a == 46 || a == 95 || a == 45) && (b == 46 || b == 95 || b == 45)
    ||| !(48 <= a <= 57 || a == 46 || a == 95 || a == 45) && !(48 <= b <= 57 || b == 46 || b == 95
        || b == 45)
}

/// Whether `s` is made of decimal digits only.
pub open spec fn all_digits(s: Seq<u8>) -> bool {
    forall|k: int| 0 <= k < s.len() ==> 48 <= #[trigger] s[k] <= 57
}

/// Version strings that differ only in interchangeable bytes compare equal:
/// any of `.`, `_` and `-` separates segments alike, and bytes that are
/// neither digits nor separators are ignored alike.
pub proof fn lemma_interchangeable_bytes_compare_equal(l: Seq<u8>, r: Seq<u8>)
    requires
        l.len() == r.len(),
        forall|k: int| 0 <= k < l.len() ==> interchangeable(#[trigger] l[k], r[k]),
    ensures
        version_order(l, r) == Ordering::Equal,
{
    if l != r {
        lemma_order_from_alike(l, r, 0);
    }
}

/// The number a run of digits writes.
pub open spec fn run_value(a: Seq<u8>) -> nat {
    digit_value(a, 0, a.len() as int)
}

/// The first segment decides: when two version strings start with runs of at
/// most 18 digits, each ended by `.`, `_` or `-`, and the first run's number is
/// smaller, the first string sorts lower, whatever follows.
pub proof fn lemma_first_segment_decides(
    a: Seq<u8>,
    s1: u8,
    x: Seq<u8>,
    b: Seq<u8>,
    s2: u8,
    y: Seq<u8>,
)
    requires
        1 <= a.len() <= 18,
        1 <= b.len() <= 18,
        all_digits(a),
        all_digits(b),
        s1 == 46 || s1 == 95 || s1 == 45,
        s2 == 46 || s2 == 95 || s2 == 45,
        run_value(a) < run_value(b),
    ensures
        version_order(a + seq![s1] + x, b + seq![s2] + y) == Ordering::Less,
{
    lemma_first_values(a, s1, x, b, s2, y);
}

proof fn lemma_first_values(a: Seq<u8>, s1: u8, x: Seq<u8>, b: Seq<u8>, s2: u8, y: Seq<u8>)
    requires
        1 <= a.len() <= 18,
        1 <= b.len() <= 18,
        all_digits(a),
        all_digits(b),
        s1 == 46 || s1 == 95 || s1 == 45,
        s2 == 46 || s2 == 95 || s2 == 45,
        run_value(a) < run_value(b),
    ensures
        a + seq![s1] + x != b + seq![s2] + y,
        (a + seq![s1] + x).len() > 0,
        (b + seq![s2] + y).len() > 0,
        next_value(a + seq![s1] + x, 0, -1i64).0 < next_value(b + seq![s2] + y, 0, -1i64).0,
{
    let l = a + seq![s1] + x;
    let r = b + seq![s2] + y;
    let va = lemma_first_segment_value(a, s1, x);
    let vb = lemma_first_segment_value(b, s2, y);
    if l == r {
        assert(a =~= l.take(a.len() as int));
        assert(b =~= r.take(b.len() as int));
    }
}

/// Numbers compare as their digits do: when two runs of at most 18 digits have
/// the same length and first differ where the first run has the smaller digit,
/// a version string starting with the first run (ended by `.`, `_` or `-`)
/// sorts below one starting with the second, whatever follows.
pub proof fn lemma_first_segment_digits_decide(
    p: Seq<u8>,
    d1: u8,
    q1: Seq<u8>,
    s1: u8,
    x: Seq<u8>,
    d2: u8,
    q2: Seq<u8>,
    s2: u8,
    y: Seq<u8>,
)
    requires
        all_digits(p + seq![d1] + q1),
        all_digits(p + seq![d2] + q2),
        d1 < d2,
        q1.len() == q2.len(),
        (p + seq![d1] + q1).len() <= 18,
        s1 == 46 || s1 == 95 || s1 == 45,
        s2 == 46 || s2 == 95 || s2 == 45,
    ensures
        version_order(p + seq![d1] + q1 + seq![s1] + x, p + seq![d2] + q2 + seq![s2] + y)
            == Ordering::Less,
{
    lemma_digit_runs_order(p, d1, q1, d2, q2);
    lemma_first_segment_decides(p + seq![d1] + q1, s1, x, p + seq![d2] + q2, s2, y);
}

proof fn lemma_digit_runs_order(p: Seq<u8>, d1: u8, q1: Seq<u8>, d2: u8, q2: Seq<u8>)
    requires
        all_digits(p + seq![d1] + q1),
        all_digits(p + seq![d2] + q2),
        d1 < d2,
        q1.len() == q2.len(),
    ensures
        run_value(p + seq![d1] + q1) < run_value(p + seq![d2] + q2),
{
    let a = p + seq![d1] + q1;
    let b = p + seq![d2] + q2;
    let n = p.len() as int;
    let e = a.len() as int;
    assert(a.len() == b.len());
    assert(a[n] == d1 && b[n] == d2);
    lemma_digit_value_agree(a, b, 0, n);
    lemma_digit_value_split(a, n + 1, e);
    lemma_digit_value_split(b, n + 1, e);
    lemma_digit_value_below_from(a, n + 1, e);
    let m = (e - (n + 1)) as nat;
    let pw = vstd::arithmetic::power::pow(10, m);
    vstd::arithmetic::power::lemma_pow_positive(10, m);
    let h = digit_value(a, 0, n);
    let ta = digit_value(a, n + 1, e);
    let tb = digit_value(b, n + 1, e);
    assert(48 <= a[n] <= 57);
    assert(48 <= b[n] <= 57);
    assert(digit_value(a, 0, n + 1) == h * 10 + (d1 - 48) as nat);
    assert(digit_value(b, 0, n + 1) == h * 10 + (d2 - 48) as nat);
    let ha = h * 10 + (d1 - 48) as nat;
    let hb = h * 10 + (d2 - 48) as nat;
    assert(ha * pw + ta < hb * pw + tb) by (nonlinear_arith)
        requires
            ha < hb,
            ta < pw,
            pw > 0,
            tb >= 0,
    ;
}

/// The number a run of digits writes is the number of its head times ten to
/// the length of its tail, plus the number of its tail.
proof fn lemma_digit_value_split(s: Seq<u8>, n: int, e: int)
    requires
        0 <= n <= e <= s.len(),
        forall|k: int| n <= k < e ==> 48 <= #[trigger] s[k] <= 57,
    ensures
        digit_value(s, 0, e) == digit_value(s, 0, n) * vstd::arithmetic::power::pow(
            10,
            (e - n) as nat,
        ) + digit_value(s, n, e),
    decreases e - n,
{
    if e == n {
        vstd::arithmetic::power::lemma_pow0(10);
    } else {
        lemma_digit_value_split(s, n, e - 1);
        let h = digit_value(s, 0, n);
        let p = vstd::arithmetic::power::pow(10, (e - 1 - n) as nat);
        let t = digit_value(s, n, e - 1);
        let d = (s[e - 1] - 48) as nat;
        assert(is_digit(s[e - 1]));
        vstd::arithmetic::power::lemma_pow_adds(10, (e - 1 - n) as nat, 1);
        vstd::arithmetic::power::lemma_pow1(10);
        assert((h * p + t) * 10 + d == h * (p * 10) + (t * 10 + d)) by (nonlinear_arith);
    }
}

/// The number written by the bytes `s[n..e]` is below `10^(e - n)`.
proof fn lemma_digit_value_below_from(s: Seq<u8>, n: int, e: int)
    requires
        0 <= n <= e <= s.len(),
    ensures
        digit_value(s, n, e) < vstd::arithmetic::power::pow(10, (e - n) as nat),
    decreases e - n,
{
    vstd::arithmetic::power::lemma_pow_positive(10, (e - n) as nat);
    if e > n {
        lemma_digit_value_below_from(s, n, e - 1);
        let p = vstd::arithmetic::power::pow(10, (e - 1 - n) as nat);
        vstd::arithmetic::power::lemma_pow_adds(10, (e - 1 - n) as nat, 1);
        vstd::arithmetic::power::lemma_pow1(10);
        let d = digit_value(s, n, e - 1);
        assert(d * 10 + 9 < p * 10) by (nonlinear_arith)
            requires
                d < p,
        ;
    }
}

/// Reading a version string that starts with a run of at most 18 digits ended
/// by a separator gives that run's number first.
proof fn lemma_first_segment_value(a: Seq<u8>, s: u8, x: Seq<u8>) -> (v: i64)
    requires
        1 <= a.len() <= 18,
        all_digits(a),
        s == 46 || s == 95 || s == 45,
    ensures
        next_sep(a + seq![s] + x, 0) == a.len(),
        v == digit_value(a, 0, a.len() as int),
        next_value(a + seq![s] + x, 0, -1i64) == (v, a.len() + 1int),
{
    let l = a + seq![s] + x;
    lemma_next_sep_run(a, s, x, 0);
    lemma_digit_value_agree(a, l, 0, a.len() as int);
    lemma_digit_value_below(a, a.len() as int);
    assert(is_digit(l[0]));
    assert(has_digit(l, 0, a.len() as int));
    let v = digit_value(a, 0, a.len() as int) as i64;
    assert(segment_value(l, 0, a.len() as int) == v);
    assert(v != -1);
    assert(next_value(l, a.len() + 1int, v) == (v, a.len() + 1int));
    assert(next_value(l, 0, -1i64) == next_value(l, a.len() + 1int, v));
    v
}

proof fn lemma_next_sep_run(a: Seq<u8>, s: u8, x: Seq<u8>, i: int)
    requires
        0 <= i <= a.len(),
        all_digits(a),
        s == 46 || s == 95 || s == 45,
    ensures
        next_sep(a + seq![s] + x, i) == a.len(),
    decreases a.len() - i,
{
    let l = a + seq![s] + x;
    if i < a.len() {
        assert(l[i] == a[i]);
        lemma_next_sep_run(a, s, x, i + 1);
    } else {
        assert(l[i] == s);
    }
}

/// The number a digit run writes is below `10^n` for `n` bytes.
proof fn lemma_digit_value_below(s: Seq<u8>, n: int)
    requires
        0 <= n <= 18,
        n <= s.len(),
    ensures
        digit_value(s, 0, n) < vstd::arithmetic::power::pow(10, n as nat),
        n <= 18 ==> digit_value(s, 0, n) < 1_000_000_000_000_000_000,
    decreases n,
{
    vstd::arithmetic::power::lemma_pow_positive(10, n as nat);
    if n > 0 {
        lemma_digit_value_below(s, n - 1);
        let p = vstd::arithmetic::power::pow(10, (n - 1) as nat);
        vstd::arithmetic::power::lemma_pow_adds(10, (n - 1) as nat, 1);
        vstd::arithmetic::power::lemma_pow1(10);
        let d = digit_value(s, 0, n - 1);
        assert(d * 10 + 9 < p * 10) by (nonlinear_arith)
            requires
                d < p,
        ;
    }
    vstd::arithmetic::power::lemma_pow_increases(10, n as nat, 18);
    assert(vstd::arithmetic::power::pow(10, 18) == 1_000_000_000_000_000_000) by {
        vstd::arithmetic::power::lemma_pow_positive(10, 18);
        reveal_with_fuel(vstd::arithmetic::power::pow, 19);
    }
}

/// The number a digit run writes depends only on the bytes of the run.
proof fn lemma_digit_value_agree(s: Seq<u8>, t: Seq<u8>, start: int, end: int)
    requires
        0 <= start,
        end <= s.len(),
        end <= t.len(),
        forall|k: int| start <= k < end ==> s[k] == t[k],
    ensures
        digit_value(s, start, end) == digit_value(t, start, end),
    decreases end - start,
{
    if end > start {
        lemma_digit_value_agree(s, t, start, end - 1);
    }
}

proof fn lemma_next_sep_alike(l: Seq<u8>, r: Seq<u8>, i: int)
    requires
        l.len() == r.len(),
        forall|k: int| 0 <= k < l.len() ==> interchangeable(#[trigger] l[k], r[k]),
        0 <= i,
    ensures
        next_sep(l, i) == next_sep(r, i),
    decreases l.len() - i,
{
    if i < l.len() {
        assert(interchangeable(l[i], r[i]));
        assert(is_separator(l[i]) == is_separator(r[i]));
        lemma_next_sep_alike(l, r, i + 1);
    }
}

proof fn lemma_digits_alike(l: Seq<u8>, r: Seq<u8>, start: int, end: int)
    requires
        l.len() == r.len(),
        forall|k: int| 0 <= k < l.len() ==> interchangeable(#[trigger] l[k], r[k]),
        0 <= start,
        end <= l.len(),
    ensures
        digit_value(l, start, end) == digit_value(r, start, end),
        has_digit(l, start, end) == has_digit(r, start, end),
    decreases end - start,
{
    if end > start {
        lemma_digits_alike(l, r, start, end - 1);
        assert(interchangeable(l[end - 1], r[end - 1]));
        if has_digit(l, start, end) {
            let k = choose|k: int| start <= k < end && #[trigger] is_digit(l[k]);
            assert(interchangeable(l[k], r[k]));
            assert(is_digit(r[k]));
        }
        if has_digit(r, start, end) {
            let k = choose|k: int| start <= k < end && #[trigger] is_digit(r[k]);
            assert(interchangeable(l[k], r[k]));
            assert(is_digit(l[k]));
        }
    }
}

proof fn lemma_next_value_alike(l: Seq<u8>, r: Seq<u8>, i: int, v: i64)
    requires
        l.len() == r.len(),
        forall|k: int| 0 <= k < l.len() ==> interchangeable(#[trigger] l[k], r[k]),
        0 <= i,
    ensures
        next_value(l, i, v) == next_value(r, i, v),
    decreases l.len() + 1 - i,
{
    if v == -1 && i < l.len() {
        lemma_next_sep_alike(l, r, i);
        lemma_next_sep_bounds(l, i);
        let n = next_sep(l, i);
        lemma_digits_alike(l, r, i, n);
        lemma_next_value_alike(l, r, n + 1, segment_value(l, i, n));
    }
}

proof fn lemma_order_from_alike(l: Seq<u8>, r: Seq<u8>, i: int)
    requires
        l.len() == r.len(),
        forall|k: int| 0 <= k < l.len() ==> interchangeable(#[trigger] l[k], r[k]),
        0 <= i,
    ensures
        version_order_from(l, r, i, i) == Ordering::Equal,
    decreases l.len() + 1 - i,
{
    if i < l.len() {
        lemma_next_value_alike(l, r, i, -1i64);
        lemma_next_value_advances(l, i, -1i64);
        let (lv, i2) = next_value(l, i, -1i64);
        lemma_order_from_alike(l, r, i2);
    }
}

fn next_separator(s: &[u8], start: usize) -> (r: usize)
    requires
        start <= s@.len(),
    ensures
        r as int == next_sep(s@, start as int),
        start <= r <= s@.len(),
{
    let mut i = start;
    while i < s.len()
        invariant
            start <= i <= s@.len(),
            next_sep(s@, start as int) == next_sep(s@, i as int),
        decreases s@.len() - i,
    {
        if s[i] == 46u8 || s[i] == 95u8 || s[i] == 45u8 {
            return i;
        }
        i = i + 1;
    }
    i
}

fn parse_long(s: &[u8], start: usize, end: usize) -> (r: i64)
    requires
        start <= end <= s@.len(),
    ensures
        r == segment_value(s@, start as int, end as int),
{
    let mut rv: i64 = 0;
    let mut parsed_any = false;
    let mut i = start;
    while i < end
        invariant
            start <= i <= end <= s@.len(),
            rv as int == digit_value(s@, start as int, i as int),
            parsed_any == has_digit(s@, start as int, i as int),
        decreases end - i,
    {
        let c = s[i];
        if c >= 48u8 && c <= 57u8 {
            let d = (c - 48) as i64;
            let next = match rv.checked_mul(10) {
                Some(t) => t.checked_add(d),
                None => None,
            };
            match next {
                Some(v) => {
                    rv = v;
                },
                None => {
                    proof {
                        lemma_digit_value_grows(s@, start as int, i + 1, end as int);
                    }
                    return -1i64;
                },
            }
            parsed_any = true;
        }
        proof {
            if !is_digit(s@[i as int]) {
                if has_digit(s@, start as int, i + 1) {
                    let k = choose|k: int| start <= k < i + 1 && #[trigger] is_digit(s@[k]);
                    assert(k < i);
                }
            } else {
                assert(is_digit(s@[i as int]));
            }
        }
        i = i + 1;
    }
    if parsed_any {
        rv
    } else {
        -1i64
    }
}

fn read_value(s: &[u8], start: usize) -> (r: (i64, usize))
    requires
        start < s@.len(),
    ensures
        r.0 == next_value(s@, start as int, -1i64).0,
        next_value(s@, start as int, -1i64).1 <= s@.len() ==> r.1 == next_value(s@, start as int, -1i64).1,
        next_value(s@, start as int, -1i64).1 > s@.len() ==> r.1 == s@.len(),
        start < next_value(s@, start as int, -1i64).1 <= s@.len() + 1,
{
    let mut v: i64 = -1;
    let mut i = start;
    let ghost mut gi: int = start as int;
    while v == -1 && i < s.len()
        invariant
            start <= i <= s@.len(),
            start <= gi <= s@.len() + 1,
            gi <= s@.len() ==> i == gi,
            gi > s@.len() ==> i == s@.len(),
            gi == start ==> v == -1,
            next_value(s@, start as int, -1i64) == next_value(s@, gi, v),
        decreases s@.len() + 1 - gi,
    {
        let n = next_separator(s, i);
        v = parse_long(s, i, n);
        proof {
            gi = n + 1;
        }
        if n < s.len() {
            i = n + 1;
        } else {
            i = n;
        }
    }
    (v, i)
}

fn bytes_equal(a: &[u8], b: &[u8]) -> (r: bool)
    ensures
        r == (a@ == b@),
{
    if a.len() != b.len() {
        return false;
    }
    let mut i: usize = 0;
    while i < a.len()
        invariant
            a@.len() == b@.len(),
            i <= a@.len(),
            forall|k: int| 0 <= k < i ==> a@[k] == b@[k],
        decreases a@.len() - i,
    {
        if a[i] != b[i] {
            return false;
        }
        i = i + 1;
    }
    assert(a@ =~= b@);
    true
}

fn order_values(lv: i64, rv: i64) -> (r: Ordering)
    ensures
        r == (if lv == rv {
            Ordering::Equal
        } else if lv < rv {
            Ordering::Less
        } else {
            Ordering::Greater
        }),
{
    if lv == rv {
        Ordering::Equal
    } else if lv < rv {
        Ordering::Less
    } else {
        Ordering::Greater
    }
}

/// Compares two version strings (see the module documentation).
///
/// A shorter string sorts lower once its segments are exhausted, so
/// `"2.0" < "2.0.0"`; non-digits are only skipped within a segment that is
/// compared, so `"8ea" == "8"` but `"8-ea" > "8"`.
pub fn version_compare(l: &str, r: &str) -> (res: Ordering)
    ensures
        res == version_order(l.spec_bytes(), r.spec_bytes()),
{
    let lb = l.as_bytes();
    let rb = r.as_bytes();
    if bytes_equal(lb, rb) {
        return Ordering::Equal;
    }
    let ll = lb.len();
    let rl = rb.len();
    let mut il: usize = 0;
    let mut ir: usize = 0;
    let ghost mut gl: int = 0;
    let ghost mut gr: int = 0;
    loop
        invariant
            ll == lb@.len(),
            rl == rb@.len(),
            lb@ == l.spec_bytes(),
            rb@ == r.spec_bytes(),
            lb@ != rb@,
            gl <= ll ==> il == gl,
            gl > ll ==> il == ll,
            gr <= rl ==> ir == gr,
            gr > rl ==> ir == rl,
            0 <= gl <= ll + 1,
            0 <= gr <= rl + 1,
            version_order(lb@, rb@) == version_order_from(lb@, rb@, gl, gr),
        decreases (ll + 1 - gl) + (rl + 1 - gr),
    {
        if il >= ll {
            if ir >= rl {
                return Ordering::Equal;
            } else {
                return Ordering::Less;
            }
        } else if ir >= rl {
            return Ordering::Greater;
        }
        let (lv, nl) = read_value(lb, il);
        let (rv, nr) = read_value(rb, ir);
        il = nl;
        ir = nr;
        proof {
            gl = next_value(lb@, gl, -1i64).1;
            gr = next_value(rb@, gr, -1i64).1;
        }
        if lv != rv {
            return order_values(lv, rv);
        }
    }
}

} // verus!
