//! Character-level helpers shared by the string-building code of the crate:
//! conversions between strings and character vectors, string equality, and
//! decimal / hexadecimal rendering of integers.

use vstd::prelude::*;

verus! {

/// The characters of `s`, in order.
pub fn chars_of(s: &str) -> (r: Vec<char>)
    ensures
        r@ == s@,
{
    broadcast use vstd::string::axiom_spec_iter;

    let mut out: Vec<char> = Vec::new();
    for c in it: s.chars()
        invariant
            it.seq() == s@,
            out@ == s@.take(it.index() as int),
    {
        out.push(c);
        assert(out@ =~= s@.take(it.index() as int + 1));
    }
    assert(out@ =~= s@);
    out
}

/// The string made of the characters of `v`, in order.
///
/// Collects the characters into a `String` through `FromIterator<&char>`; the
/// contract states that the string holds exactly those characters.
#[verifier::external_body]
pub fn string_of_chars(v: &[char]) -> (r: String)
    ensures
        r@ == v@,
{
    String::from_iter(v)
}

/// Whether two strings hold the same characters.
///
/// Calls `<str as PartialEq>::eq`; the contract states that it compares the
/// characters.
#[verifier::external_body]
pub fn str_eq(a: &str, b: &str) -> (r: bool)
    ensures
        r == (a@ == b@),
{
    a == b
}

/// A copy of `s` as an owned string.
pub fn owned(s: &str) -> (r: String)
    ensures
        r@ == s@,
{
    s.to_owned()
}

/// `a` followed by `b`, as a new string.
pub fn concat2(a: &str, b: &str) -> (r: String)
    ensures
        r@ == a@ + b@,
{
    let mut out = a.to_owned();
    out.append(b);
    out
}

/// Whether `p` is a prefix of `s`.
pub open spec fn has_prefix(s: Seq<char>, p: Seq<char>) -> bool {
    p.len() <= s.len() && s.subrange(0, p.len() as int) == p
}

/// Whether `s` starts with `p`.
pub fn starts_with(s: &str, p: &str) -> (r: bool)
    ensures
        r == has_prefix(s@, p@),
{
    let sc = chars_of(s);
    let pc = chars_of(p);
    if pc.len() > sc.len() {
        return false;
    }
    let mut i: usize = 0;
    while i < pc.len()
        invariant
            pc@.len() <= sc@.len(),
            i <= pc@.len(),
            sc@ == s@,
            pc@ == p@,
            forall|k: int| 0 <= k < i ==> sc@[k] == pc@[k],
        decreases pc@.len() - i,
    {
        if sc[i] != pc[i] {
            assert(s@.subrange(0, p@.len() as int)[i as int] != p@[i as int]);
            return false;
        }
        i = i + 1;
    }
    assert(s@.subrange(0, p@.len() as int) =~= p@);
    true
}

/// Whether character `c` occurs in `s`.
pub fn contains_char(s: &str, c: char) -> (r: bool)
    ensures
        r == s@.contains(c),
{
    let sc = chars_of(s);
    let mut i: usize = 0;
    while i < sc.len()
        invariant
            sc@ == s@,
            i <= sc@.len(),
            forall|k: int| 0 <= k < i ==> sc@[k] != c,
        decreases sc@.len() - i,
    {
        if sc[i] == c {
            return true;
        }
        i = i + 1;
    }
    false
}

/// The index of the first `c` in `s`, or `s.len()` when there is none.
pub open spec fn find_char(s: Seq<char>, c: char) -> nat
    decreases s.len(),
{
    if s.len() == 0 {
        0
    } else if s[0] == c {
        0
    } else {
        1 + find_char(s.drop_first(), c)
    }
}

/// `s` cut at every `c`, as `str::split` with a character pattern does.
pub open spec fn split_spec(s: Seq<char>, c: char) -> Seq<Seq<char>>
    decreases s.len(),
{
    let k = find_char(s, c);
    if k >= s.len() {
        seq![s]
    } else {
        proof {
            lemma_find_char_bounds(s, c);
        }
        seq![s.take(k as int)] + split_spec(s.skip(k as int + 1), c)
    }
}

/// `s` cut at its first `c`, as `str::split_once` with a character pattern does.
pub open spec fn split_once_spec(s: Seq<char>, c: char) -> Option<(Seq<char>, Seq<char>)> {
    let k = find_char(s, c);
    if k >= s.len() {
        None
    } else {
        Some((s.take(k as int), s.skip(k as int + 1)))
    }
}

/// The views of a sequence of strings.
pub open spec fn views(v: Seq<String>) -> Seq<Seq<char>> {
    v.map_values(|x: String| x@)
}

/// `find_char` is at most the length, and points at a `c` when below it; no `c`
/// comes before it.
pub proof fn lemma_find_char_bounds(s: Seq<char>, c: char)
    ensures
        find_char(s, c) <= s.len(),
        find_char(s, c) < s.len() ==> s[find_char(s, c) as int] == c,
        forall|i: int| 0 <= i < find_char(s, c) ==> s[i] != c,
    decreases s.len(),
{
    if s.len() > 0 && s[0] != c {
        lemma_find_char_bounds(s.drop_first(), c);
        assert forall|i: int| 0 <= i < find_char(s, c) implies s[i] != c by {
            if i > 0 {
                assert(s[i] == s.drop_first()[i - 1]);
            }
        }
    }
}

/// Prefixing characters other than `c` shifts the first `c` by their number.
pub proof fn lemma_find_char_prefix(a: Seq<char>, t: Seq<char>, c: char)
    requires
        !a.contains(c),
    ensures
        find_char(a + t, c) == a.len() + find_char(t, c),
    decreases a.len(),
{
    if a.len() > 0 {
        assert((a + t)[0] == a[0]);
        assert(!a.drop_first().contains(c)) by {
            if a.drop_first().contains(c) {
                let k = choose|k: int| 0 <= k < a.drop_first().len() && a.drop_first()[k] == c;
                assert(a[k + 1] == c);
            }
        }
        assert((a + t).drop_first() =~= a.drop_first() + t);
        lemma_find_char_prefix(a.drop_first(), t, c);
    } else {
        assert(a + t =~= t);
    }
}

/// Splitting `a + [c] + t`, where `a` holds no `c`, gives `a` and then the pieces
/// of `t`.
pub proof fn lemma_split_step(a: Seq<char>, t: Seq<char>, c: char)
    requires
        !a.contains(c),
    ensures
        split_spec(a + seq![c] + t, c) == seq![a] + split_spec(t, c),
{
    let s = a + seq![c] + t;
    assert(s =~= a + (seq![c] + t));
    lemma_find_char_prefix(a, seq![c] + t, c);
    assert((seq![c] + t)[0] == c);
    assert(s.take(a.len() as int) =~= a);
    assert(s.skip(a.len() as int + 1) =~= t);
}

/// Splitting text with no `c` gives the text alone.
pub proof fn lemma_split_none(a: Seq<char>, c: char)
    requires
        !a.contains(c),
    ensures
        split_spec(a, c) == seq![a],
        split_once_spec(a, c) == None::<(Seq<char>, Seq<char>)>,
{
    lemma_find_char_prefix(a, Seq::empty(), c);
    assert(a + Seq::<char>::empty() =~= a);
}

/// `s` cut at every `c`.
pub fn split_char(s: &str, c: char) -> (r: Vec<String>)
    ensures
        views(r@) == split_spec(s@, c),
{
    let cs = chars_of(s);
    let mut parts: Vec<String> = Vec::new();
    let mut cur: Vec<char> = Vec::new();
    let mut i: usize = 0;
    assert(cur@ + cs@.skip(0) =~= s@);
    assert(views(parts@) + split_spec(s@, c) =~= split_spec(s@, c));
    while i < cs.len()
        invariant
            cs@ == s@,
            i <= cs@.len(),
            !cur@.contains(c),
            split_spec(s@, c) == views(parts@) + split_spec(cur@ + cs@.skip(i as int), c),
        decreases cs@.len() - i,
    {
        let x = cs[i];
        let ghost rest = cs@.skip(i as int);
        assert(rest =~= seq![x] + cs@.skip(i + 1));
        if x == c {
            let piece = string_of_chars(&cur);
            proof {
                assert(cur@ + rest =~= cur@ + seq![c] + cs@.skip(i + 1));
                lemma_split_step(cur@, cs@.skip(i + 1), c);
                assert(views(parts@.push(piece)) =~= views(parts@) + seq![cur@]);
                assert(cur@ + rest =~= cur@ + seq![c] + cs@.skip(i + 1));
            }
            parts.push(piece);
            cur = Vec::new();
            assert(cur@ + cs@.skip(i + 1) =~= cs@.skip(i + 1));
        } else {
            let ghost old_cur = cur@;
            cur.push(x);
            proof {
                assert(cur@ + cs@.skip(i + 1) =~= old_cur + rest);
                assert(!cur@.contains(c)) by {
                    if cur@.contains(c) {
                        let k = choose|k: int| 0 <= k < cur@.len() && cur@[k] == c;
                        if k < old_cur.len() {
                            assert(old_cur[k] == c);
                        }
                    }
                }
            }
        }
        i = i + 1;
    }
    let piece = string_of_chars(&cur);
    proof {
        assert(cur@ + cs@.skip(i as int) =~= cur@);
        lemma_split_none(cur@, c);
        assert(views(parts@.push(piece)) =~= views(parts@) + seq![cur@]);
    }
    parts.push(piece);
    parts
}

/// `s` cut at its first `c`, if it holds one.
pub fn split_once_char(s: &str, c: char) -> (r: Option<(String, String)>)
    ensures
        match split_once_spec(s@, c) {
            Some((a, b)) => r matches Some((x, y)) && x@ == a && y@ == b,
            None => r is None,
        },
{
    let cs = chars_of(s);
    let mut i: usize = 0;
    while i < cs.len()
        invariant
            cs@ == s@,
            i <= cs@.len(),
            forall|k: int| 0 <= k < i ==> cs@[k] != c,
        decreases cs@.len() - i,
    {
        if cs[i] == c {
            let mut a: Vec<char> = Vec::new();
            let mut j: usize = 0;
            while j < i
                invariant
                    i < cs@.len(),
                    j <= i,
                    a@ =~= cs@.take(j as int),
                decreases i - j,
            {
                a.push(cs[j]);
                j = j + 1;
            }
            let mut b: Vec<char> = Vec::new();
            let mut k: usize = i + 1;
            while k < cs.len()
                invariant
                    i < cs@.len(),
                    i + 1 <= k <= cs@.len(),
                    b@ =~= cs@.subrange(i + 1, k as int),
                decreases cs@.len() - k,
            {
                b.push(cs[k]);
                k = k + 1;
            }
            proof {
                assert(!cs@.take(i as int).contains(c)) by {
                    if cs@.take(i as int).contains(c) {
                        let m = choose|m: int| 0 <= m < i && cs@.take(i as int)[m] == c;
                        assert(cs@[m] == c);
                    }
                }
                assert(cs@ =~= cs@.take(i as int) + cs@.skip(i as int));
                lemma_find_char_prefix(cs@.take(i as int), cs@.skip(i as int), c);
                assert(cs@.skip(i as int)[0] == c);
                assert(b@ =~= cs@.skip(i + 1));
            }
            return Some((string_of_chars(&a), string_of_chars(&b)));
        }
        i = i + 1;
    }
    proof {
        assert(!cs@.contains(c)) by {
            if cs@.contains(c) {
                let m = choose|m: int| 0 <= m < cs@.len() && cs@[m] == c;
                assert(cs@[m] != c);
            }
        }
        lemma_split_none(cs@, c);
    }
    None
}

/// Whether `c` is an ASCII decimal digit.
pub open spec fn is_decimal_digit(c: char) -> bool {
    '0' <= c <= '9'
}

/// The value of a string of decimal digits.
pub open spec fn decimal_value(d: Seq<char>) -> nat
    decreases d.len(),
{
    if d.len() == 0 {
        0
    } else {
        decimal_value(d.drop_last()) * 10 + (d.last() as nat - 48) as nat
    }
}

/// `s` without a leading `+`.
pub open spec fn sign_stripped(s: Seq<char>) -> Seq<char> {
    if s.len() > 0 && s[0] == '+' {
        s.drop_first()
    } else {
        s
    }
}

/// Whether every character of `d` is a decimal digit.
pub open spec fn all_decimal_digits(d: Seq<char>) -> bool {
    forall|i: int| 0 <= i < d.len() ==> is_decimal_digit(#[trigger] d[i])
}

/// What `u32::from_str` gives for `s`: an optional `+`, then at least one
/// decimal digit and nothing else, of a value that fits.
pub open spec fn u32_from_text(s: Seq<char>) -> Option<u32> {
    let d = sign_stripped(s);
    if d.len() == 0 {
        None
    } else if all_decimal_digits(d) {
        if decimal_value(d) <= u32::MAX {
            Some(decimal_value(d) as u32)
        } else {
            None
        }
    } else {
        None
    }
}

proof fn lemma_decimal_value_grows(d: Seq<char>, i: int)
    requires
        0 <= i <= d.len(),
        forall|k: int| 0 <= k < d.len() ==> is_decimal_digit(#[trigger] d[k]),
    ensures
        decimal_value(d.take(i)) <= decimal_value(d),
    decreases d.len() - i,
{
    if i < d.len() {
        lemma_decimal_value_grows(d, i + 1);
        assert(d.take(i + 1).drop_last() =~= d.take(i));
    } else {
        assert(d.take(i) =~= d);
    }
}

/// Parses a decimal `u32` as `u32::from_str` does.
pub fn parse_u32(s: &str) -> (r: Option<u32>)
    ensures
        r == u32_from_text(s@),
{
    let cs = chars_of(s);
    let start: usize = if cs.len() > 0 && cs[0] == '+' {
        1
    } else {
        0
    };
    let ghost d = sign_stripped(s@);
    assert(d =~= cs@.skip(start as int));
    if start >= cs.len() {
        return None;
    }
    let mut acc: u64 = 0;
    let mut i = start;
    while i < cs.len()
        invariant
            cs@ == s@,
            start <= i <= cs@.len(),
            d == cs@.skip(start as int),
            d == sign_stripped(s@),
            d.len() > 0,
            forall|k: int| 0 <= k < i - start ==> is_decimal_digit(#[trigger] d[k]),
            acc == decimal_value(d.take(i - start)),
            acc <= u32::MAX,
        decreases cs@.len() - i,
    {
        let c = cs[i];
        if !('0' <= c && c <= '9') {
            assert(d[i - start] == c);
            assert(!is_decimal_digit(d[i - start]));
            assert(d.len() > 0);
            return None;
        }
        let digit = (c as u32 - 48) as u64;
        let ghost prev = acc;
        acc = acc * 10 + digit;
        proof {
            let t = d.take(i + 1 - start);
            assert(t.drop_last() =~= d.take(i - start));
            assert(t.last() == c);
            assert(digit == c as nat - 48);
            assert(decimal_value(t) == decimal_value(t.drop_last()) * 10 + (t.last() as nat - 48) as nat);
            assert(acc == decimal_value(t));
            assert(is_decimal_digit(d[i - start]));
        }
        if acc > u32::MAX as u64 {
            proof {
                if all_decimal_digits(d) {
                    lemma_decimal_value_grows(d, i + 1 - start);
                }
            }
            return None;
        }
        i = i + 1;
    }
    assert(d.take(i - start) =~= d);
    Some(acc as u32)
}

/// Decimal text is read back as the number it was made from.
pub proof fn lemma_decimal_round_trip(n: u32)
    ensures
        u32_from_text(decimal(n as nat)) == Some(n),
{
    lemma_digits_decimal(n as nat);
    let t = decimal(n as nat);
    assert(t[0] != '+') by {
        assert(is_decimal_digit(t[0]));
    }
}

pub proof fn lemma_digits_decimal(n: nat)
    ensures
        decimal(n).len() > 0,
        forall|i: int| 0 <= i < decimal(n).len() ==> is_decimal_digit(#[trigger] decimal(n)[i]),
        decimal_value(decimal(n)) == n,
    decreases n,
{
    let t = decimal(n);
    assert((digit_char(n % 10) as nat) == 48 + n % 10);
    if n >= 10 {
        lemma_digits_decimal(n / 10);
        assert(t == decimal(n / 10).push(digit_char(n % 10)));
        assert(t.drop_last() =~= decimal(n / 10));
        assert(t.last() == digit_char(n % 10));
        assert(n == (n / 10) * 10 + n % 10);
        assert(decimal_value(t) == decimal_value(t.drop_last()) * 10 + (t.last() as nat - 48) as nat);
        assert forall|i: int| 0 <= i < t.len() implies is_decimal_digit(#[trigger] t[i]) by {
            if i < t.len() - 1 {
                assert(t[i] == decimal(n / 10)[i]);
            }
        }
    } else {
        assert(t == seq![digit_char(n)]);
        assert(t.drop_last() =~= Seq::<char>::empty());
        assert(decimal_value(t) == decimal_value(t.drop_last()) * 10 + (t.last() as nat - 48) as nat);
    }
}

/// The index of the first occurrence of `pat` in `s` at or after `i`, or
/// `s.len()` when there is none.
pub open spec fn find_seq_from(s: Seq<char>, pat: Seq<char>, i: int) -> int
    decreases s.len() + 1 - i,
{
    if i < 0 || i + pat.len() > s.len() {
        s.len() as int
    } else if s.subrange(i, i + pat.len()) == pat {
        i
    } else {
        find_seq_from(s, pat, i + 1)
    }
}

/// The piece of `s` between the first and the second occurrence of `pat` (or
/// the end), as `s.split(pat).nth(1)` gives it; `None` when `pat` does not occur.
pub open spec fn second_piece(s: Seq<char>, pat: Seq<char>) -> Option<Seq<char>> {
    let i = find_seq_from(s, pat, 0);
    if i >= s.len() {
        None
    } else {
        let rest = s.skip(i + pat.len());
        let j = find_seq_from(rest, pat, 0);
        Some(rest.take(j))
    }
}

proof fn lemma_find_seq_from_bounds(s: Seq<char>, pat: Seq<char>, i: int)
    requires
        0 <= i,
    ensures
        i <= find_seq_from(s, pat, i) <= s.len() || find_seq_from(s, pat, i) == s.len(),
        find_seq_from(s, pat, i) < s.len() ==> find_seq_from(s, pat, i) + pat.len() <= s.len(),
    decreases s.len() + 1 - i,
{
    if i + pat.len() <= s.len() && s.subrange(i, i + pat.len()) != pat {
        lemma_find_seq_from_bounds(s, pat, i + 1);
    }
}

fn find_chars(s: &Vec<char>, pat: &Vec<char>, start: usize) -> (r: usize)
    requires
        start <= s@.len(),
    ensures
        r == find_seq_from(s@, pat@, start as int),
{
    let mut i = start;
    while pat.len() <= s.len() - i
        invariant
            start <= i <= s@.len(),
            find_seq_from(s@, pat@, start as int) == find_seq_from(s@, pat@, i as int),
        decreases s@.len() - i,
    {
        let mut j: usize = 0;
        let mut same = true;
        let n = s.len();
        while j < pat.len()
            invariant
                n == s@.len(),
                i + pat@.len() <= s@.len(),
                i <= s@.len(),
                j <= pat@.len(),
                same == (forall|k: int| 0 <= k < j ==> s@[i + k] == pat@[k]),
            decreases pat@.len() - j,
        {
            if s[i + j] != pat[j] {
                same = false;
            }
            j = j + 1;
        }
        if same {
            assert(s@.subrange(i as int, i + pat@.len()) =~= pat@);
            return i;
        }
        proof {
            let k = choose|k: int| 0 <= k < pat@.len() && s@[i + k] != pat@[k];
            assert(s@.subrange(i as int, i + pat@.len())[k] != pat@[k]);
        }
        i = i + 1;
    }
    s.len()
}

/// The piece of `s` between the first and second occurrence of `pat`.
pub fn second_piece_of(s: &str, pat: &str) -> (r: Option<String>)
    ensures
        match second_piece(s@, pat@) {
            Some(p) => r matches Some(x) && x@ == p,
            None => r is None,
        },
{
    let cs = chars_of(s);
    let pc = chars_of(pat);
    let i = find_chars(&cs, &pc, 0);
    proof {
        lemma_find_seq_from_bounds(cs@, pc@, 0);
    }
    if i >= cs.len() {
        return None;
    }
    let mut rest: Vec<char> = Vec::new();
    let mut k = i + pc.len();
    while k < cs.len()
        invariant
            i + pc@.len() <= k <= cs@.len(),
            rest@ == cs@.subrange(i + pc@.len(), k as int),
        decreases cs@.len() - k,
    {
        rest.push(cs[k]);
        k = k + 1;
        assert(rest@ =~= cs@.subrange(i + pc@.len(), k as int));
    }
    assert(rest@ =~= cs@.skip(i + pc@.len()));
    let j = find_chars(&rest, &pc, 0);
    proof {
        lemma_find_seq_from_bounds(rest@, pc@, 0);
    }
    let mut piece: Vec<char> = Vec::new();
    let mut m: usize = 0;
    while m < j
        invariant
            j <= rest@.len(),
            m <= j,
            piece@ == rest@.take(m as int),
        decreases j - m,
    {
        piece.push(rest[m]);
        m = m + 1;
        assert(piece@ =~= rest@.take(m as int));
    }
    Some(string_of_chars(&piece))
}

/// The pieces of `items` joined with `sep` between them.
pub open spec fn join_spec(items: Seq<Seq<char>>, sep: Seq<char>) -> Seq<char>
    decreases items.len(),
{
    if items.len() == 0 {
        Seq::empty()
    } else if items.len() == 1 {
        items[0]
    } else {
        join_spec(items.drop_last(), sep) + sep + items.last()
    }
}

/// Joining at least two pieces is the first piece, the separator, then the
/// rest joined.
pub proof fn lemma_join_front(items: Seq<Seq<char>>, sep: Seq<char>)
    requires
        items.len() >= 2,
    ensures
        join_spec(items, sep) == items[0] + sep + join_spec(items.drop_first(), sep),
    decreases items.len(),
{
    let rest = items.drop_first();
    if items.len() == 2 {
        assert(items.drop_last() =~= seq![items[0]]);
        assert(join_spec(items.drop_last(), sep) == items[0]);
        assert(rest =~= seq![items[1]]);
        assert(join_spec(rest, sep) == items[1]);
        assert(join_spec(items, sep) == join_spec(items.drop_last(), sep) + sep + items.last());
    } else {
        lemma_join_front(items.drop_last(), sep);
        assert(items.drop_last().drop_first() =~= rest.drop_last());
        assert(rest.last() == items.last());
        assert(items.drop_last()[0] == items[0]);
        assert(join_spec(items, sep) == join_spec(items.drop_last(), sep) + sep + items.last());
        assert(join_spec(rest, sep) == join_spec(rest.drop_last(), sep) + sep + rest.last());
        assert(items[0] + sep + join_spec(rest.drop_last(), sep) + sep + items.last() =~= items[0]
            + sep + (join_spec(rest.drop_last(), sep) + sep + rest.last()));
    }
}

/// Text joined from pieces without `c`, with a separator without `c`, holds no `c`.
pub proof fn lemma_join_without(items: Seq<Seq<char>>, sep: Seq<char>, c: char)
    requires
        !sep.contains(c),
        forall|i: int| 0 <= i < items.len() ==> !(#[trigger] items[i]).contains(c),
    ensures
        !join_spec(items, sep).contains(c),
    decreases items.len(),
{
    if items.len() >= 2 {
        lemma_join_without(items.drop_last(), sep, c);
        let a = join_spec(items.drop_last(), sep);
        let t = a + sep + items.last();
        assert(!items.last().contains(c));
        if t.contains(c) {
            let k = choose|k: int| 0 <= k < t.len() && t[k] == c;
            if k < a.len() {
                assert(a[k] == c);
            } else if k < a.len() + sep.len() {
                assert(sep[k - a.len()] == c);
            } else {
                assert(items.last()[k - a.len() - sep.len()] == c);
            }
        }
    } else if items.len() == 1 {
        assert(!items[0].contains(c));
    }
}

/// Cutting text joined with `c` from pieces without `c` gives the pieces back.
pub proof fn lemma_split_join(items: Seq<Seq<char>>, c: char)
    requires
        items.len() >= 1,
        forall|i: int| 0 <= i < items.len() ==> !(#[trigger] items[i]).contains(c),
    ensures
        split_spec(join_spec(items, seq![c]), c) == items,
    decreases items.len(),
{
    if items.len() == 1 {
        assert(!items[0].contains(c));
        lemma_split_none(items[0], c);
        assert(seq![items[0]] =~= items);
    } else {
        lemma_join_front(items, seq![c]);
        let rest = items.drop_first();
        assert forall|i: int| 0 <= i < rest.len() implies !(#[trigger] rest[i]).contains(c) by {
            assert(rest[i] == items[i + 1]);
        }
        lemma_split_join(rest, c);
        assert(!items[0].contains(c));
        lemma_split_step(items[0], join_spec(rest, seq![c]), c);
        assert(seq![items[0]] + rest =~= items);
    }
}

/// The strings of `items` joined with `sep` between them.
pub fn join_strings(items: &Vec<String>, sep: &str) -> (r: String)
    ensures
        r@ == join_spec(views(items@), sep@),
{
    let mut out = String::new();
    let mut i: usize = 0;
    while i < items.len()
        invariant
            i <= items@.len(),
            out@ == join_spec(views(items@).take(i as int), sep@),
        decreases items@.len() - i,
    {
        proof {
            let t = views(items@).take(i + 1);
            assert(t.drop_last() =~= views(items@).take(i as int));
            assert(t.last() == items@[i as int]@);
        }
        if i > 0 {
            out.append(sep);
        } else {
            assert(views(items@).take(1) =~= seq![items@[0]@]);
        }
        out.append(items[i].as_str());
        i = i + 1;
    }
    assert(views(items@).take(i as int) =~= views(items@));
    out
}

/// The character of a decimal digit.
pub open spec fn digit_char(d: nat) -> char {
    if d < 10 {
        (48 + d) as char
    } else {
        (87 + d) as char
    }
}

/// Digits of `n` in base `b` (2 to 16), most significant first, lower case.
pub open spec fn digits_in_base(n: nat, b: nat) -> Seq<char>
    decreases n,
{
    if b < 2 || n < b {
        seq![digit_char(n)]
    } else {
        proof {
            assert(n / b < n) by (nonlinear_arith)
                requires
                    b >= 2,
                    n >= b,
            ;
        }
        digits_in_base(n / b, b).push(digit_char(n % b))
    }
}

/// Decimal text of `n`, as `Display` renders it.
pub open spec fn decimal(n: nat) -> Seq<char> {
    digits_in_base(n, 10)
}

/// Lower-case hexadecimal text of `n`, as `LowerHex` renders it.
pub open spec fn lower_hex(n: nat) -> Seq<char> {
    digits_in_base(n, 16)
}

/// The text of `n` in base `base` (10 or 16).
pub fn u64_text(n: u64, base: u64) -> (r: String)
    requires
        base == 10 || base == 16,
    ensures
        r@ == digits_in_base(n as nat, base as nat),
{
    let mut digits: Vec<char> = Vec::new();
    let mut m = n;
    // digits are produced least significant first
    loop
        invariant_except_break
            base == 10 || base == 16,
            digits_in_base(n as nat, base as nat) == digits_in_base(m as nat, base as nat)
                + digits@.reverse(),
        ensures
            digits_in_base(n as nat, base as nat) == digits@.reverse(),
        decreases m,
    {
        let d = m % base;
        let c = if d < 10 {
            ((48 + d) as u8) as char
        } else {
            ((87 + d) as u8) as char
        };
        assert(c == digit_char(d as nat));
        if m < base {
            assert(digits_in_base(m as nat, base as nat) == seq![c]);
            let ghost before = digits@;
            digits.push(c);
            assert(digits@.reverse() =~= seq![c] + before.reverse());
            break ;
        }
        let ghost before = digits@;
        digits.push(c);
        assert(digits@.reverse() =~= seq![c] + before.reverse());
        assert(digits_in_base(m as nat, base as nat) == digits_in_base(
            (m / base) as nat,
            base as nat,
        ).push(c));
        assert(digits_in_base((m / base) as nat, base as nat).push(c) + before.reverse()
            =~= digits_in_base((m / base) as nat, base as nat) + digits@.reverse());
        m = m / base;
    }
    let mut out: Vec<char> = Vec::new();
    let mut i = digits.len();
    while i > 0
        invariant
            i <= digits@.len(),
            out@ =~= digits@.subrange(i as int, digits@.len() as int).reverse(),
        decreases i,
    {
        i = i - 1;
        out.push(digits[i]);
    }
    assert(out@ =~= digits@.reverse());
    string_of_chars(&out)
}

/// Decimal text of `n`, with a leading `-` when it is negative, as `Display`
/// renders a signed integer.
pub open spec fn signed_decimal(n: int) -> Seq<char> {
    if n < 0 {
        seq!['-'] + decimal((-n) as nat)
    } else {
        decimal(n as nat)
    }
}

/// The decimal text of a signed integer.
pub fn i64_text(n: i64) -> (r: String)
    ensures
        r@ == signed_decimal(n as int),
{
    if n < 0 {
        let m: u64 = ((-(n + 1)) as u64) + 1;
        let digits = u64_text(m, 10);
        proof {
            reveal_strlit("-");
        }
        concat2("-", digits.as_str())
    } else {
        u64_text(n as u64, 10)
    }
}

} // verus!
