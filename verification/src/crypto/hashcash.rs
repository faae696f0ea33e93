//! Hashcash proof-of-work tokens (versions 0 and 1).
//!
//! A token is `version:[bits:]YYMMDD:resource:ext:rand:counter`; its value is
//! the number of leading zero bits of `SHA1(token)`. Minting searches the
//! counter until that value reaches the requested difficulty.

use crate::crypto::hash_util::{sha1_digest, sha1_of};
use crate::error::{RaError, Result};
use crate::text::{
    chars_of, concat2, contains_char, decimal, digit_char, digits_in_base, join_spec,
    join_strings, lemma_decimal_round_trip, lemma_find_char_prefix, lemma_join_without,
    lemma_split_join, lemma_split_none, lower_hex, owned, parse_u32, split_char, split_once_char,
    split_once_spec, split_spec, string_of_chars, u32_from_text, u64_text, views,
};
use crate::util::random::random_u64;
use crate::util::string_map::{keys_sorted, lemma_insert_skip, sorted_insert, text_lt, StringMap};
use chrono::{Datelike, NaiveDate, Utc};
use vstd::prelude::*;
use vstd::std_specs::bits::{axiom_u8_leading_zeros, u8_leading_zeros};
use vstd::utf8::encode_utf8;

verus! {

/// The number of bits of a SHA-1 digest: the largest difficulty a token can ask for.
pub const HASH_BITS: u32 = 160;

/// The number of leading zero bits of `bytes`, read as one big-endian bit string.
pub open spec fn zero_bits(bytes: Seq<u8>) -> nat
    decreases bytes.len(),
{
    if bytes.len() == 0 {
        0
    } else if bytes[0] == 0 {
        8 + zero_bits(bytes.drop_first())
    } else {
        u8_leading_zeros(bytes[0]) as nat
    }
}

/// The value of a token text: the leading zero bits of the SHA-1 digest of
/// its UTF-8 bytes.
pub open spec fn hash_bits(token: Seq<char>) -> nat {
    zero_bits(sha1_digest(encode_utf8(token)))
}

proof fn lemma_zero_bits_bound(bytes: Seq<u8>)
    ensures
        zero_bits(bytes) <= 8 * bytes.len(),
    decreases bytes.len(),
{
    if bytes.len() > 0 {
        lemma_zero_bits_bound(bytes.drop_first());
        axiom_u8_leading_zeros(bytes[0]);
    }
}

/// Counts the leading zero bits of `bytes`: eight for each zero byte, then the
/// leading zeros of the first byte that is not zero.
pub fn leading_zero_bits(bytes: &[u8]) -> (r: u32)
    requires
        bytes@.len() * 8 <= u32::MAX,
    ensures
        r == zero_bits(bytes@),
{
    let mut total: u32 = 0;
    let mut i: usize = 0;
    assert(bytes@.skip(0) =~= bytes@);
    while i < bytes.len()
        invariant
            i <= bytes@.len(),
            bytes@.len() * 8 <= u32::MAX,
            total == 8 * i,
            forall|j: int| 0 <= j < i ==> bytes@[j] == 0,
            zero_bits(bytes@) == total + zero_bits(bytes@.skip(i as int)),
        decreases bytes@.len() - i,
    {
        let b = bytes[i];
        let ghost rest = bytes@.skip(i as int);
        assert(rest.drop_first() =~= bytes@.skip(i + 1));
        if b == 0 {
            total = total + 8;
        } else {
            proof {
                axiom_u8_leading_zeros(b);
            }
            total = total + b.leading_zeros();
            return total;
        }
        i = i + 1;
    }
    total
}

/// The value of `token`: the leading zero bits of its SHA-1 digest.
fn sha1_bits(token: &str) -> (r: u32)
    ensures
        r == hash_bits(token@),
{
    let digest = sha1_of(token.as_bytes());
    leading_zero_bits(digest.as_slice())
}

/// Whether `y` is a leap year of the proleptic Gregorian calendar.
pub open spec fn is_leap_year(y: int) -> bool {
    (y % 4 == 0 && y % 100 != 0) || y % 400 == 0
}

/// The number of days of month `m` (1 to 12) of year `y`.
pub open spec fn days_in_month(y: int, m: int) -> int {
    if m == 2 {
        if is_leap_year(y) {
            29
        } else {
            28
        }
    } else if m == 4 || m == 6 || m == 9 || m == 11 {
        30
    } else {
        31
    }
}

/// The earliest year a calendar date can have.
pub open spec fn min_date_year() -> int {
    -262143
}

/// The latest year a calendar date can have.
pub open spec fn max_date_year() -> int {
    262142
}

/// Whether `(y, m, d)` names a day of the proleptic Gregorian calendar, within
/// the range of years that dates cover.
pub open spec fn is_calendar_date(y: int, m: int, d: int) -> bool {
    &&& min_date_year() <= y <= max_date_year()
    &&& 1 <= m <= 12
    &&& 1 <= d <= days_in_month(y, m)
}

/// `NaiveDate::from_ymd_opt`; the contract states that a date is made exactly
/// for the days of the proleptic Gregorian calendar in years -262143 to 262142.
#[verifier::external_body]
fn date_exists(year: i32, month: u32, day: u32) -> (r: bool)
    ensures
        r == is_calendar_date(year as int, month as int, day as int),
{
    NaiveDate::from_ymd_opt(year, month, day).is_some()
}

/// `Utc::now().date_naive()`, as year, month and day; the contract states only
/// that it is a calendar date.
#[verifier::external_body]
fn today_utc() -> (r: (i32, u32, u32))
    ensures
        is_calendar_date(r.0 as int, r.1 as int, r.2 as int),
{
    let d = Utc::now().date_naive();
    (d.year(), d.month(), d.day())
}

/// What `NaiveDate::parse_from_str(text, "%y%m%d")` reads from `text`, as year,
/// month and day.
pub uninterp spec fn yymmdd_date(text: Seq<char>) -> Option<(i32, u32, u32)>;

/// The two-digit text of `n` (0 to 99).
pub open spec fn two_digits(n: int) -> Seq<char> {
    seq![(48 + n / 10) as char, (48 + n % 10) as char]
}

/// The `%y%m%d` text of a date: the year modulo 100, the month and the day,
/// two digits each.
pub open spec fn yymmdd_text(y: int, m: int, d: int) -> Seq<char> {
    two_digits(y % 100) + two_digits(m) + two_digits(d)
}

/// `NaiveDate::parse_from_str(text, "%y%m%d")`, as year, month and day, or the
/// parse error's message. The contract names the result, and states what the
/// source shows of it: a date read is a calendar date whose year (from its last
/// two digits) lies in 1970 to 2069, and the text of such a date is read back
/// as that date.
#[verifier::external_body]
fn parse_yymmdd(text: &str) -> (r: std::result::Result<(i32, u32, u32), String>)
    ensures
        r is Ok <==> yymmdd_date(text@) is Some,
        r matches Ok(d) ==> yymmdd_date(text@) == Some(d),
        r matches Ok(d) ==> is_calendar_date(d.0 as int, d.1 as int, d.2 as int) && 1970 <= d.0
            <= 2069,
        r is Err ==> forall|y: i32, m: u32, d: u32|
            1970 <= y <= 2069 && is_calendar_date(y as int, m as int, d as int) ==> text@
                != #[trigger] yymmdd_text(y as int, m as int, d as int),
        r matches Ok(v) ==> forall|y: i32, m: u32, d: u32|
            1970 <= y <= 2069 && is_calendar_date(y as int, m as int, d as int) && text@
                == #[trigger] yymmdd_text(y as int, m as int, d as int) ==> v == (y, m, d),
{
    match NaiveDate::parse_from_str(text, "%y%m%d") {
        Ok(d) => Ok((d.year(), d.month(), d.day())),
        Err(e) => Err(e.to_string()),
    }
}

/// A calendar date, as a hashcash token carries it.
#[derive(Debug, Clone, Copy, PartialEq, Eq)]
pub struct TokenDate {
    year: i32,
    month: u32,
    day: u32,
}

impl TokenDate {
    #[verifier::type_invariant]
    spec fn valid(self) -> bool {
        is_calendar_date(self.year as int, self.month as int, self.day as int)
    }

    /// Year, month and day.
    pub closed spec fn ymd(self) -> (i32, u32, u32) {
        (self.year, self.month, self.day)
    }

    /// The date `year-month-day`, when it is a calendar date.
    pub fn new(year: i32, month: u32, day: u32) -> (r: Option<TokenDate>)
        ensures
            r is Some <==> is_calendar_date(year as int, month as int, day as int),
            r matches Some(d) ==> d.ymd() == (year, month, day),
    {
        if date_exists(year, month, day) {
            Some(TokenDate { year, month, day })
        } else {
            None
        }
    }

    /// Today's date in UTC.
    pub fn today() -> (r: TokenDate)
        ensures
            is_calendar_date(r.ymd().0 as int, r.ymd().1 as int, r.ymd().2 as int),
    {
        let (year, month, day) = today_utc();
        TokenDate { year, month, day }
    }

    /// The year.
    pub fn year(&self) -> (r: i32)
        ensures
            r == self.ymd().0,
    {
        self.year
    }

    /// The month (1 to 12).
    pub fn month(&self) -> (r: u32)
        ensures
            r == self.ymd().1,
    {
        self.month
    }

    /// The day of the month.
    pub fn day(&self) -> (r: u32)
        ensures
            r == self.ymd().2,
    {
        self.day
    }

    /// The `YYMMDD` text of the date.
    pub fn yymmdd(&self) -> (r: String)
        ensures
            r@ == yymmdd_text(self.ymd().0 as int, self.ymd().1 as int, self.ymd().2 as int),
    {
        proof {
            use_type_invariant(self);
        }
        let y = self.year % 100;
        let yy: u32 = if y < 0 {
            (y + 100) as u32
        } else {
            y as u32
        };
        assert(yy == self.year as int % 100);
        let mut out: Vec<char> = Vec::new();
        push_two_digits(&mut out, yy);
        push_two_digits(&mut out, self.month);
        push_two_digits(&mut out, self.day);
        assert(out@ =~= yymmdd_text(self.year as int, self.month as int, self.day as int));
        string_of_chars(out.as_slice())
    }

    /// Reads a `YYMMDD` date as `NaiveDate::parse_from_str` with `%y%m%d` does.
    pub fn from_yymmdd(text: &str) -> (r: std::result::Result<TokenDate, String>)
        ensures
            r is Ok <==> yymmdd_date(text@) is Some,
            r matches Ok(d) ==> yymmdd_date(text@) == Some(d.ymd()),
            r matches Ok(d) ==> is_calendar_date(d.ymd().0 as int, d.ymd().1 as int, d.ymd().2 as int),
            forall|y: i32, m: u32, d: u32|
                1970 <= y <= 2069 && is_calendar_date(y as int, m as int, d as int) && text@
                    == #[trigger] yymmdd_text(y as int, m as int, d as int) ==> (r matches Ok(
                    t,
                ) && t.ymd() == (y, m, d)),
    {
        match parse_yymmdd(text) {
            Ok((year, month, day)) => Ok(TokenDate { year, month, day }),
            Err(e) => Err(e),
        }
    }
}

fn push_two_digits(out: &mut Vec<char>, n: u32)
    requires
        n < 100,
    ensures
        final(out)@ == old(out)@ + two_digits(n as int),
{
    let hi = ((48 + n / 10) as u8) as char;
    let lo = ((48 + n % 10) as u8) as char;
    out.push(hi);
    out.push(lo);
}

/// An extension key may hold no `:`, `;` or `=`.
pub open spec fn key_ok(k: Seq<char>) -> bool {
    !k.contains(':') && !k.contains(';') && !k.contains('=')
}

/// An extension value may hold no `:`, `;` or `,`.
pub open spec fn value_ok(v: Seq<char>) -> bool {
    !v.contains(':') && !v.contains(';') && !v.contains(',')
}

/// Whether an extension's key and all its values may be written into a token.
pub open spec fn entry_ok(e: (Seq<char>, Seq<Seq<char>>)) -> bool {
    key_ok(e.0) && forall|j: int| 0 <= j < e.1.len() ==> value_ok(#[trigger] e.1[j])
}

/// Whether every extension may be written into a token.
pub open spec fn entries_ok(s: Seq<(Seq<char>, Seq<Seq<char>>)>) -> bool {
    forall|i: int| 0 <= i < s.len() ==> entry_ok(#[trigger] s[i])
}

/// The extensions of a map, with each list of values taken as texts.
pub open spec fn ext_view(s: Seq<(Seq<char>, Vec<String>)>) -> Seq<(Seq<char>, Seq<Seq<char>>)> {
    s.map_values(|e: (Seq<char>, Vec<String>)| (e.0, views(e.1@)))
}

/// One extension as written in a token: the key alone when it has no values,
/// else the key, `=`, and the values separated by `,`.
pub open spec fn entry_text(e: (Seq<char>, Seq<Seq<char>>)) -> Seq<char> {
    if e.1.len() == 0 {
        e.0
    } else {
        e.0 + seq!['='] + join_spec(e.1, seq![','])
    }
}

/// The extension field of a token: the extensions in key order, separated by `;`.
pub open spec fn ext_text(s: Seq<(Seq<char>, Seq<Seq<char>>)>) -> Seq<char> {
    join_spec(s.map_values(|e: (Seq<char>, Seq<Seq<char>>)| entry_text(e)), seq![';'])
}

/// One item of an extension field read back: text before the first `=` is the
/// key and text after it the values, cut at `,`; with no `=` the whole item is
/// a key without values.
pub open spec fn ext_item(item: Seq<char>) -> (Seq<char>, Seq<Seq<char>>) {
    match split_once_spec(item, '=') {
        None => (item, Seq::empty()),
        Some((k, v)) => (k, split_spec(v, ',')),
    }
}

/// `acc` with the items put in one after the other, a later key replacing an
/// earlier one.
pub open spec fn ext_fold(acc: Seq<(Seq<char>, Seq<Seq<char>>)>, items: Seq<Seq<char>>) -> Seq<
    (Seq<char>, Seq<Seq<char>>),
>
    decreases items.len(),
{
    if items.len() == 0 {
        acc
    } else {
        ext_fold(
            sorted_insert(acc, ext_item(items[0]).0, ext_item(items[0]).1),
            items.drop_first(),
        )
    }
}

/// The extensions read from an extension field: none for empty text, else the
/// items between `;` put in one after the other.
pub open spec fn ext_parse(t: Seq<char>) -> Seq<(Seq<char>, Seq<Seq<char>>)> {
    if t.len() == 0 {
        Seq::empty()
    } else {
        ext_fold(Seq::empty(), split_spec(t, ';'))
    }
}

/// The text of `items` with `c` between them, checked to hold no `c` itself.
fn has_any(s: &str, a: char, b: char, c: char) -> (r: bool)
    ensures
        r == (s@.contains(a) || s@.contains(b) || s@.contains(c)),
{
    contains_char(s, a) || contains_char(s, b) || contains_char(s, c)
}

/// Writes the extension field of a token.
///
/// Fails with [`RaError::Invalid`] when a key holds `:`, `;` or `=`, or a value
/// holds `:`, `;` or `,`.
pub fn serialize_extensions(ext: &StringMap<Vec<String>>) -> (r: Result<String>)
    ensures
        r is Ok <==> entries_ok(ext_view(ext@)),
        r matches Ok(t) ==> t@ == ext_text(ext_view(ext@)),
        r matches Err(e) ==> e is Invalid,
{
    let ghost ev = ext_view(ext@);
    let n = ext.len();
    let mut items: Vec<String> = Vec::new();
    let mut i: usize = 0;
    while i < n
        invariant
            n == ext@.len(),
            ev == ext_view(ext@),
            i <= n,
            items@.len() == i,
            forall|j: int| 0 <= j < i ==> entry_ok(#[trigger] ev[j]),
            forall|j: int| 0 <= j < i ==> (#[trigger] items@[j])@ == entry_text(ev[j]),
        decreases n - i,
    {
        let key = ext.key_at(i);
        let values = ext.value_at(i);
        assert(ev[i as int] == (key@, views(values@)));
        if has_any(key.as_str(), ':', ';', '=') {
            return Err(RaError::invalid(concat2("illegal char in extension key: ", key.as_str())));
        }
        let mut j: usize = 0;
        while j < values.len()
            invariant
                j <= values@.len(),
                i < ev.len(),
                ev == ext_view(ext@),
                ev[i as int] == (key@, views(values@)),
                forall|k: int| 0 <= k < j ==> value_ok(#[trigger] values@[k]@),
            decreases values@.len() - j,
        {
            if has_any(values[j].as_str(), ':', ';', ',') {
                proof {
                    assert(views(values@)[j as int] == values@[j as int]@);
                    assert(!value_ok(views(values@)[j as int]));
                    assert(ev[i as int].1[j as int] == views(values@)[j as int]);
                    assert(!entry_ok(ev[i as int]));
                }
                return Err(
                    RaError::invalid(concat2("illegal char in extension value: ", values[j].as_str())),
                );
            }
            j = j + 1;
        }
        proof {
            assert forall|k: int| 0 <= k < views(values@).len() implies value_ok(
                #[trigger] views(values@)[k],
            ) by {
                assert(views(values@)[k] == values@[k]@);
            }
        }
        let text = if values.len() == 0 {
            owned(key.as_str())
        } else {
            proof {
                reveal_strlit(",");
                reveal_strlit("=");
            }
            let joined = join_strings(values, ",");
            let head = concat2(key.as_str(), "=");
            assert(","@ =~= seq![',']);
            assert("="@ =~= seq!['=']);
            concat2(head.as_str(), joined.as_str())
        };
        assert(text@ == entry_text(ev[i as int]));
        let ghost before = items@;
        items.push(text);
        assert(forall|j: int| 0 <= j < i ==> items@[j] == before[j]);
        i = i + 1;
    }
    proof {
        let es = ev.map_values(|e: (Seq<char>, Seq<Seq<char>>)| entry_text(e));
        assert(views(items@) =~= es);
        assert forall|j: int| 0 <= j < ev.len() implies entry_ok(#[trigger] ev[j]) by {}
        reveal_strlit(";");
        assert(";"@ =~= seq![';']);
    }
    let out = join_strings(&items, ";");
    Ok(out)
}

proof fn lemma_ext_view_insert(s: Seq<(Seq<char>, Vec<String>)>, k: Seq<char>, v: Vec<String>)
    ensures
        ext_view(sorted_insert(s, k, v)) == sorted_insert(ext_view(s), k, views(v@)),
    decreases s.len(),
{
    let t = ext_view(s);
    if s.len() == 0 {
        assert(ext_view(seq![(k, v)]) =~= seq![(k, views(v@))]);
    } else if s[0].0 == k {
        assert(ext_view(seq![(k, v)] + s.drop_first()) =~= seq![(k, views(v@))] + t.drop_first());
    } else if text_lt(k, s[0].0) {
        assert(ext_view(seq![(k, v)] + s) =~= seq![(k, views(v@))] + t);
    } else {
        lemma_ext_view_insert(s.drop_first(), k, v);
        assert(ext_view(seq![s[0]] + sorted_insert(s.drop_first(), k, v)) =~= seq![t[0]]
            + ext_view(sorted_insert(s.drop_first(), k, v)));
        assert(ext_view(s.drop_first()) =~= t.drop_first());
    }
}

/// Reads the extension field of a token.
pub fn deserialize_extensions(s: &str) -> (r: StringMap<Vec<String>>)
    ensures
        ext_view(r@) == ext_parse(s@),
{
    let mut map: StringMap<Vec<String>> = StringMap::new();
    let cs = chars_of(s);
    if cs.len() == 0 {
        assert(ext_view(map@) =~= Seq::<(Seq<char>, Seq<Seq<char>>)>::empty());
        return map;
    }
    let items = split_char(s, ';');
    let ghost parts = views(items@);
    let mut i: usize = 0;
    assert(parts.skip(0) =~= parts);
    assert(ext_view(map@) =~= Seq::<(Seq<char>, Seq<Seq<char>>)>::empty());
    while i < items.len()
        invariant
            parts == views(items@),
            parts == split_spec(s@, ';'),
            s@.len() > 0,
            i <= items@.len(),
            ext_fold(ext_view(map@), parts.skip(i as int)) == ext_parse(s@),
        decreases items@.len() - i,
    {
        let item = items[i].as_str();
        let ghost before = map@;
        assert(parts[i as int] == item@);
        assert(parts.skip(i as int).drop_first() =~= parts.skip(i + 1));
        assert(parts.skip(i as int)[0] == item@);
        match split_once_char(item, '=') {
            None => {
                let key = owned(item);
                let v: Vec<String> = Vec::new();
                proof {
                    lemma_ext_view_insert(before, key@, v);
                    assert(views(v@) =~= Seq::<Seq<char>>::empty());
                }
                map.insert(key, v);
            },
            Some((k, v)) => {
                let vals = split_char(v.as_str(), ',');
                proof {
                    lemma_ext_view_insert(before, k@, vals);
                }
                map.insert(k, vals);
            },
        }
        i = i + 1;
    }
    map
}

proof fn lemma_entry_text_without(e: (Seq<char>, Seq<Seq<char>>))
    requires
        entry_ok(e),
    ensures
        !entry_text(e).contains(';'),
        !entry_text(e).contains(':'),
{
    if e.1.len() > 0 {
        assert forall|j: int| 0 <= j < e.1.len() implies !(#[trigger] e.1[j]).contains(';') by {
            assert(value_ok(e.1[j]));
        }
        assert forall|j: int| 0 <= j < e.1.len() implies !(#[trigger] e.1[j]).contains(':') by {
            assert(value_ok(e.1[j]));
        }
        assert(!seq![','].contains(';')) by {
            if seq![','].contains(';') {
                assert(seq![','][0] == ';');
            }
        }
        assert(!seq![','].contains(':')) by {
            if seq![','].contains(':') {
                assert(seq![','][0] == ':');
            }
        }
        lemma_join_without(e.1, seq![','], ';');
        lemma_join_without(e.1, seq![','], ':');
        let j = join_spec(e.1, seq![',']);
        let t = e.0 + seq!['='] + j;
        assert forall|k: int| 0 <= k < t.len() implies t[k] != ';' && t[k] != ':' by {
            if k < e.0.len() {
                assert(t[k] == e.0[k]);
            } else if k == e.0.len() {
                assert(t[k] == '=');
            } else {
                assert(t[k] == j[k - e.0.len() - 1]);
            }
        }
    }
}

proof fn lemma_item_round_trip(e: (Seq<char>, Seq<Seq<char>>))
    requires
        entry_ok(e),
    ensures
        ext_item(entry_text(e)) == e,
{
    if e.1.len() == 0 {
        lemma_split_none(e.0, '=');
        assert(e.1 =~= Seq::<Seq<char>>::empty());
    } else {
        let j = join_spec(e.1, seq![',']);
        let t = e.0 + seq!['='] + j;
        assert(t =~= e.0 + (seq!['='] + j));
        lemma_find_char_prefix(e.0, seq!['='] + j, '=');
        assert((seq!['='] + j)[0] == '=');
        assert(t.take(e.0.len() as int) =~= e.0);
        assert(t.skip(e.0.len() as int + 1) =~= j);
        assert forall|k: int| 0 <= k < e.1.len() implies !(#[trigger] e.1[k]).contains(',') by {
            assert(value_ok(e.1[k]));
        }
        lemma_split_join(e.1, ',');
    }
}

proof fn lemma_fold_sorted(e: Seq<(Seq<char>, Seq<Seq<char>>)>, i: int)
    requires
        keys_sorted(e),
        entries_ok(e),
        0 <= i <= e.len(),
    ensures
        ext_fold(
            e.take(i),
            e.map_values(|x: (Seq<char>, Seq<Seq<char>>)| entry_text(x)).skip(i),
        ) == e,
    decreases e.len() - i,
{
    let items = e.map_values(|x: (Seq<char>, Seq<Seq<char>>)| entry_text(x));
    if i == e.len() {
        assert(e.take(i) =~= e);
        assert(items.skip(i).len() == 0);
    } else {
        let rest = items.skip(i);
        assert(rest[0] == entry_text(e[i]));
        assert(entry_ok(e[i]));
        lemma_item_round_trip(e[i]);
        let acc = e.take(i);
        assert forall|j: int| 0 <= j < i implies text_lt(#[trigger] acc[j].0, e[i].0) by {
            assert(acc[j] == e[j]);
        }
        lemma_insert_skip(acc, e[i].0, e[i].1, i);
        assert(acc.take(i) =~= acc);
        assert(acc.skip(i).len() == 0);
        assert(sorted_insert(acc.skip(i), e[i].0, e[i].1) == seq![(e[i].0, e[i].1)]);
        assert(acc + seq![(e[i].0, e[i].1)] =~= e.take(i + 1));
        assert(rest.drop_first() =~= items.skip(i + 1));
        lemma_fold_sorted(e, i + 1);
    }
}

/// An extension field written from extensions is read back as those
/// extensions, for every sorted set of extensions that may be written, except
/// the one made of a single empty key without values (whose field is empty,
/// and an empty field holds no extensions).
pub proof fn lemma_extensions_round_trip(e: Seq<(Seq<char>, Seq<Seq<char>>)>)
    requires
        keys_sorted(e),
        entries_ok(e),
        e != seq![(Seq::<char>::empty(), Seq::<Seq<char>>::empty())],
    ensures
        ext_parse(ext_text(e)) == e,
{
    let items = e.map_values(|x: (Seq<char>, Seq<Seq<char>>)| entry_text(x));
    if e.len() == 0 {
        assert(items.len() == 0);
        assert(e =~= Seq::<(Seq<char>, Seq<Seq<char>>)>::empty());
    } else {
        assert forall|k: int| 0 <= k < items.len() implies !(#[trigger] items[k]).contains(';') by {
            assert(entry_ok(e[k]));
            lemma_entry_text_without(e[k]);
        }
        if items.len() >= 2 {
            crate::text::lemma_join_front(items, seq![';']);
        } else {
            assert(ext_text(e) == entry_text(e[0]));
            if entry_text(e[0]).len() == 0 {
                if e[0].1.len() > 0 {
                    assert((e[0].0 + seq!['='] + join_spec(e[0].1, seq![','])).len() > 0);
                }
                assert(e[0].0 =~= Seq::<char>::empty());
                assert(e[0].1 =~= Seq::<Seq<char>>::empty());
                assert(e =~= seq![(Seq::<char>::empty(), Seq::<Seq<char>>::empty())]);
            }
        }
        assert(ext_text(e).len() > 0);
        lemma_split_join(items, ';');
        lemma_fold_sorted(e, 0);
        assert(e.take(0) =~= Seq::<(Seq<char>, Seq<Seq<char>>)>::empty());
        assert(items.skip(0) =~= items);
    }
}

/// The fields of a token before its random part: the version, the difficulty
/// (version 1 only), the date, the resource and the extensions.
pub open spec fn head_pieces(
    version: u8,
    bits: u32,
    date: Seq<char>,
    resource: Seq<char>,
    ext: Seq<char>,
) -> Seq<Seq<char>> {
    if version == 0 {
        seq![decimal(0), date, resource, ext]
    } else {
        seq![decimal(1), decimal(bits as nat), date, resource, ext]
    }
}

/// A token text: the fields `head`, the random part and the counter (both in
/// lower-case hexadecimal), separated by `:`.
pub open spec fn with_counter(head: Seq<Seq<char>>, random: u64, counter: u64) -> Seq<char> {
    join_spec(head + seq![lower_hex(random as nat), lower_hex(counter as nat)], seq![':'])
}

/// The counter value tried after `k` earlier tries from `start`.
spec fn counter_after(start: u64, k: int) -> u64 {
    ((start as int + k + 1) % 0x1_0000_0000_0000_0000) as u64
}

/// Whether no counter value takes the token with fields `head` and random part
/// `random` to `bits`.
pub open spec fn no_counter_reaches(head: Seq<Seq<char>>, random: u64, bits: u32) -> bool {
    forall|c: u64| hash_bits(#[trigger] with_counter(head, random, c)) < bits
}

/// The text of a token minted with these fields, random part and counter.
pub open spec fn token_text(
    version: u8,
    bits: u32,
    date: Seq<char>,
    resource: Seq<char>,
    ext: Seq<char>,
    random: u64,
    counter: u64,
) -> Seq<char> {
    with_counter(head_pieces(version, bits, date, resource, ext), random, counter)
}

/// The fields a token text is read into: version, claimed difficulty (0 for
/// version 0), date text, resource and extension text; `None` when the version
/// is not a number 0 or 1, the number of fields is not 6 (version 0) or 7
/// (version 1), or the difficulty of a version 1 token is not a number.
pub open spec fn token_fields(t: Seq<char>) -> Option<(u8, u32, Seq<char>, Seq<char>, Seq<char>)> {
    let parts = split_spec(t, ':');
    match u32_from_text(parts[0]) {
        None => None,
        Some(v) => if v == 0 && parts.len() == 6 {
            Some((0u8, 0u32, parts[1], parts[2], parts[3]))
        } else if v == 1 && parts.len() == 7 {
            match u32_from_text(parts[1]) {
                Some(b) => Some((1u8, b, parts[2], parts[3], parts[4])),
                None => None,
            }
        } else {
            None
        },
    }
}

/// A minted or parsed hashcash token.
#[derive(Debug, Clone, PartialEq, Eq)]
pub struct HashCash {
    token: String,
    value: u32,
    resource: String,
    date: TokenDate,
    version: u8,
    extensions: StringMap<Vec<String>>,
}

/// Whether `c` is a character of lower-case hexadecimal text.
pub open spec fn is_hex_char(c: char) -> bool {
    ('0' <= c <= '9') || ('a' <= c <= 'f')
}

proof fn lemma_digits_hex(n: nat, b: nat)
    requires
        2 <= b <= 16,
    ensures
        forall|i: int| 0 <= i < digits_in_base(n, b).len() ==> is_hex_char(
            #[trigger] digits_in_base(n, b)[i],
        ),
        !digits_in_base(n, b).contains(':'),
    decreases n,
{
    if n >= b {
        assert(n / b < n) by (nonlinear_arith)
            requires
                b >= 2,
                n >= b,
        ;
        lemma_digits_hex(n / b, b);
        let t = digits_in_base(n, b);
        assert(t == digits_in_base(n / b, b).push(digit_char(n % b)));
        assert forall|i: int| 0 <= i < t.len() implies is_hex_char(#[trigger] t[i]) by {
            if i < t.len() - 1 {
                assert(t[i] == digits_in_base(n / b, b)[i]);
            }
        }
    }
    let t = digits_in_base(n, b);
    if t.contains(':') {
        let k = choose|k: int| 0 <= k < t.len() && t[k] == ':';
        assert(is_hex_char(t[k]));
    }
}

proof fn lemma_two_digits(n: int)
    requires
        0 <= n < 100,
    ensures
        !two_digits(n).contains(':'),
{
    let t = two_digits(n);
    if t.contains(':') {
        let k = choose|k: int| 0 <= k < t.len() && t[k] == ':';
        assert(t[0] == (48 + n / 10) as char);
        assert(t[1] == (48 + n % 10) as char);
    }
}

proof fn lemma_no_colon_concat(a: Seq<char>, b: Seq<char>)
    requires
        !a.contains(':'),
        !b.contains(':'),
    ensures
        !(a + b).contains(':'),
{
    let t = a + b;
    if t.contains(':') {
        let k = choose|k: int| 0 <= k < t.len() && t[k] == ':';
        if k < a.len() {
            assert(a[k] == ':');
        } else {
            assert(b[k - a.len()] == ':');
        }
    }
}

/// The text of a calendar date holds no `:`.
proof fn lemma_date_text_without_colon(y: int, m: int, d: int)
    requires
        is_calendar_date(y, m, d),
    ensures
        !yymmdd_text(y, m, d).contains(':'),
{
    lemma_two_digits(y % 100);
    lemma_two_digits(m);
    lemma_two_digits(d);
    lemma_no_colon_concat(two_digits(y % 100), two_digits(m));
    lemma_no_colon_concat(two_digits(y % 100) + two_digits(m), two_digits(d));
}

/// A token minted from fields that hold no `:` is read back into those fields:
/// the version, the difficulty (version 1), the date text, the resource and the
/// extension text.
pub proof fn lemma_token_fields(
    version: u8,
    bits: u32,
    date: Seq<char>,
    resource: Seq<char>,
    ext: Seq<char>,
    random: u64,
    counter: u64,
)
    requires
        version <= 1,
        !date.contains(':'),
        !resource.contains(':'),
        !ext.contains(':'),
    ensures
        token_fields(token_text(version, bits, date, resource, ext, random, counter)) == Some(
            (version, if version == 0 {
                0u32
            } else {
                bits
            }, date, resource, ext),
        ),
{
    let pieces = head_pieces(version, bits, date, resource, ext) + seq![
        lower_hex(random as nat),
        lower_hex(counter as nat),
    ];
    lemma_digits_hex(random as nat, 16);
    lemma_digits_hex(counter as nat, 16);
    lemma_digits_hex(bits as nat, 10);
    lemma_digits_hex(0, 10);
    lemma_digits_hex(1, 10);
    assert forall|i: int| 0 <= i < pieces.len() implies !(#[trigger] pieces[i]).contains(':') by {}
    lemma_split_join(pieces, ':');
    lemma_decimal_round_trip(0);
    lemma_decimal_round_trip(1);
    lemma_decimal_round_trip(bits);
}

/// The extensions of a token as a map may be written when the map's entries
/// may be: their text holds no `:`.
proof fn lemma_ext_text_without_colon(e: Seq<(Seq<char>, Seq<Seq<char>>)>)
    requires
        entries_ok(e),
    ensures
        !ext_text(e).contains(':'),
{
    let items = e.map_values(|x: (Seq<char>, Seq<Seq<char>>)| entry_text(x));
    assert forall|k: int| 0 <= k < items.len() implies !(#[trigger] items[k]).contains(':') by {
        assert(entry_ok(e[k]));
        lemma_entry_text_without(e[k]);
    }
    assert(!seq![';'].contains(':')) by {
        if seq![';'].contains(':') {
            assert(seq![';'][0] == ':');
        }
    }
    lemma_join_without(items, seq![';'], ':');
}

/// A minted token reads back into what it was minted from: its version, its
/// difficulty as the claimed value (which the digest reaches, so a version 1
/// token keeps that value), its date text, its resource, and extensions equal
/// to those it was minted with (for every sorted set of writable extensions but
/// the single empty key without values).
pub proof fn lemma_minted_token_reads_back(
    version: u8,
    bits: u32,
    y: int,
    m: int,
    d: int,
    resource: Seq<char>,
    e: Seq<(Seq<char>, Seq<Seq<char>>)>,
    random: u64,
    counter: u64,
)
    requires
        version <= 1,
        !resource.contains(':'),
        is_calendar_date(y, m, d),
        keys_sorted(e),
        entries_ok(e),
        e != seq![(Seq::<char>::empty(), Seq::<Seq<char>>::empty())],
        hash_bits(token_text(version, bits, yymmdd_text(y, m, d), resource, ext_text(e), random, counter)) >= bits,
    ensures
        ({
            let t = token_text(version, bits, yymmdd_text(y, m, d), resource, ext_text(e), random, counter);
            &&& token_fields(t) == Some(
                (version, if version == 0 {
                    0u32
                } else {
                    bits
                }, yymmdd_text(y, m, d), resource, ext_text(e)),
            )
            &&& ext_parse(ext_text(e)) == e
            &&& version == 1 ==> (if hash_bits(t) <= bits {
                hash_bits(t)
            } else {
                bits as nat
            }) == bits
        }),
{
    lemma_date_text_without_colon(y, m, d);
    lemma_ext_text_without_colon(e);
    lemma_token_fields(version, bits, yymmdd_text(y, m, d), resource, ext_text(e), random, counter);
    lemma_extensions_round_trip(e);
}

impl HashCash {
    /// The token text.
    pub closed spec fn spec_token(&self) -> Seq<char> {
        self.token@
    }

    /// The declared value.
    pub closed spec fn spec_value(&self) -> u32 {
        self.value
    }

    /// The resource.
    pub closed spec fn spec_resource(&self) -> Seq<char> {
        self.resource@
    }

    /// The date, as year, month and day.
    pub closed spec fn spec_date(&self) -> (i32, u32, u32) {
        self.date.ymd()
    }

    /// The version.
    pub closed spec fn spec_version(&self) -> u8 {
        self.version
    }

    /// The extensions in key order.
    pub closed spec fn spec_extensions(&self) -> Seq<(Seq<char>, Seq<Seq<char>>)> {
        ext_view(self.extensions@)
    }

    /// Mints a version 1 token for `resource` at `bits` difficulty, dated today
    /// (UTC), without extensions.
    ///
    /// Fails with [`RaError::Invalid`] when `resource` holds a colon or `bits`
    /// exceeds 160.
    pub fn mint(resource: &str, bits: u32) -> (r: Result<HashCash>)
        ensures
            bits > HASH_BITS ==> r matches Err(RaError::Invalid(_)),
            bits <= HASH_BITS && resource@.contains(':') ==> r matches Err(RaError::Invalid(_)),
            r matches Ok(h) ==> {
                &&& h.spec_version() == 1
                &&& h.spec_resource() == resource@
                &&& h.spec_extensions().len() == 0
                &&& h.spec_value() == bits
                &&& hash_bits(h.spec_token()) >= bits
                &&& is_calendar_date(
                    h.spec_date().0 as int,
                    h.spec_date().1 as int,
                    h.spec_date().2 as int,
                )
                &&& exists|x: u64, c: u64|
                    h.spec_token() == #[trigger] token_text(
                        1,
                        bits,
                        yymmdd_text(
                            h.spec_date().0 as int,
                            h.spec_date().1 as int,
                            h.spec_date().2 as int,
                        ),
                        resource@,
                        Seq::empty(),
                        x,
                        c,
                    )
            },
            r matches Err(e) ==> e is Invalid,
    {
        let date = TokenDate::today();
        let ext: StringMap<Vec<String>> = StringMap::new();
        assert(ext_view(ext@) =~= Seq::<(Seq<char>, Seq<Seq<char>>)>::empty());
        assert(ext_text(ext_view(ext@)) =~= Seq::<char>::empty());
        HashCash::mint_with(resource, ext, date, bits, 1)
    }

    /// Mints a token with the given extensions, date and version (0 or 1).
    ///
    /// Fails with [`RaError::Invalid`] for a version above 1, `bits` above 160,
    /// a colon in `resource`, or an extension that may not be written. Minting
    /// tries every counter value once after a random start; it fails too in the
    /// (astronomically unlikely) case that none reaches `bits`.
    pub fn mint_with(
        resource: &str,
        extensions: StringMap<Vec<String>>,
        date: TokenDate,
        bits: u32,
        version: u8,
    ) -> (r: Result<HashCash>)
        ensures
            version > 1 ==> r matches Err(RaError::Invalid(_)),
            bits > HASH_BITS ==> r matches Err(RaError::Invalid(_)),
            resource@.contains(':') ==> r matches Err(RaError::Invalid(_)),
            !entries_ok(ext_view(extensions@)) ==> r matches Err(RaError::Invalid(_)),
            r matches Err(e) ==> e is Invalid,
            r is Err && version <= 1 && bits <= HASH_BITS && !resource@.contains(':') && entries_ok(
                ext_view(extensions@),
            ) ==> exists|x: u64|
                #[trigger] no_counter_reaches(
                    head_pieces(
                        version,
                        bits,
                        yymmdd_text(date.ymd().0 as int, date.ymd().1 as int, date.ymd().2 as int),
                        resource@,
                        ext_text(ext_view(extensions@)),
                    ),
                    x,
                    bits,
                ),
            r matches Ok(h) ==> {
                &&& h.spec_version() == version
                &&& h.spec_resource() == resource@
                &&& h.spec_date() == date.ymd()
                &&& h.spec_extensions() == ext_view(extensions@)
                &&& hash_bits(h.spec_token()) >= bits
                &&& h.spec_value() == if version == 0 {
                    hash_bits(h.spec_token())
                } else {
                    bits as nat
                }
                &&& exists|x: u64, c: u64|
                    h.spec_token() == #[trigger] token_text(
                        version,
                        bits,
                        yymmdd_text(date.ymd().0 as int, date.ymd().1 as int, date.ymd().2 as int),
                        resource@,
                        ext_text(ext_view(extensions@)),
                        x,
                        c,
                    )
            },
    {
        if version > 1 {
            return Err(RaError::invalid(owned("only hashcash versions 0 and 1 are supported")));
        }
        if bits > HASH_BITS {
            return Err(RaError::invalid(owned("value must be between 0 and 160")));
        }
        if contains_char(resource, ':') {
            return Err(RaError::invalid(owned("resource may not contain a colon")));
        }
        let ext_str = match serialize_extensions(&extensions) {
            Ok(t) => t,
            Err(e) => return Err(e),
        };
        let date_str = date.yymmdd();
        let mut head: Vec<String> = Vec::new();
        head.push(u64_text(version as u64, 10));
        if version != 0 {
            head.push(u64_text(bits as u64, 10));
        }
        head.push(date_str);
        head.push(owned(resource));
        head.push(ext_str);
        let joined = join_strings(&head, ":");
        proof {
            reveal_strlit(":");
            assert(":"@ =~= seq![':']);
        }
        let prefix = concat2(joined.as_str(), ":");
        let ghost ds = yymmdd_text(date.ymd().0 as int, date.ymd().1 as int, date.ymd().2 as int);
        let ghost es = ext_text(ext_view(extensions@));
        assert(views(head@) =~= head_pieces(version, bits, ds, resource@, es));
        let ghost hp = head_pieces(version, bits, ds, resource@, es);
        match HashCash::generate(&prefix, bits, Ghost(views(head@))) {
            None => {
                proof {
                    let x = choose|x: u64| #[trigger] no_counter_reaches(views(head@), x, bits);
                    assert(no_counter_reaches(hp, x, bits));
                }
                Err(RaError::invalid(owned("no counter value reaches the requested difficulty")))
            },
            Some(token) => {
                proof {
                    let (x, c) = choose|x: u64, c: u64|
                        token@ == #[trigger] with_counter(views(head@), x, c);
                    assert(token@ == token_text(version, bits, ds, resource@, es, x, c));
                }
                let value = if version == 0 {
                    sha1_bits(token.as_str())
                } else {
                    bits
                };
                Ok(
                    HashCash {
                        token,
                        value,
                        resource: owned(resource),
                        date,
                        version,
                        extensions,
                    },
                )
            },
        }
    }

    /// Searches the counter, from a random start after a random stem, until
    /// the token reaches `bits`; gives up once every counter value was tried.
    fn generate(prefix: &str, bits: u32, Ghost(head): Ghost<Seq<Seq<char>>>) -> (r: Option<String>)
        requires
            prefix@ == join_spec(head, seq![':']) + seq![':'],
            head.len() >= 1,
        ensures
            r matches Some(t) ==> hash_bits(t@) >= bits && exists|x: u64, c: u64|
                t@ == #[trigger] with_counter(head, x, c),
            r is None ==> exists|x: u64| #[trigger] no_counter_reaches(head, x, bits),
    {
        let random = random_u64();
        let start = random_u64();
        let mut counter = start;
        let stem0 = concat2(prefix, u64_text(random, 16).as_str());
        let stem = concat2(stem0.as_str(), ":");
        proof {
            reveal_strlit(":");
            assert(":"@ =~= seq![':']);
        }
        let mut n: u64 = 0;
        loop
            invariant
                stem@ == prefix@ + lower_hex(random as nat) + seq![':'],
                prefix@ == join_spec(head, seq![':']) + seq![':'],
                head.len() >= 1,
                counter as int == (start as int + n as int) % 0x1_0000_0000_0000_0000,
                forall|k: int|
                    0 <= k < n ==> hash_bits(
                        with_counter(head, random, #[trigger] counter_after(start, k)),
                    ) < bits,
            decreases u64::MAX - n,
        {
            counter = counter.wrapping_add(1);
            let candidate = concat2(stem.as_str(), u64_text(counter, 16).as_str());
            proof {
                let h1 = head.push(lower_hex(random as nat));
                let h2 = h1.push(lower_hex(counter as nat));
                assert(head + seq![lower_hex(random as nat), lower_hex(counter as nat)] =~= h2);
                assert(h2.drop_last() =~= h1);
                assert(h1.drop_last() =~= head);
                assert(join_spec(h2, seq![':']) == join_spec(h1, seq![':']) + seq![':'] + lower_hex(
                    counter as nat,
                ));
                assert(join_spec(h1, seq![':']) == join_spec(head, seq![':']) + seq![':'] + lower_hex(
                    random as nat,
                ));
                assert(candidate@ =~= with_counter(head, random, counter));
            }
            if sha1_bits(candidate.as_str()) >= bits {
                return Some(candidate);
            }
            if n == u64::MAX {
                proof {
                    assert forall|c: u64| hash_bits(#[trigger] with_counter(head, random, c)) < bits by {
                        let k = (c as int - start as int - 1) % 0x1_0000_0000_0000_0000;
                        assert(counter_after(start, k) == c)
                            by (nonlinear_arith)
                            requires
                                k == (c as int - start as int - 1) % 0x1_0000_0000_0000_0000,
                                0 <= c < 0x1_0000_0000_0000_0000,
                        ;
                        if k < n {
                        }
                    }
                    assert(no_counter_reaches(head, random, bits));
                }
                return None;
            }
            n = n + 1;
        }
    }
}

impl HashCash {
    /// Reads a token, recomputing its value: for version 0 the leading zero
    /// bits of its digest, for version 1 the smaller of those and the claimed
    /// difficulty.
    ///
    /// Fails with [`RaError::Invalid`] for a version other than 0 or 1, the
    /// wrong number of fields, a difficulty that is not a number, or a date
    /// that does not read as `YYMMDD`.
    pub fn parse(token: &str) -> (r: Result<HashCash>)
        ensures
            r is Ok <==> (token_fields(token@) matches Some(f) && yymmdd_date(f.2) is Some),
            r matches Err(e) ==> e is Invalid,
            r matches Ok(h) ==> token_fields(token@) matches Some(f) && {
                &&& h.spec_token() == token@
                &&& h.spec_version() == f.0
                &&& h.spec_resource() == f.3
                &&& yymmdd_date(f.2) == Some(h.spec_date())
                &&& h.spec_extensions() == ext_parse(f.4)
                &&& h.spec_value() == if f.0 == 0 || hash_bits(token@) <= f.1 {
                    hash_bits(token@)
                } else {
                    f.1 as nat
                }
            },
            token_fields(token@) matches Some(f) ==> forall|y: i32, m: u32, d: u32|
                1970 <= y <= 2069 && is_calendar_date(y as int, m as int, d as int) && f.2
                    == #[trigger] yymmdd_text(y as int, m as int, d as int) ==> (r matches Ok(h)
                    && h.spec_date() == (y, m, d)),
    {
        let parts = split_char(token, ':');
        proof {
            reveal_with_fuel(split_spec, 1);
        }
        assert(views(parts@).len() >= 1);
        let version: u8 = match parse_u32(parts[0].as_str()) {
            Some(v) => {
                if v > 255 {
                    return Err(RaError::invalid(owned("bad hashcash version")));
                }
                v as u8
            },
            None => return Err(RaError::invalid(owned("bad hashcash version"))),
        };
        assert(views(parts@)[0] == parts@[0]@);
        let expected: usize = if version == 0 {
            6
        } else if version == 1 {
            7
        } else {
            return Err(RaError::invalid(owned("only hashcash versions 0 and 1 are supported")));
        };
        if parts.len() != expected {
            return Err(RaError::invalid(owned("improperly formed hashcash")));
        }
        let mut idx: usize = 1;
        let claimed: u32 = if version == 1 {
            assert(views(parts@)[1] == parts@[1]@);
            match parse_u32(parts[1].as_str()) {
                Some(b) => {
                    idx = 2;
                    b
                },
                None => return Err(RaError::invalid(owned("bad hashcash bits"))),
            }
        } else {
            0
        };
        assert(views(parts@)[idx as int] == parts@[idx as int]@);
        assert(views(parts@)[idx + 1] == parts@[idx + 1]@);
        assert(views(parts@)[idx + 2] == parts@[idx + 2]@);
        let date = match TokenDate::from_yymmdd(parts[idx].as_str()) {
            Ok(d) => d,
            Err(e) => {
                return Err(RaError::invalid(concat2("bad hashcash date: ", e.as_str())));
            },
        };
        let resource = owned(parts[idx + 1].as_str());
        let extensions = deserialize_extensions(parts[idx + 2].as_str());
        let actual = sha1_bits(token);
        let value = if version == 0 || actual <= claimed {
            actual
        } else {
            claimed
        };
        Ok(HashCash { token: owned(token), value, resource, date, version, extensions })
    }

    /// Whether this token is valid for `resource` at `min_bits` difficulty: it
    /// was minted for that resource and its digest has at least that many
    /// leading zero bits.
    pub fn is_valid_for(&self, resource: &str, min_bits: u32) -> (r: bool)
        ensures
            r == (self.spec_resource() == resource@ && hash_bits(self.spec_token()) >= min_bits),
    {
        crate::text::str_eq(self.resource.as_str(), resource) && self.computed_bits() >= min_bits
    }

    /// The leading-zero-bit count actually present in the token's digest.
    pub fn computed_bits(&self) -> (r: u32)
        ensures
            r == hash_bits(self.spec_token()),
    {
        sha1_bits(self.token.as_str())
    }

    /// The token's declared value.
    pub fn value(&self) -> (r: u32)
        ensures
            r == self.spec_value(),
    {
        self.value
    }

    /// The resource the token was minted for.
    pub fn resource(&self) -> (r: &str)
        ensures
            r@ == self.spec_resource(),
    {
        self.resource.as_str()
    }

    /// The token date.
    pub fn date(&self) -> (r: TokenDate)
        ensures
            r.ymd() == self.spec_date(),
    {
        self.date
    }

    /// The token version (0 or 1).
    pub fn version(&self) -> (r: u8)
        ensures
            r == self.spec_version(),
    {
        self.version
    }

    /// The token extensions, in key order.
    pub fn extensions(&self) -> (r: &StringMap<Vec<String>>)
        ensures
            ext_view(r@) == self.spec_extensions(),
    {
        &self.extensions
    }

    /// The token text.
    pub fn token(&self) -> (r: &str)
        ensures
            r@ == self.spec_token(),
    {
        self.token.as_str()
    }
}

impl std::str::FromStr for HashCash {
    type Err = RaError;

    fn from_str(s: &str) -> (r: Result<HashCash>)
        ensures
            r is Ok <==> (token_fields(s@) matches Some(f) && yymmdd_date(f.2) is Some),
            r matches Err(e) ==> e is Invalid,
            r matches Ok(h) ==> token_fields(s@) matches Some(f) && {
                &&& h.spec_token() == s@
                &&& h.spec_version() == f.0
                &&& h.spec_resource() == f.3
                &&& yymmdd_date(f.2) == Some(h.spec_date())
                &&& h.spec_extensions() == ext_parse(f.4)
                &&& h.spec_value() == if f.0 == 0 || hash_bits(s@) <= f.1 {
                    hash_bits(s@)
                } else {
                    f.1 as nat
                }
            },
            token_fields(s@) matches Some(f) ==> forall|y: i32, m: u32, d: u32|
                1970 <= y <= 2069 && is_calendar_date(y as int, m as int, d as int) && f.2
                    == #[trigger] yymmdd_text(y as int, m as int, d as int) ==> (r matches Ok(h)
                    && h.spec_date() == (y, m, d)),
    {
        HashCash::parse(s)
    }
}

} // verus!
