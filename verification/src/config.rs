//! Configuration: parsing `key=value` sources into properties, merging them
//! by precedence, and resolving the per-user application directories.
//!
//! Reading the environment and files is the caller's part; the functions here
//! take what was read.

use crate::error::{RaError, Result};
use crate::text::{
    chars_of, concat2, lemma_find_char_prefix, lemma_split_none, lemma_split_step, owned,
    split_char, split_once_char, split_once_spec, split_spec, string_of_chars, views,
};
use crate::util::string_map::{
    keys_sorted, lemma_lookup_after_insert_all, lemma_lookup_at, lookup, sorted_insert, StringMap,
};
use vstd::prelude::*;

verus! {

/// A bag of string configuration values, in key order.
pub type Properties = StringMap<String>;

/// The text values of properties.
pub open spec fn prop_view(s: Seq<(Seq<char>, String)>) -> Seq<(Seq<char>, Seq<char>)> {
    s.map_values(|e: (Seq<char>, String)| (e.0, e.1@))
}

/// The text stored under `k`, if any.
pub open spec fn prop_lookup(s: Seq<(Seq<char>, String)>, k: Seq<char>) -> Option<Seq<char>> {
    match lookup(s, k) {
        Some(v) => Some(v@),
        None => None,
    }
}

/// `acc` with the `key<delimiter>value` pairs of `args` put in one after the
/// other (arguments without the delimiter are skipped; a later key replaces an
/// earlier one).
pub open spec fn args_fold(acc: Seq<(Seq<char>, Seq<char>)>, args: Seq<Seq<char>>, delimiter: char) -> Seq<
    (Seq<char>, Seq<char>),
>
    decreases args.len(),
{
    if args.len() == 0 {
        acc
    } else {
        let next = match split_once_spec(args[0], delimiter) {
            Some((k, v)) => sorted_insert(acc, k, v),
            None => acc,
        };
        args_fold(next, args.drop_first(), delimiter)
    }
}

proof fn lemma_prop_view_insert(s: Seq<(Seq<char>, String)>, k: Seq<char>, v: String)
    ensures
        prop_view(sorted_insert(s, k, v)) == sorted_insert(prop_view(s), k, v@),
    decreases s.len(),
{
    let t = prop_view(s);
    if s.len() == 0 {
        assert(prop_view(seq![(k, v)]) =~= seq![(k, v@)]);
    } else if s[0].0 == k {
        assert(prop_view(seq![(k, v)] + s.drop_first()) =~= seq![(k, v@)] + t.drop_first());
    } else if crate::util::string_map::text_lt(k, s[0].0) {
        assert(prop_view(seq![(k, v)] + s) =~= seq![(k, v@)] + t);
    } else {
        lemma_prop_view_insert(s.drop_first(), k, v);
        assert(prop_view(seq![s[0]] + sorted_insert(s.drop_first(), k, v)) =~= seq![t[0]]
            + prop_view(sorted_insert(s.drop_first(), k, v)));
        assert(prop_view(s.drop_first()) =~= t.drop_first());
    }
}

/// Parses `key<delimiter>value` arguments into properties; arguments without
/// the delimiter are ignored.
pub fn load_from_args(args: &Vec<String>, delimiter: char) -> (r: Properties)
    ensures
        prop_view(r@) == args_fold(Seq::empty(), views(args@), delimiter),
{
    let mut props: Properties = StringMap::new();
    let mut i: usize = 0;
    let ghost a = views(args@);
    assert(prop_view(props@) =~= Seq::<(Seq<char>, Seq<char>)>::empty());
    assert(a.skip(0) =~= a);
    while i < args.len()
        invariant
            a == views(args@),
            i <= args@.len(),
            args_fold(prop_view(props@), a.skip(i as int), delimiter) == args_fold(
                Seq::empty(),
                a,
                delimiter,
            ),
        decreases args@.len() - i,
    {
        let ghost before = props@;
        assert(a.skip(i as int)[0] == args@[i as int]@);
        assert(a.skip(i as int).drop_first() =~= a.skip(i + 1));
        match split_once_char(args[i].as_str(), delimiter) {
            Some((k, v)) => {
                proof {
                    lemma_prop_view_insert(before, k@, v);
                }
                props.insert(k, v);
            },
            None => {},
        }
        i = i + 1;
    }
    props
}

/// Whether `c` has the Unicode `White_Space` property (what
/// `char::is_whitespace` tests).
pub open spec fn is_white_space(c: char) -> bool {
    ||| ('\u{9}' <= c <= '\u{d}')
    ||| c == ' '
    ||| c == '\u{85}'
    ||| c == '\u{a0}'
    ||| c == '\u{1680}'
    ||| ('\u{2000}' <= c <= '\u{200a}')
    ||| c == '\u{2028}'
    ||| c == '\u{2029}'
    ||| c == '\u{202f}'
    ||| c == '\u{205f}'
    ||| c == '\u{3000}'
}

/// Whether `c` has the Unicode `White_Space` property.
pub fn char_is_white_space(c: char) -> (r: bool)
    ensures
        r == is_white_space(c),
{
    ('\u{9}' <= c && c <= '\u{d}') || c == ' ' || c == '\u{85}' || c == '\u{a0}' || c == '\u{1680}'
        || ('\u{2000}' <= c && c <= '\u{200a}') || c == '\u{2028}' || c == '\u{2029}' || c
        == '\u{202f}' || c == '\u{205f}' || c == '\u{3000}'
}

/// The number of white-space characters `s` starts with.
pub open spec fn leading_ws(s: Seq<char>) -> nat
    decreases s.len(),
{
    if s.len() > 0 && is_white_space(s[0]) {
        1 + leading_ws(s.drop_first())
    } else {
        0
    }
}

/// The number of white-space characters `s` ends with.
pub open spec fn trailing_ws(s: Seq<char>) -> nat
    decreases s.len(),
{
    if s.len() > 0 && is_white_space(s.last()) {
        1 + trailing_ws(s.drop_last())
    } else {
        0
    }
}

/// `s` without leading and trailing white space, as `str::trim` gives it.
pub open spec fn trim_spec(s: Seq<char>) -> Seq<char> {
    let t = s.skip(leading_ws(s) as int);
    t.take(t.len() - trailing_ws(t))
}

proof fn lemma_leading_ws(s: Seq<char>, i: int)
    requires
        0 <= i <= s.len(),
        forall|j: int| 0 <= j < i ==> is_white_space(#[trigger] s[j]),
    ensures
        leading_ws(s) == i + leading_ws(s.skip(i)),
        leading_ws(s) <= s.len(),
    decreases i,
{
    if i > 0 {
        lemma_leading_ws(s.drop_first(), i - 1);
        assert(s.drop_first().skip(i - 1) =~= s.skip(i));
    } else {
        assert(s.skip(0) =~= s);
        lemma_leading_bound(s);
    }
}

proof fn lemma_leading_bound(s: Seq<char>)
    ensures
        leading_ws(s) <= s.len(),
    decreases s.len(),
{
    if s.len() > 0 {
        lemma_leading_bound(s.drop_first());
    }
}

proof fn lemma_trailing_ws(s: Seq<char>, i: int)
    requires
        0 <= i <= s.len(),
        forall|j: int| i <= j < s.len() ==> is_white_space(#[trigger] s[j]),
    ensures
        trailing_ws(s) == (s.len() - i) + trailing_ws(s.take(i)),
    decreases s.len() - i,
{
    if i < s.len() {
        lemma_trailing_ws(s.drop_last(), i);
        assert(s.drop_last().take(i) =~= s.take(i));
    } else {
        assert(s.take(i) =~= s);
    }
}

proof fn lemma_trailing_bound(s: Seq<char>)
    ensures
        trailing_ws(s) <= s.len(),
    decreases s.len(),
{
    if s.len() > 0 {
        lemma_trailing_bound(s.drop_last());
    }
}

/// `s` without leading and trailing white space.
pub fn trim(s: &str) -> (r: String)
    ensures
        r@ == trim_spec(s@),
{
    let cs = chars_of(s);
    let mut start: usize = 0;
    while start < cs.len() && char_is_white_space(cs[start])
        invariant
            cs@ == s@,
            start <= cs@.len(),
            forall|j: int| 0 <= j < start ==> is_white_space(#[trigger] cs@[j]),
        decreases cs@.len() - start,
    {
        start = start + 1;
    }
    proof {
        lemma_leading_ws(s@, start as int);
        if start < cs@.len() {
            assert(!is_white_space(s@.skip(start as int)[0]));
        }
        assert(leading_ws(s@.skip(start as int)) == 0);
    }
    let ghost t = s@.skip(start as int);
    let mut end: usize = cs.len();
    while end > start && char_is_white_space(cs[end - 1])
        invariant
            cs@ == s@,
            start <= end <= cs@.len(),
            t == s@.skip(start as int),
            forall|j: int| end <= j < cs@.len() ==> is_white_space(#[trigger] cs@[j]),
        decreases end,
    {
        end = end - 1;
    }
    proof {
        let e = end - start;
        assert forall|j: int| e <= j < t.len() implies is_white_space(#[trigger] t[j]) by {
            assert(t[j] == cs@[j + start]);
        }
        lemma_trailing_ws(t, e);
        if e > 0 {
            assert(t.take(e).last() == cs@[end - 1]);
            assert(!is_white_space(t.take(e).last()));
        }
        assert(trailing_ws(t.take(e)) == 0);
    }
    let mut out: Vec<char> = Vec::new();
    let mut i: usize = start;
    while i < end
        invariant
            cs@ == s@,
            start <= i <= end <= cs@.len(),
            out@ == cs@.subrange(start as int, i as int),
        decreases end - i,
    {
        out.push(cs[i]);
        i = i + 1;
        assert(out@ =~= cs@.subrange(start as int, i as int));
    }
    assert(out@ =~= trim_spec(s@));
    string_of_chars(out.as_slice())
}

/// A line without the carriage return it ends with, if any.
pub open spec fn strip_cr(l: Seq<char>) -> Seq<char> {
    if l.len() > 0 && l.last() == '\r' {
        l.drop_last()
    } else {
        l
    }
}

/// The lines of `s`, as `str::lines` gives them: the text between line
/// feeds, each without a carriage return before its line feed; the text after
/// the last line feed is a line only when it is not empty.
pub open spec fn lines_spec(s: Seq<char>) -> Seq<Seq<char>> {
    let p = split_spec(s, '\n');
    let head = p.drop_last().map_values(|l: Seq<char>| strip_cr(l));
    if p.len() == 0 || p.last().len() == 0 {
        head
    } else {
        head.push(p.last())
    }
}

/// The lines of `s`.
pub fn lines(s: &str) -> (r: Vec<String>)
    ensures
        views(r@) == lines_spec(s@),
{
    let pieces = split_char(s, '\n');
    let ghost p = views(pieces@);
    let mut out: Vec<String> = Vec::new();
    if pieces.len() == 0 {
        assert(views(out@) =~= lines_spec(s@));
        return out;
    }
    let n = pieces.len() - 1;
    let mut i: usize = 0;
    while i < n
        invariant
            p == views(pieces@),
            p == split_spec(s@, '\n'),
            n + 1 == pieces@.len(),
            i <= n,
            views(out@) == p.drop_last().take(i as int).map_values(|l: Seq<char>| strip_cr(l)),
        decreases n - i,
    {
        let mut cs = chars_of(pieces[i].as_str());
        if cs.len() > 0 && cs[cs.len() - 1] == '\r' {
            cs.pop();
        }
        let line = string_of_chars(cs.as_slice());
        proof {
            assert(p[i as int] == pieces@[i as int]@);
            assert(line@ == strip_cr(p[i as int]));
        }
        let ghost before = out@;
        out.push(line);
        proof {
            assert(p.drop_last().take(i + 1) =~= p.drop_last().take(i as int).push(p[i as int]));
            assert(views(out@) =~= views(before).push(line@));
        }
        i = i + 1;
    }
    assert(p.drop_last().take(n as int) =~= p.drop_last());
    let last = &pieces[n];
    assert(p.last() == last@);
    if chars_of(last.as_str()).len() > 0 {
        let ghost before = out@;
        out.push(owned(last.as_str()));
        assert(views(out@) =~= views(before).push(last@));
    }
    out
}

/// What a line of a properties text contributes: nothing for a blank line or
/// a comment (starting with `#` or `!`, after trimming), else the trimmed key
/// and value around its first `=` (or, without one, its first `:`).
pub open spec fn property_of(line: Seq<char>) -> Option<(Seq<char>, Seq<char>)> {
    let t = trim_spec(line);
    if t.len() == 0 || t[0] == '#' || t[0] == '!' {
        None
    } else {
        match split_once_spec(t, '=') {
            Some((k, v)) => Some((trim_spec(k), trim_spec(v))),
            None => match split_once_spec(t, ':') {
                Some((k, v)) => Some((trim_spec(k), trim_spec(v))),
                None => None,
            },
        }
    }
}

/// `acc` with the properties of `lines` put in one after the other.
pub open spec fn properties_fold(acc: Seq<(Seq<char>, Seq<char>)>, lines: Seq<Seq<char>>) -> Seq<
    (Seq<char>, Seq<char>),
>
    decreases lines.len(),
{
    if lines.len() == 0 {
        acc
    } else {
        let next = match property_of(lines[0]) {
            Some((k, v)) => sorted_insert(acc, k, v),
            None => acc,
        };
        properties_fold(next, lines.drop_first())
    }
}

/// Cutting `u` at `c`, when its first `c` is at `k`, gives the text before
/// and the text after that `c`.
proof fn lemma_split_once_at(u: Seq<char>, k: int, c: char)
    requires
        0 <= k < u.len(),
        u[k] == c,
        forall|j: int| 0 <= j < k ==> u[j] != c,
    ensures
        split_once_spec(u, c) == Some((u.take(k), u.skip(k + 1))),
{
    assert(!u.take(k).contains(c)) by {
        if u.take(k).contains(c) {
            let j = choose|j: int| 0 <= j < k && u.take(k)[j] == c;
            assert(u[j] == c);
        }
    }
    assert(u =~= u.take(k) + u.skip(k));
    lemma_find_char_prefix(u.take(k), u.skip(k), c);
    assert(u.skip(k)[0] == c);
}

/// A text of one line, ended by a line feed, has that line as its only line.
proof fn lemma_one_line(t: Seq<char>)
    requires
        !t.contains('\n'),
        t.len() == 0 || t.last() != '\r',
    ensures
        lines_spec(t + seq!['\n']) == seq![t],
{
    lemma_split_step(t, Seq::empty(), '\n');
    assert(t + seq!['\n'] + Seq::<char>::empty() =~= t + seq!['\n']);
    lemma_split_none(Seq::<char>::empty(), '\n');
    let p = split_spec(t + seq!['\n'], '\n');
    assert(p =~= seq![t, Seq::<char>::empty()]);
    assert(p.drop_last().map_values(|l: Seq<char>| strip_cr(l)) =~= seq![t]);
}

/// A property line holding `=` is cut at its first `=`, whatever `:` it holds:
/// parsing the line (ended by a line feed) gives one property, whose key is the
/// trimmed text before that `=` and whose value is the trimmed text after it.
pub proof fn lemma_properties_split_at_first_equals(t: Seq<char>, k: int)
    requires
        !t.contains('\n'),
        t.len() == 0 || t.last() != '\r',
        0 <= k < trim_spec(t).len(),
        trim_spec(t)[k] == '=',
        forall|j: int| 0 <= j < k ==> trim_spec(t)[j] != '=',
        trim_spec(t)[0] != '#',
        trim_spec(t)[0] != '!',
    ensures
        properties_fold(Seq::empty(), lines_spec(t + seq!['\n'])) == seq![
            (trim_spec(trim_spec(t).take(k)), trim_spec(trim_spec(t).skip(k + 1))),
        ],
{
    lemma_one_line(t);
    lemma_split_once_at(trim_spec(t), k, '=');
    let key = trim_spec(trim_spec(t).take(k));
    let value = trim_spec(trim_spec(t).skip(k + 1));
    assert(property_of(t) == Some((key, value)));
    let first = sorted_insert(Seq::<(Seq<char>, Seq<char>)>::empty(), key, value);
    assert(first == seq![(key, value)]);
    assert(seq![t].drop_first() =~= Seq::<Seq<char>>::empty());
    assert(properties_fold(first, Seq::<Seq<char>>::empty()) == first);
    assert(properties_fold(Seq::empty(), seq![t]) == properties_fold(first, seq![t].drop_first()));
}

/// A property line without `=` is cut at its first `:`, the same way.
pub proof fn lemma_properties_split_at_first_colon(t: Seq<char>, k: int)
    requires
        !t.contains('\n'),
        t.len() == 0 || t.last() != '\r',
        !trim_spec(t).contains('='),
        0 <= k < trim_spec(t).len(),
        trim_spec(t)[k] == ':',
        forall|j: int| 0 <= j < k ==> trim_spec(t)[j] != ':',
        trim_spec(t)[0] != '#',
        trim_spec(t)[0] != '!',
    ensures
        properties_fold(Seq::empty(), lines_spec(t + seq!['\n'])) == seq![
            (trim_spec(trim_spec(t).take(k)), trim_spec(trim_spec(t).skip(k + 1))),
        ],
{
    lemma_one_line(t);
    lemma_split_none(trim_spec(t), '=');
    lemma_split_once_at(trim_spec(t), k, ':');
    let key = trim_spec(trim_spec(t).take(k));
    let value = trim_spec(trim_spec(t).skip(k + 1));
    assert(property_of(t) == Some((key, value)));
    let first = sorted_insert(Seq::<(Seq<char>, Seq<char>)>::empty(), key, value);
    assert(first == seq![(key, value)]);
    assert(seq![t].drop_first() =~= Seq::<Seq<char>>::empty());
    assert(properties_fold(first, Seq::<Seq<char>>::empty()) == first);
    assert(properties_fold(Seq::empty(), seq![t]) == properties_fold(first, seq![t].drop_first()));
}

/// Parses `.properties`-style text: `key=value` (or `key:value`) lines, blank
/// lines and `#` / `!` comment lines ignored, keys and values trimmed.
pub fn parse_properties(text: &str) -> (r: Properties)
    ensures
        prop_view(r@) == properties_fold(Seq::empty(), lines_spec(text@)),
{
    let ls = lines(text);
    let ghost l = views(ls@);
    let mut props: Properties = StringMap::new();
    assert(prop_view(props@) =~= Seq::<(Seq<char>, Seq<char>)>::empty());
    assert(l.skip(0) =~= l);
    let mut i: usize = 0;
    while i < ls.len()
        invariant
            l == views(ls@),
            l == lines_spec(text@),
            i <= ls@.len(),
            properties_fold(prop_view(props@), l.skip(i as int)) == properties_fold(
                Seq::empty(),
                l,
            ),
        decreases ls@.len() - i,
    {
        let ghost before = props@;
        assert(l.skip(i as int)[0] == ls@[i as int]@);
        assert(l.skip(i as int).drop_first() =~= l.skip(i + 1));
        let t = trim(ls[i].as_str());
        let tc = chars_of(t.as_str());
        if tc.len() == 0 || tc[0] == '#' || tc[0] == '!' {
        } else {
            let pair = match split_once_char(t.as_str(), '=') {
                Some(kv) => Some(kv),
                None => split_once_char(t.as_str(), ':'),
            };
            match pair {
                Some((k, v)) => {
                    let key = trim(k.as_str());
                    let value = trim(v.as_str());
                    proof {
                        lemma_prop_view_insert(before, key@, value);
                    }
                    props.insert(key, value);
                },
                None => {},
            }
        }
        i = i + 1;
    }
    props
}

/// The value properties give `k`: that of `top` when it has one, else that of
/// `below`.
pub open spec fn overridden(
    below: Seq<(Seq<char>, String)>,
    top: Seq<(Seq<char>, String)>,
    k: Seq<char>,
) -> Option<Seq<char>> {
    match prop_lookup(top, k) {
        Some(v) => Some(v),
        None => prop_lookup(below, k),
    }
}

/// Puts every entry of `top` into `props`, replacing what was there.
fn extend(props: &mut Properties, top: &Properties)
    ensures
        forall|k: Seq<char>|
            #[trigger] prop_lookup(final(props)@, k) == overridden(old(props)@, top@, k),
{
    let n = top.len();
    let ghost t = top@;
    let mut i: usize = 0;
    while i < n
        invariant
            n == t.len(),
            t == top@,
            keys_sorted(t),
            i <= n,
            forall|k: Seq<char>|
                #[trigger] prop_lookup(props@, k) == if exists|j: int| 0 <= j < i && t[j].0 == k {
                    prop_lookup(t, k)
                } else {
                    prop_lookup(old(props)@, k)
                },
        decreases n - i,
    {
        let ghost before = props@;
        let key = top.key_at(i).clone();
        let value = top.value_at(i).clone();
        proof {
            lemma_lookup_at(t, i as int);
        }
        let ghost kv = key@;
        let ghost vv = value;
        props.insert(key, value);
        proof {
            lemma_lookup_after_insert_all(before, kv, vv);
            assert forall|k: Seq<char>| #[trigger] prop_lookup(props@, k) == if exists|j: int|
                0 <= j < i + 1 && t[j].0 == k {
                prop_lookup(t, k)
            } else {
                prop_lookup(old(props)@, k)
            } by {
                assert(lookup(props@, k) == if k == kv {
                    Some(vv)
                } else {
                    lookup(before, k)
                });
                if k == kv {
                    assert(t[i as int].0 == k);
                    assert(vv == t[i as int].1);
                    assert(lookup(t, k) == Some(t[i as int].1));
                } else {
                    assert(prop_lookup(props@, k) == prop_lookup(before, k));
                    if exists|j: int| 0 <= j < i + 1 && t[j].0 == k {
                        let j = choose|j: int| 0 <= j < i + 1 && t[j].0 == k;
                        assert(j < i);
                    }
                }
            }
        }
        i = i + 1;
    }
    proof {
        assert forall|k: Seq<char>| #[trigger] prop_lookup(props@, k) == overridden(
            old(props)@,
            t,
            k,
        ) by {
            if exists|j: int| 0 <= j < n && t[j].0 == k {
                let j = choose|j: int| 0 <= j < n && t[j].0 == k;
                lemma_lookup_at(t, j);
            } else {
                crate::util::string_map::lemma_lookup_none(t, k);
            }
        }
    }
}

/// Merges configuration sources with increasing precedence: the environment,
/// then the configuration file's properties (when there is a file), then
/// `client_props`.
pub fn load_all(client_props: &Properties, env: Properties, file: Option<Properties>) -> (r:
    Properties)
    ensures
        forall|k: Seq<char>|
            #[trigger] prop_lookup(r@, k) == match prop_lookup(client_props@, k) {
                Some(v) => Some(v),
                None => match file {
                    Some(f) => overridden(env@, f@, k),
                    None => prop_lookup(env@, k),
                },
            },
{
    let mut config = env;
    match &file {
        Some(f) => extend(&mut config, f),
        None => {},
    }
    extend(&mut config, client_props);
    config
}

/// `base` joined with the relative or absolute path `rel`, as `Path::join`
/// does on Unix: an absolute `rel` replaces `base`; otherwise a `/` goes
/// between them unless `base` is empty or already ends with one.
pub open spec fn path_join(base: Seq<char>, rel: Seq<char>) -> Seq<char> {
    if rel.len() > 0 && rel[0] == '/' {
        rel
    } else if base.len() == 0 || base.last() == '/' {
        base + rel
    } else {
        base + seq!['/'] + rel
    }
}

/// `base` joined with `rel`.
pub fn join_path(base: &str, rel: &str) -> (r: String)
    ensures
        r@ == path_join(base@, rel@),
{
    let rc = chars_of(rel);
    let bc = chars_of(base);
    if rc.len() > 0 && rc[0] == '/' {
        owned(rel)
    } else if bc.len() == 0 || bc[bc.len() - 1] == '/' {
        concat2(base, rel)
    } else {
        let with_sep = concat2(base, "/");
        proof {
            reveal_strlit("/");
        }
        assert("/"@ =~= seq!['/']);
        concat2(with_sep.as_str(), rel)
    }
}

/// The user's home directory: `HOME`, else `USERPROFILE`.
pub open spec fn home_dir(env: Seq<(Seq<char>, String)>) -> Option<Seq<char>> {
    match prop_lookup(env, "HOME"@) {
        Some(h) => Some(h),
        None => prop_lookup(env, "USERPROFILE"@),
    }
}

/// A per-user directory: the environment variable `key` when set, else the
/// home directory joined with `suffix`.
pub open spec fn xdg_dir(env: Seq<(Seq<char>, String)>, key: Seq<char>, suffix: Seq<char>) -> Option<
    Seq<char>,
> {
    match prop_lookup(env, key) {
        Some(v) => Some(v),
        None => match home_dir(env) {
            Some(h) => Some(path_join(h, suffix)),
            None => None,
        },
    }
}

/// Cross-platform application directory resolution, from a snapshot of the
/// environment.
pub struct SystemSettings;

impl SystemSettings {
    /// The user's home directory (`HOME`, or `USERPROFILE` on Windows).
    pub fn user_home_dir(env: &Properties) -> (r: Option<String>)
        ensures
            match home_dir(env@) {
                Some(h) => r matches Some(x) && x@ == h,
                None => r is None,
            },
    {
        proof {
            reveal_strlit("HOME");
            reveal_strlit("USERPROFILE");
        }
        match env.get("HOME") {
            Some(h) => Some(h.clone()),
            None => match env.get("USERPROFILE") {
                Some(h) => Some(h.clone()),
                None => None,
            },
        }
    }

    fn xdg(env: &Properties, key: &str, suffix: &str) -> (r: Option<String>)
        ensures
            match xdg_dir(env@, key@, suffix@) {
                Some(d) => r matches Some(x) && x@ == d,
                None => r is None,
            },
    {
        match env.get(key) {
            Some(v) => Some(v.clone()),
            None => match SystemSettings::user_home_dir(env) {
                Some(h) => Some(join_path(h.as_str(), suffix)),
                None => None,
            },
        }
    }

    /// `$XDG_DATA_HOME`, else `~/.local/share`.
    pub fn user_data_dir(env: &Properties) -> (r: Option<String>)
        ensures
            match xdg_dir(env@, "XDG_DATA_HOME"@, ".local/share"@) {
                Some(d) => r matches Some(x) && x@ == d,
                None => r is None,
            },
    {
        SystemSettings::xdg(env, "XDG_DATA_HOME", ".local/share")
    }

    /// `$XDG_CONFIG_HOME`, else `~/.config`.
    pub fn user_config_dir(env: &Properties) -> (r: Option<String>)
        ensures
            match xdg_dir(env@, "XDG_CONFIG_HOME"@, ".config"@) {
                Some(d) => r matches Some(x) && x@ == d,
                None => r is None,
            },
    {
        SystemSettings::xdg(env, "XDG_CONFIG_HOME", ".config")
    }

    /// `$XDG_CACHE_HOME`, else `~/.cache`.
    pub fn user_cache_dir(env: &Properties) -> (r: Option<String>)
        ensures
            match xdg_dir(env@, "XDG_CACHE_HOME"@, ".cache"@) {
                Some(d) => r matches Some(x) && x@ == d,
                None => r is None,
            },
    {
        SystemSettings::xdg(env, "XDG_CACHE_HOME", ".cache")
    }

    /// `<base>/<group>/<app>`.
    pub fn app_dir(base: &str, group: &str, app: &str) -> (r: String)
        ensures
            r@ == path_join(path_join(base@, group@), app@),
    {
        let g = join_path(base, group);
        join_path(g.as_str(), app)
    }

    /// `<data dir>/<group>/<app>`; [`RaError::FileCreationFailed`] when no data
    /// directory is known.
    pub fn user_app_data_dir(env: &Properties, group: &str, app: &str) -> (r: Result<String>)
        ensures
            match xdg_dir(env@, "XDG_DATA_HOME"@, ".local/share"@) {
                Some(d) => r matches Ok(x) && x@ == path_join(path_join(d, group@), app@),
                None => r matches Err(RaError::FileCreationFailed(_)),
            },
    {
        match SystemSettings::user_data_dir(env) {
            Some(base) => Ok(SystemSettings::app_dir(base.as_str(), group, app)),
            None => Err(RaError::FileCreationFailed(owned("no user data dir"))),
        }
    }

    /// `<config dir>/<group>/<app>`; [`RaError::FileCreationFailed`] when no
    /// config directory is known.
    pub fn user_app_config_dir(env: &Properties, group: &str, app: &str) -> (r: Result<String>)
        ensures
            match xdg_dir(env@, "XDG_CONFIG_HOME"@, ".config"@) {
                Some(d) => r matches Ok(x) && x@ == path_join(path_join(d, group@), app@),
                None => r matches Err(RaError::FileCreationFailed(_)),
            },
    {
        match SystemSettings::user_config_dir(env) {
            Some(base) => Ok(SystemSettings::app_dir(base.as_str(), group, app)),
            None => Err(RaError::FileCreationFailed(owned("no user config dir"))),
        }
    }

    /// `<cache dir>/<group>/<app>`; [`RaError::FileCreationFailed`] when no
    /// cache directory is known.
    pub fn user_app_cache_dir(env: &Properties, group: &str, app: &str) -> (r: Result<String>)
        ensures
            match xdg_dir(env@, "XDG_CACHE_HOME"@, ".cache"@) {
                Some(d) => r matches Ok(x) && x@ == path_join(path_join(d, group@), app@),
                None => r matches Err(RaError::FileCreationFailed(_)),
            },
    {
        match SystemSettings::user_cache_dir(env) {
            Some(base) => Ok(SystemSettings::app_dir(base.as_str(), group, app)),
            None => Err(RaError::FileCreationFailed(owned("no user cache dir"))),
        }
    }
}

} // verus!
