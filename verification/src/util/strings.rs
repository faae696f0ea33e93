//! Capitalisation helpers.

use crate::text::{chars_of, string_of_chars};
use vstd::prelude::*;

verus! {

/// The upper-case mapping of `c`, as `char::to_uppercase` yields it (one or more
/// characters; the character itself when it has no upper-case form).
pub uninterp spec fn uppercase_of(c: char) -> Seq<char>;

/// The ASCII upper-case form of `c`: `a`-`z` move to `A`-`Z`, every other
/// character stays.
pub open spec fn ascii_upper(c: char) -> char {
    if 'a' <= c <= 'z' {
        ((c as u32) - 32) as char
    } else {
        c
    }
}

/// Upper-case mapping of one character.
///
/// Calls `char::to_uppercase` and collects what it yields. The contract names
/// the result `uppercase_of(c)` and states, as the standard library documents,
/// that it holds at least one character, and that an ASCII character maps to
/// its ASCII upper-case form alone; the rest of the Unicode tables is left
/// unsaid.
#[verifier::external_body]
fn char_to_uppercase(c: char) -> (r: Vec<char>)
    ensures
        r@ == uppercase_of(c),
        r@.len() >= 1,
        (c as u32) < 128 ==> r@ == seq![ascii_upper(c)],
{
    c.to_uppercase().collect()
}

/// `s` with its first character upper-cased.
pub open spec fn capitalized_first(s: Seq<char>) -> Seq<char> {
    if s.len() == 0 {
        Seq::empty()
    } else {
        uppercase_of(s[0]) + s.drop_first()
    }
}

/// `s` with the first character, and every character that follows a space,
/// upper-cased; `at_start` says whether `s[0]` counts as such a character.
pub open spec fn capitalized_words(s: Seq<char>, at_start: bool) -> Seq<char>
    decreases s.len(),
{
    if s.len() == 0 {
        Seq::empty()
    } else if at_start && s[0] != ' ' {
        uppercase_of(s[0]) + capitalized_words(s.drop_first(), false)
    } else {
        seq![s[0]] + capitalized_words(s.drop_first(), s[0] == ' ')
    }
}

/// Upper-cases the first character and leaves the rest untouched.
pub fn capitalize_first(input: &str) -> (r: String)
    ensures
        r@ == capitalized_first(input@),
        input@.len() > 0 && (input@[0] as u32) < 128 ==> r@ == seq![ascii_upper(input@[0])]
            + input@.drop_first(),
{
    let cs = chars_of(input);
    if cs.len() == 0 {
        return string_of_chars(&cs);
    }
    let mut out = char_to_uppercase(cs[0]);
    let mut i: usize = 1;
    while i < cs.len()
        invariant
            1 <= i <= cs@.len(),
            cs@ == input@,
            out@ == uppercase_of(cs@[0]) + cs@.subrange(1, i as int),
        decreases cs@.len() - i,
    {
        out.push(cs[i]);
        i = i + 1;
    }
    assert(cs@.subrange(1, cs@.len() as int) =~= cs@.drop_first());
    string_of_chars(&out)
}

/// Upper-cases the first character and every character immediately following a
/// space.
pub fn capitalize(input: &str) -> (r: String)
    ensures
        r@ == capitalized_words(input@, true),
{
    let cs = chars_of(input);
    let mut out: Vec<char> = Vec::new();
    let mut capitalize_next = true;
    let mut i: usize = 0;
    assert(cs@.skip(0) =~= cs@);
    assert(out@ + capitalized_words(cs@, true) =~= capitalized_words(cs@, true));
    while i < cs.len()
        invariant
            i <= cs@.len(),
            cs@ == input@,
            capitalized_words(input@, true) == out@ + capitalized_words(
                cs@.skip(i as int),
                capitalize_next,
            ),
        decreases cs@.len() - i,
    {
        let c = cs[i];
        let ghost rest = cs@.skip(i as int);
        assert(rest[0] == c);
        assert(rest.drop_first() =~= cs@.skip(i + 1));
        if capitalize_next && c != ' ' {
            let up = char_to_uppercase(c);
            let mut j: usize = 0;
            let ghost start = out@;
            while j < up.len()
                invariant
                    j <= up@.len(),
                    out@ == start + up@.subrange(0, j as int),
                decreases up@.len() - j,
            {
                out.push(up[j]);
                j = j + 1;
            }
            assert(up@.subrange(0, up@.len() as int) =~= up@);
            assert(out@ + capitalized_words(cs@.skip(i + 1), false) =~= start + (uppercase_of(c)
                + capitalized_words(rest.drop_first(), false)));
            capitalize_next = false;
        } else {
            let ghost start = out@;
            out.push(c);
            assert(out@ + capitalized_words(cs@.skip(i + 1), c == ' ') =~= start + (seq![c]
                + capitalized_words(rest.drop_first(), c == ' ')));
            capitalize_next = c == ' ';
        }
        i = i + 1;
    }
    assert(cs@.skip(i as int) =~= Seq::<char>::empty());
    assert(out@ + Seq::<char>::empty() =~= out@);
    string_of_chars(&out)
}

} // verus!
