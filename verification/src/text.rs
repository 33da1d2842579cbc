//! Text as sequences of characters: conversion to and from `String`,
//! whitespace trimming and the lexicographic order of strings.
//!
//! Contracts throughout the crate speak of a string by its view, a
//! `Seq<char>`. The executable code scans a `Vec<char>` so that every
//! character is reached in constant time.
use vstd::prelude::*;

verus! {

/// `String::push` of the standard library appends the character to the end
/// of the string and changes nothing else.
pub assume_specification[ String::push ](s: &mut String, c: char)
    ensures
        final(s)@ == old(s)@.push(c),
;

/// The characters of `s`, in order.
pub fn chars_of(s: &str) -> (v: Vec<char>)
    ensures
        v@ == s@,
{
    let mut v: Vec<char> = Vec::new();
    for c in it: s.chars()
        invariant
            it.seq() == s@,
            v@ == it.seq().take(it.index()),
    {
        v.push(c);
    }
    assert(v@ == s@.take(s@.len() as int));
    v
}

/// The string made of the characters `v[from..to]`.
pub fn string_of_range(v: &Vec<char>, from: usize, to: usize) -> (s: String)
    requires
        from <= to <= v.len(),
    ensures
        s@ == v@.subrange(from as int, to as int),
{
    let mut s = String::new();
    let mut i: usize = from;
    while i < to
        invariant
            from <= i <= to <= v.len(),
            s@ == v@.subrange(from as int, i as int),
        decreases to - i,
    {
        s.push(v[i]);
        i += 1;
    }
    s
}

/// The string made of the characters of `v`.
pub fn string_of(v: &Vec<char>) -> (s: String)
    ensures
        s@ == v@,
{
    let s = string_of_range(v, 0, v.len());
    assert(v@.subrange(0, v@.len() as int) == v@);
    s
}

/// Appends the characters of `tail` to `v`.
pub fn push_all(v: &mut Vec<char>, tail: &Vec<char>)
    ensures
        final(v)@ == old(v)@ + tail@,
{
    let mut i: usize = 0;
    while i < tail.len()
        invariant
            i <= tail.len(),
            v@ == old(v)@ + tail@.take(i as int),
        decreases tail.len() - i,
    {
        v.push(tail[i]);
        i += 1;
    }
    assert(tail@.take(tail@.len() as int) == tail@);
}

/// Whether `c` is white space: the code points with the Unicode property
/// `White_Space`.
pub open spec fn is_space(c: char) -> bool {
    let u = c as u32;
    ||| 0x09 <= u <= 0x0d
    ||| u == 0x20
    ||| u == 0x85
    ||| u == 0xa0
    ||| u == 0x1680
    ||| 0x2000 <= u <= 0x200a
    ||| u == 0x2028
    ||| u == 0x2029
    ||| u == 0x202f
    ||| u == 0x205f
    ||| u == 0x3000
}

/// Decides `is_space`.
pub fn is_space_char(c: char) -> (r: bool)
    ensures
        r == is_space(c),
{
    let u: u32 = c as u32;
    (0x09 <= u && u <= 0x0d) || u == 0x20 || u == 0x85 || u == 0xa0 || u == 0x1680 || (0x2000 <= u
        && u <= 0x200a) || u == 0x2028 || u == 0x2029 || u == 0x202f || u == 0x205f || u == 0x3000
}

/// Whether every character of `s` is white space.
pub open spec fn all_space(s: Seq<char>) -> bool {
    forall|i: int| 0 <= i < s.len() ==> is_space(#[trigger] s[i])
}

/// Whether `t` is `s` without its leading and trailing white space: `t`
/// lies in `s` between two runs of white space, and neither begins nor ends
/// with white space itself.
pub open spec fn is_trim_of(t: Seq<char>, s: Seq<char>) -> bool {
    exists|from: int, to: int|
        {
            &&& 0 <= from <= to <= s.len()
            &&& #[trigger] s.subrange(from, to) == t
            &&& all_space(s.take(from))
            &&& all_space(s.skip(to))
            &&& t.len() > 0 ==> !is_space(t.first()) && !is_space(t.last())
        }
}

/// Where the text of `s` begins once leading white space is passed: the
/// least index that holds no white space, or the length of `s`.
pub open spec fn trim_start(s: Seq<char>) -> int
    decreases s.len(),
{
    if s.len() > 0 && is_space(s.first()) {
        1 + trim_start(s.drop_first())
    } else {
        0
    }
}

/// Where the text of `s` ends before trailing white space: one past the
/// greatest index that holds no white space, or 0.
pub open spec fn trim_end(s: Seq<char>) -> int
    decreases s.len(),
{
    if s.len() > 0 && is_space(s.last()) {
        trim_end(s.drop_last())
    } else {
        s.len() as int
    }
}

/// `s` without its leading and trailing white space.
pub open spec fn trim(s: Seq<char>) -> Seq<char> {
    if trim_start(s) >= trim_end(s) {
        Seq::empty()
    } else {
        s.subrange(trim_start(s), trim_end(s))
    }
}

/// `trim_start(s)` stands after a run of white space and before a
/// character that is none.
pub proof fn lemma_trim_start(s: Seq<char>)
    ensures
        0 <= trim_start(s) <= s.len(),
        all_space(s.take(trim_start(s))),
        trim_start(s) < s.len() ==> !is_space(s[trim_start(s)]),
    decreases s.len(),
{
    if s.len() > 0 && is_space(s.first()) {
        let rest = s.drop_first();
        lemma_trim_start(rest);
        let k = trim_start(rest);
        assert forall|i: int| 0 <= i < k + 1 implies is_space(#[trigger] s.take(k + 1)[i]) by {
            if i > 0 {
                assert(rest.take(k)[i - 1] == s[i]);
            }
        }
        if k < rest.len() {
            assert(rest[k] == s[k + 1]);
        }
    }
}

/// `trim_end(s)` stands before a run of white space and after a character
/// that is none.
pub proof fn lemma_trim_end(s: Seq<char>)
    ensures
        0 <= trim_end(s) <= s.len(),
        all_space(s.skip(trim_end(s))),
        trim_end(s) > 0 ==> !is_space(s[trim_end(s) - 1]),
    decreases s.len(),
{
    if s.len() > 0 && is_space(s.last()) {
        let rest = s.drop_last();
        lemma_trim_end(rest);
        let k = trim_end(rest);
        assert forall|i: int| 0 <= i < s.len() - k implies is_space(#[trigger] s.skip(k)[i]) by {
            if i < rest.len() - k {
                assert(rest.skip(k)[i] == s[k + i]);
            }
        }
        if k > 0 {
            assert(rest[k - 1] == s[k - 1]);
        }
    }
}

/// `trim(s)` is `s` without its leading and trailing white space.
pub proof fn lemma_trim_is_trim(s: Seq<char>)
    ensures
        is_trim_of(trim(s), s),
{
    lemma_trim_start(s);
    lemma_trim_end(s);
    let from = trim_start(s);
    let to = trim_end(s);
    if from >= to {
        // Nothing but white space: the run before `from` and the run from
        // `to` on cover `s`.
        assert forall|i: int| 0 <= i < s.len() implies is_space(#[trigger] s[i]) by {
            if i < from {
                assert(s.take(from)[i] == s[i]);
            } else {
                assert(s.skip(to)[i - to] == s[i]);
            }
        }
        assert(s.subrange(0, 0) == Seq::<char>::empty());
        assert(all_space(s.take(0)));
        assert(all_space(s.skip(0)));
    } else {
        assert(s.subrange(from, to) == trim(s));
    }
}

/// After a run of white space, the text begins where the run ends, if what
/// follows the run does not begin with white space itself.
pub proof fn lemma_trim_start_after(pad: Seq<char>, s: Seq<char>)
    requires
        all_space(pad),
        s.len() > 0 ==> !is_space(s.first()),
    ensures
        trim_start(pad + s) == pad.len(),
    decreases pad.len(),
{
    if pad.len() > 0 {
        let rest = pad.drop_first();
        assert(is_space(pad[0]));
        assert forall|i: int| 0 <= i < rest.len() implies is_space(#[trigger] rest[i]) by {
            assert(rest[i] == pad[i + 1]);
        }
        lemma_trim_start_after(rest, s);
        assert((pad + s).drop_first() == rest + s);
        assert((pad + s).first() == pad[0]);
    } else {
        assert(pad + s == s);
    }
}

/// Before a run of white space, the text ends where the run begins, if
/// what stands before the run does not end in white space itself.
pub proof fn lemma_trim_end_before(s: Seq<char>, pad: Seq<char>)
    requires
        all_space(pad),
        s.len() > 0 ==> !is_space(s.last()),
    ensures
        trim_end(s + pad) == s.len(),
    decreases pad.len(),
{
    if pad.len() > 0 {
        let rest = pad.drop_last();
        assert(is_space(pad[pad.len() - 1]));
        assert forall|i: int| 0 <= i < rest.len() implies is_space(#[trigger] rest[i]) by {
            assert(rest[i] == pad[i]);
        }
        lemma_trim_end_before(s, rest);
        assert((s + pad).drop_last() == s + rest);
        assert((s + pad).last() == pad[pad.len() - 1]);
    } else {
        assert(s + pad == s);
    }
}

/// Nothing is left of a text that is all white space.
pub proof fn lemma_trim_of_spaces(s: Seq<char>)
    requires
        all_space(s),
    ensures
        trim(s) == Seq::<char>::empty(),
{
    lemma_trim_start_after(s, Seq::empty());
    assert(s + Seq::<char>::empty() == s);
    lemma_trim_end(s);
}

/// A text that neither begins nor ends with white space is what is left of
/// it when white space is put before and after it.
pub proof fn lemma_trim_between(before: Seq<char>, text: Seq<char>, after: Seq<char>)
    requires
        all_space(before),
        all_space(after),
        text.len() > 0,
        !is_space(text.first()),
        !is_space(text.last()),
    ensures
        trim(before + text + after) == text,
{
    let whole = before + text + after;
    assert(whole == before + (text + after));
    assert((text + after).first() == text.first());
    lemma_trim_start_after(before, text + after);
    assert((before + text).last() == text.last());
    lemma_trim_end_before(before + text, after);
    assert(whole.subrange(before.len() as int, (before.len() + text.len()) as int) == text);
}

/// Scans `v` for the bounds of its trimmed text.
pub fn trim_bounds(v: &Vec<char>) -> (bounds: (usize, usize))
    ensures
        bounds.0 <= bounds.1 <= v.len(),
        v@.subrange(bounds.0 as int, bounds.1 as int) == trim(v@),
{
    let mut from: usize = 0;
    assert(v@.skip(0) == v@);
    while from < v.len() && is_space_char(v[from])
        invariant
            from <= v.len(),
            trim_start(v@) == from + trim_start(v@.skip(from as int)),
        decreases v.len() - from,
    {
        assert(v@.skip(from as int).drop_first() == v@.skip(from + 1));
        from += 1;
    }
    let mut to: usize = v.len();
    assert(v@.take(to as int) == v@);
    while to > 0 && is_space_char(v[to - 1])
        invariant
            to <= v.len(),
            trim_end(v@) == trim_end(v@.take(to as int)),
        decreases to,
    {
        assert(v@.take(to as int).drop_last() == v@.take(to - 1));
        to -= 1;
    }
    if from >= to {
        assert(v@.subrange(from as int, from as int) == Seq::<char>::empty());
        (from, from)
    } else {
        (from, to)
    }
}

/// `s` without its leading and trailing white space, as a new string.
pub fn trimmed(s: &str) -> (t: String)
    ensures
        t@ == trim(s@),
        is_trim_of(t@, s@),
{
    let v = chars_of(s);
    let (from, to) = trim_bounds(&v);
    proof {
        lemma_trim_is_trim(s@);
    }
    string_of_range(&v, from, to)
}

/// Whether `a` comes before `b` in the lexicographic order of their code
/// points, read from index `i` on: the order of `str`.
pub open spec fn lex_lt_from(a: Seq<char>, b: Seq<char>, i: int) -> bool
    decreases a.len() - i,
{
    if i < 0 || i >= b.len() {
        false
    } else if i >= a.len() {
        true
    } else if a[i] == b[i] {
        lex_lt_from(a, b, i + 1)
    } else {
        a[i] < b[i]
    }
}

/// Whether `a` comes before `b` in the lexicographic order of their code
/// points.
pub open spec fn lex_lt(a: Seq<char>, b: Seq<char>) -> bool {
    lex_lt_from(a, b, 0)
}

/// No text comes before itself.
pub proof fn lemma_lex_lt_irreflexive(a: Seq<char>, i: int)
    ensures
        !lex_lt_from(a, a, i),
    decreases a.len() - i,
{
    if 0 <= i < a.len() {
        lemma_lex_lt_irreflexive(a, i + 1);
    }
}

/// The order is transitive.
pub proof fn lemma_lex_lt_transitive(a: Seq<char>, b: Seq<char>, c: Seq<char>, i: int)
    requires
        lex_lt_from(a, b, i),
        lex_lt_from(b, c, i),
    ensures
        lex_lt_from(a, c, i),
    decreases a.len() - i,
{
    if i < a.len() && a[i] == b[i] && b[i] == c[i] {
        lemma_lex_lt_transitive(a, b, c, i + 1);
    }
}

/// Of two texts that agree up to `i` and differ, one comes before the
/// other.
pub proof fn lemma_lex_lt_total(a: Seq<char>, b: Seq<char>, i: int)
    requires
        0 <= i <= a.len(),
        i <= b.len(),
        a.take(i) == b.take(i),
        a != b,
    ensures
        lex_lt_from(a, b, i) || lex_lt_from(b, a, i),
    decreases a.len() - i,
{
    if i < a.len() && i < b.len() && a[i] == b[i] {
        assert(a.take(i + 1) == a.take(i).push(a[i]));
        assert(b.take(i + 1) == b.take(i).push(b[i]));
        lemma_lex_lt_total(a, b, i + 1);
    } else if i == a.len() && i == b.len() {
        assert(a.take(i) == a);
        assert(b.take(i) == b);
    }
}

/// Decides `lex_lt`.
pub fn text_lt(a: &Vec<char>, b: &Vec<char>) -> (r: bool)
    ensures
        r == lex_lt(a@, b@),
{
    let mut i: usize = 0;
    while i < a.len() && i < b.len() && a[i] == b[i]
        invariant
            i <= a.len(),
            i <= b.len(),
            lex_lt(a@, b@) == lex_lt_from(a@, b@, i as int),
        decreases a.len() - i,
    {
        i += 1;
    }
    if i >= b.len() {
        false
    } else if i >= a.len() {
        true
    } else {
        a[i] < b[i]
    }
}

/// Decides whether two texts are the same.
pub fn text_eq(a: &Vec<char>, b: &Vec<char>) -> (r: bool)
    ensures
        r == (a@ == b@),
{
    if a.len() != b.len() {
        return false;
    }
    let mut i: usize = 0;
    while i < a.len()
        invariant
            i <= a.len(),
            a.len() == b.len(),
            a@.take(i as int) == b@.take(i as int),
        decreases a.len() - i,
    {
        if a[i] != b[i] {
            return false;
        }
        assert(a@.take(i + 1) == a@.take(i as int).push(a@[i as int]));
        assert(b@.take(i + 1) == b@.take(i as int).push(b@[i as int]));
        i += 1;
    }
    assert(a@.take(a@.len() as int) == a@);
    assert(b@.take(b@.len() as int) == b@);
    true
}

} // verus!
