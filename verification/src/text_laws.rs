//! What the functions on text promise, told by the characters themselves.

use vstd::prelude::*;
use crate::text::{
    ascii_lower, begins_with, contains_text, decimal, ends_in, find_spec, index_spec, is_ascii_alnum,
    is_control, is_white, lemma_find, lemma_index, lowered, occurs_at, only, strip_back,
    strip_front, trimmed, trimmed_of, trimmed_start, white,
};

verus! {

// ---------------------------------------------------------------------------
// Characters
// ---------------------------------------------------------------------------

/// The white space of ASCII is the space and the five characters from tab to carriage
/// return; beyond ASCII it is these nineteen characters.
pub proof fn law_white_space(c: char)
    ensures
        (c as u32) < 128 ==> (is_white(c) <==> c == ' ' || c == '\t' || c == '\n' || c == '\r' || c
            as u32 == 11 || c as u32 == 12),
        c as u32 >= 128 ==> (is_white(c) <==> seq![
            0x85u32,
            0xa0,
            0x1680,
            0x2000,
            0x2001,
            0x2002,
            0x2003,
            0x2004,
            0x2005,
            0x2006,
            0x2007,
            0x2008,
            0x2009,
            0x200a,
            0x2028,
            0x2029,
            0x202f,
            0x205f,
            0x3000,
        ].contains(c as u32)),
{
    let beyond = seq![
        0x85u32,
        0xa0,
        0x1680,
        0x2000,
        0x2001,
        0x2002,
        0x2003,
        0x2004,
        0x2005,
        0x2006,
        0x2007,
        0x2008,
        0x2009,
        0x200a,
        0x2028,
        0x2029,
        0x202f,
        0x205f,
        0x3000,
    ];
    let n = c as u32;
    if n == 0x85 {
        assert(beyond[0] == n);
    } else if n == 0xa0 {
        assert(beyond[1] == n);
    } else if n == 0x1680 {
        assert(beyond[2] == n);
    } else if 0x2000 <= n <= 0x200a {
        assert(beyond[n - 0x2000 + 3] == n);
    } else if n == 0x2028 {
        assert(beyond[14] == n);
    } else if n == 0x2029 {
        assert(beyond[15] == n);
    } else if n == 0x202f {
        assert(beyond[16] == n);
    } else if n == 0x205f {
        assert(beyond[17] == n);
    } else if n == 0x3000 {
        assert(beyond[18] == n);
    }
}

/// Control characters are the first thirty-two characters, delete, and the thirty-two
/// after it.
pub proof fn law_control_characters(c: char)
    ensures
        is_control(c) <==> (c as u32) < 32 || 127 <= (c as u32) < 160,
{
}

/// No letter, digit or printable sign of ASCII is white space or a control character.
pub proof fn law_printable_characters(c: char)
    requires
        0x21 <= c as u32 <= 0x7e,
    ensures
        !is_white(c),
        !is_control(c),
{
}

/// Letters and digits of ASCII, told by their ranges.
pub proof fn law_letters_and_digits(c: char)
    ensures
        is_ascii_alnum(c) <==> 48 <= c as u32 <= 57 || 65 <= c as u32 <= 90 || 97 <= c as u32
            <= 122,
{
}

/// Lowering moves the capitals of ASCII to the small letters, one for one, and leaves every
/// other character; lowering again changes nothing.
pub proof fn law_lower_case(c: char)
    ensures
        65 <= c as u32 <= 90 ==> ascii_lower(c) as u32 == c as u32 + 32,
        !(65 <= c as u32 <= 90) ==> ascii_lower(c) == c,
        ascii_lower(ascii_lower(c)) == ascii_lower(c),
{
}

/// Lowering a text lowers each of its characters.
pub proof fn law_lowered_text(s: Seq<char>)
    ensures
        lowered(s).len() == s.len(),
        forall|i: int| 0 <= i < s.len() ==> #[trigger] lowered(s)[i] == ascii_lower(s[i]),
        lowered(lowered(s)) == lowered(s),
{
    assert forall|i: int| 0 <= i < s.len() implies #[trigger] lowered(lowered(s))[i] == lowered(
        s,
    )[i] by {
        law_lower_case(s[i]);
    }
    assert(lowered(lowered(s)) =~= lowered(s));
}

// ---------------------------------------------------------------------------
// Trimming
// ---------------------------------------------------------------------------

/// Whether all characters are in `p`.
pub open spec fn all_in(s: Seq<char>, p: spec_fn(char) -> bool) -> bool {
    forall|i: int| 0 <= i < s.len() ==> p(#[trigger] s[i])
}

/// Whether a text is all white space.
pub open spec fn all_white(s: Seq<char>) -> bool {
    forall|i: int| 0 <= i < s.len() ==> is_white(#[trigger] s[i])
}

proof fn lemma_strip_front_is(a: Seq<char>, rest: Seq<char>, p: spec_fn(char) -> bool)
    requires
        all_in(a, p),
        rest.len() > 0 ==> !p(rest[0]),
    ensures
        strip_front(a + rest, p) == rest,
    decreases a.len(),
{
    let all = a + rest;
    if a.len() == 0 {
        assert(all == rest);
    } else {
        assert(all[0] == a[0]);
        let less = a.skip(1);
        assert forall|i: int| 0 <= i < less.len() implies p(#[trigger] less[i]) by {
            assert(less[i] == a[i + 1]);
        }
        assert(all.skip(1) == less + rest);
        lemma_strip_front_is(less, rest, p);
    }
}

/// Stripping the back takes what is in `p` there, all of it, and nothing else.
pub proof fn lemma_strip_back_is(rest: Seq<char>, b: Seq<char>, p: spec_fn(char) -> bool)
    requires
        all_in(b, p),
        rest.len() > 0 ==> !p(rest.last()),
    ensures
        strip_back(rest + b, p) == rest,
    decreases b.len(),
{
    let all = rest + b;
    if b.len() == 0 {
        assert(all == rest);
    } else {
        assert(all.last() == b.last());
        let less = b.drop_last();
        assert forall|i: int| 0 <= i < less.len() implies p(#[trigger] less[i]) by {
            assert(less[i] == b[i]);
        }
        assert(all.drop_last() == rest + less);
        lemma_strip_back_is(rest, less, p);
    }
}

proof fn lemma_stripped_is(
    a: Seq<char>,
    middle: Seq<char>,
    b: Seq<char>,
    p: spec_fn(char) -> bool,
)
    requires
        all_in(a, p),
        all_in(b, p),
        middle.len() > 0 ==> !p(middle[0]) && !p(middle.last()),
    ensures
        strip_back(strip_front(a + middle + b, p), p) == middle,
{
    if middle.len() == 0 {
        let all = a + b;
        assert(a + middle + b == all);
        assert forall|i: int| 0 <= i < all.len() implies p(#[trigger] all[i]) by {
            if i < a.len() {
                assert(all[i] == a[i]);
            } else {
                assert(all[i] == b[i - a.len()]);
            }
        }
        let none = Seq::<char>::empty();
        lemma_strip_front_is(all, none, p);
        assert(all + none == all);
        assert(middle == none);
    } else {
        assert(a + middle + b == a + (middle + b));
        assert((middle + b)[0] == middle[0]);
        lemma_strip_front_is(a, middle + b, p);
        lemma_strip_back_is(middle, b, p);
    }
}

/// Trimming takes the white space at both ends, all of it, and nothing else.
pub proof fn law_trimming_takes_white_space(a: Seq<char>, middle: Seq<char>, b: Seq<char>)
    requires
        all_white(a),
        all_white(b),
        middle.len() > 0 ==> !is_white(middle[0]) && !is_white(middle.last()),
    ensures
        trimmed(a + middle + b) == middle,
{
    let p = white();
    assert forall|i: int| 0 <= i < a.len() implies p(#[trigger] a[i]) by {
        assert(is_white(a[i]));
    }
    assert forall|i: int| 0 <= i < b.len() implies p(#[trigger] b[i]) by {
        assert(is_white(b[i]));
    }
    lemma_stripped_is(a, middle, b, p);
}

/// Trimming the beginning takes the white space there, all of it, and nothing else.
pub proof fn law_trimming_the_start(a: Seq<char>, rest: Seq<char>)
    requires
        all_white(a),
        rest.len() > 0 ==> !is_white(rest[0]),
    ensures
        trimmed_start(a + rest) == rest,
{
    let p = white();
    assert forall|i: int| 0 <= i < a.len() implies p(#[trigger] a[i]) by {
        assert(is_white(a[i]));
    }
    lemma_strip_front_is(a, rest, p);
}

/// Trimming a character takes its occurrences at both ends, all of them, and nothing else.
pub proof fn law_trimming_a_character(x: char, a: Seq<char>, middle: Seq<char>, b: Seq<char>)
    requires
        forall|i: int| 0 <= i < a.len() ==> #[trigger] a[i] == x,
        forall|i: int| 0 <= i < b.len() ==> #[trigger] b[i] == x,
        middle.len() > 0 ==> middle[0] != x && middle.last() != x,
    ensures
        trimmed_of(a + middle + b, x) == middle,
{
    let p = only(x);
    assert forall|i: int| 0 <= i < a.len() implies p(#[trigger] a[i]) by {
        assert(a[i] == x);
    }
    assert forall|i: int| 0 <= i < b.len() implies p(#[trigger] b[i]) by {
        assert(b[i] == x);
    }
    lemma_stripped_is(a, middle, b, p);
}

/// Every text is white space, its trimmed form, and white space.
pub proof fn law_trimmed_text_stands_in_the_text(s: Seq<char>) -> (r: (Seq<char>, Seq<char>))
    ensures
        s == r.0 + trimmed(s) + r.1,
        all_white(r.0),
        all_white(r.1),
        trimmed(s).len() > 0 ==> !is_white(trimmed(s)[0]) && !is_white(trimmed(s).last()),
        trimmed(trimmed(s)) == trimmed(s),
{
    let (a, rest) = lemma_front_parts(s);
    let (middle, b) = lemma_back_parts(rest);
    assert(s == a + (middle + b));
    assert(a + (middle + b) == a + middle + b);
    if middle.len() > 0 {
        assert(middle[0] == rest[0]);
    }
    law_trimming_takes_white_space(a, middle, b);
    let none = Seq::<char>::empty();
    law_trimming_takes_white_space(none, middle, none);
    assert(none + middle + none == middle);
    (a, b)
}

proof fn lemma_front_parts(s: Seq<char>) -> (r: (Seq<char>, Seq<char>))
    ensures
        s == r.0 + r.1,
        all_white(r.0),
        r.1.len() > 0 ==> !is_white(r.1[0]),
    decreases s.len(),
{
    let none = Seq::<char>::empty();
    if s.len() > 0 && is_white(s[0]) {
        let (a, rest) = lemma_front_parts(s.skip(1));
        let front = seq![s[0]] + a;
        assert(s == seq![s[0]] + s.skip(1));
        assert(s == front + rest);
        (front, rest)
    } else {
        assert(s == none + s);
        (none, s)
    }
}

proof fn lemma_back_parts(s: Seq<char>) -> (r: (Seq<char>, Seq<char>))
    ensures
        s == r.0 + r.1,
        all_white(r.1),
        r.0.len() > 0 ==> !is_white(r.0.last()),
    decreases s.len(),
{
    let none = Seq::<char>::empty();
    if s.len() > 0 && is_white(s.last()) {
        let (rest, b) = lemma_back_parts(s.drop_last());
        let back = b.push(s.last());
        assert(s == s.drop_last().push(s.last()));
        assert(s == rest + back);
        (rest, back)
    } else {
        assert(s == s + none);
        (s, none)
    }
}

// ---------------------------------------------------------------------------
// Searching
// ---------------------------------------------------------------------------

/// A text that is put together of three is found to hold each of them where it stands.
pub proof fn law_parts_are_found(a: Seq<char>, p: Seq<char>, b: Seq<char>)
    ensures
        contains_text(a + p + b, p),
        begins_with(a + p + b, a),
        ends_in(a + p + b, b),
        find_spec(a + p + b, p) is Some,
        0 <= find_spec(a + p + b, p)->0 <= a.len(),
{
    let s = a + p + b;
    assert(s.subrange(a.len() as int, (a.len() + p.len()) as int) =~= p);
    assert(occurs_at(s, p, a.len() as int));
    assert(s.subrange(0, a.len() as int) =~= a);
    assert(s.subrange(s.len() - b.len(), s.len() as int) =~= b);
    lemma_find(s, p);
}

/// What is found stands there: the text falls into what is before it, it, and what is
/// after it.
pub proof fn law_found_text_stands_there(s: Seq<char>, p: Seq<char>)
    ensures
        begins_with(s, p) ==> s == p + s.skip(p.len() as int),
        ends_in(s, p) ==> s == s.take(s.len() - p.len()) + p,
        find_spec(s, p) matches Some(i) ==> 0 <= i && i + p.len() <= s.len() && s == s.take(i) + p
            + s.skip(i + p.len()),
        contains_text(s, p) == (find_spec(s, p) is Some),
{
    lemma_find(s, p);
    if begins_with(s, p) {
        assert(s =~= s.subrange(0, p.len() as int) + s.skip(p.len() as int));
    }
    if ends_in(s, p) {
        assert(s =~= s.take(s.len() - p.len()) + s.subrange(s.len() - p.len(), s.len() as int));
    }
    if let Some(i) = find_spec(s, p) {
        assert(s =~= s.take(i) + s.subrange(i, i + p.len()) + s.skip(i + p.len()));
    }
}

/// The index of a character is that of its first occurrence.
pub proof fn law_index_is_the_first(a: Seq<char>, x: char, b: Seq<char>)
    requires
        !a.contains(x),
    ensures
        index_spec(a.push(x) + b, x) == Some(a.len() as int),
        index_spec(a, x) is None,
{
    let s = a.push(x) + b;
    assert(s[a.len() as int] == x);
    assert forall|j: int| 0 <= j < a.len() implies s[j] != x by {
        assert(a.contains(a[j]));
    }
    crate::text::lemma_index_is(s, x, a.len() as int);
    lemma_index(a, x);
    if let Some(i) = index_spec(a, x) {
        assert(a.contains(a[i]));
    }
}

// ---------------------------------------------------------------------------
// Numbers
// ---------------------------------------------------------------------------

/// The number that decimal digits stand for.
pub open spec fn number_of(digits: Seq<char>) -> int
    decreases digits.len(),
{
    if digits.len() == 0 {
        0
    } else {
        number_of(digits.drop_last()) * 10 + (digits.last() as u32 - 48)
    }
}

/// The decimal digits of a number are digits, they stand for the number, and the first is
/// no zero unless it is the only one.
pub proof fn law_decimal_digits(n: nat)
    ensures
        number_of(decimal(n)) == n,
        decimal(n).len() > 0,
        forall|i: int| 0 <= i < decimal(n).len() ==> 48 <= #[trigger] decimal(n)[i] as u32 <= 57,
        decimal(n).len() > 1 ==> decimal(n)[0] != '0',
    decreases n,
{
    let d = decimal(n);
    if n < 10 {
        assert(d.drop_last() =~= Seq::<char>::empty());
        assert(number_of(d.drop_last()) == 0);
    } else {
        let less = decimal(n / 10);
        law_decimal_digits(n / 10);
        assert(d.drop_last() =~= less);
        assert(d[0] == less[0]);
        if less.len() == 1 {
            assert(less.drop_last() =~= Seq::<char>::empty());
            assert(number_of(less.drop_last()) == 0);
        }
    }
}

} // verus!
