//! How single lines of `config.toml` and of an environment file are read, told by the parts
//! that a line is put together of.

use vstd::prelude::*;
use crate::config_file::{
    assigns, header_of, is_ours, leading_word, section_name, unquoted, value_of,
};
use crate::env_file::{decoded, line_key, line_value, unexported};
use crate::lines::newline_of;
use crate::text::{
    begins_with, contains_text, index_spec, is_white, lemma_index, occurs_at, trimmed, trimmed_of,
    trimmed_start,
};
use crate::text_laws::{
    all_white, law_index_is_the_first, law_parts_are_found, law_trimmed_text_stands_in_the_text,
    law_trimming_a_character, law_trimming_takes_white_space, law_trimming_the_start,
};

verus! {

/// A text of one character.
pub open spec fn one(c: char) -> Seq<char> {
    seq![c]
}

proof fn lemma_trim_keeps(a: Seq<char>, x: Seq<char>, y: Seq<char>) -> (r: (Seq<char>, Seq<char>))
    requires
        all_white(a),
        x.len() > 0,
        !is_white(x[0]),
        !is_white(x.last()),
    ensures
        trimmed(a + x + y) == x + r.0,
        y == r.0 + r.1,
        all_white(r.1),
{
    let (front, back) = law_trimmed_text_stands_in_the_text(y);
    let t = trimmed(y);
    let none = Seq::<char>::empty();
    if t.len() == 0 {
        assert forall|i: int| 0 <= i < y.len() implies is_white(#[trigger] y[i]) by {
            if i < front.len() {
                assert(y[i] == front[i]);
            } else {
                assert(y[i] == back[i - front.len()]);
            }
        }
        law_trimming_takes_white_space(a, x, y);
        assert(x + none == x);
        assert(none + y == y);
        (none, y)
    } else {
        let kept = front + t;
        assert(a + x + y == a + (x + kept) + back);
        assert((x + kept)[0] == x[0]);
        assert((x + kept).last() == t.last());
        law_trimming_takes_white_space(a, x + kept, back);
        (kept, back)
    }
}

proof fn lemma_white_is_not(s: Seq<char>, c: char)
    requires
        all_white(s),
        !is_white(c),
    ensures
        !s.contains(c),
{
    if s.contains(c) {
        let i = choose|i: int| 0 <= i < s.len() && s[i] == c;
        assert(is_white(s[i]));
    }
}

proof fn lemma_not_in_three(a: Seq<char>, b: Seq<char>, c: Seq<char>, x: char)
    requires
        !a.contains(x),
        !b.contains(x),
        !c.contains(x),
    ensures
        !(a + b + c).contains(x),
{
    let all = a + b + c;
    if all.contains(x) {
        let i = choose|i: int| 0 <= i < all.len() && all[i] == x;
        if i < a.len() {
            assert(a[i] == x);
        } else if i < a.len() + b.len() {
            assert(b[i - a.len()] == x);
        } else {
            assert(c[i - a.len() - b.len()] == x);
        }
    }
}

// ---------------------------------------------------------------------------
// Section headers
// ---------------------------------------------------------------------------

/// A name in square brackets is a section header, whatever white space stands around the
/// brackets and the name, and whatever follows.
pub proof fn law_header_lines_name_their_section(
    a: Seq<char>,
    b: Seq<char>,
    name: Seq<char>,
    c: Seq<char>,
    rest: Seq<char>,
)
    requires
        all_white(a),
        all_white(b),
        all_white(c),
        name.len() > 0,
        !is_white(name[0]),
        !is_white(name.last()),
        !name.contains(']'),
    ensures
        header_of(a + (one('[') + (b + name + c) + one(']')) + rest) == Some(name),
{
    let inner = b + name + c;
    let x = one('[') + inner + one(']');
    assert(x[0] == '[');
    assert(x.last() == ']');
    let (r, w) = lemma_trim_keeps(a, x, rest);
    let t = x + r;
    assert(t[0] == '[');
    assert(t.skip(1) =~= inner.push(']') + r);
    lemma_white_is_not(b, ']');
    lemma_white_is_not(c, ']');
    lemma_not_in_three(b, name, c, ']');
    law_index_is_the_first(inner, ']', r);
    assert(t.skip(1).take(inner.len() as int) =~= inner);
    law_trimming_takes_white_space(b, name, c);
}

/// A line is no section header where it is blank, where it begins otherwise than with a
/// bracket, where the bracket does not close, and where there is no name in the brackets.
pub proof fn law_other_lines_are_no_headers(a: Seq<char>, x: char, rest: Seq<char>, b: Seq<char>)
    requires
        all_white(a),
        all_white(b),
        !is_white(x),
    ensures
        header_of(a) is None,
        x != '[' ==> header_of(a + one(x) + rest) is None,
        !rest.contains(']') ==> header_of(a + one('[') + rest) is None,
        header_of(a + (one('[') + b + one(']')) + rest) is None,
{
    let none = Seq::<char>::empty();
    law_trimming_takes_white_space(a, none, none);
    assert(a + none + none == a);
    if x != '[' {
        let (r, w) = lemma_trim_keeps(a, one(x), rest);
        assert((one(x) + r)[0] == x);
    }
    if !rest.contains(']') {
        let (r, w) = lemma_trim_keeps(a, one('['), rest);
        let t = one('[') + r;
        assert(t.skip(1) =~= r);
        lemma_index(r, ']');
        if index_spec(r, ']') is Some {
            let i = index_spec(r, ']')->0;
            assert(rest[i] == r[i]);
        }
    }
    let brackets = one('[') + b + one(']');
    assert(brackets[0] == '[');
    assert(brackets.last() == ']');
    let (r, w) = lemma_trim_keeps(a, brackets, rest);
    let t = brackets + r;
    assert(t[0] == '[');
    assert(t.skip(1) =~= b.push(']') + r);
    lemma_white_is_not(b, ']');
    law_index_is_the_first(b, ']', r);
    assert(t.skip(1).take(b.len() as int) =~= b);
    law_trimming_takes_white_space(b, none, none);
    assert(b + none + none == b);
}

/// The provider's sections are `model_providers.yxrobot` and what is below it; a section
/// whose name only begins like that is not among them.
pub proof fn law_sections_of_the_provider(rest: Seq<char>, c: char, name: Seq<char>)
    ensures
        is_ours("model_providers.yxrobot"@),
        is_ours("model_providers.yxrobot."@ + rest),
        c != '.' ==> !is_ours("model_providers.yxrobot"@ + one(c) + rest),
        name.len() < 23 ==> !is_ours(name),
        is_ours(name) ==> begins_with(name, "model_providers.yxrobot"@),
{
    reveal_strlit("model_providers.yxrobot");
    reveal_strlit("model_providers.yxrobot.");
    reveal_strlit("model_providers.");
    reveal_strlit("yxrobot");
    reveal_strlit(".");
    let own = section_name();
    assert(own =~= "model_providers.yxrobot"@);
    let below = own + "."@;
    assert(below =~= "model_providers.yxrobot."@);
    assert((below + rest).subrange(0, below.len() as int) =~= below);
    let other = own + one(c) + rest;
    if c != '.' {
        assert(other[23] == c);
        assert(other.len() != own.len());
        if begins_with(other, below) {
            assert(other.subrange(0, 24)[23] == below[23]);
        }
    }
    if begins_with(name, below) {
        assert(name.subrange(0, 23) =~= name.subrange(0, 24).subrange(0, 23));
        assert(below.subrange(0, 23) =~= own);
    }
    if name == own {
        assert(name.subrange(0, 23) =~= own);
    }
}

// ---------------------------------------------------------------------------
// Assignments
// ---------------------------------------------------------------------------

/// A line assigns to a key where the key stands first and an equals sign is next, with white
/// space allowed before both.
pub proof fn law_assignment_lines_are_told(
    a: Seq<char>,
    key: Seq<char>,
    b: Seq<char>,
    rest: Seq<char>,
)
    requires
        all_white(a),
        all_white(b),
        key.len() > 0,
        !is_white(key[0]),
        key[0] != '#',
    ensures
        assigns(a + (key + (b + (one('=') + rest))), key),
{
    let tail = one('=') + rest;
    let t = key + (b + tail);
    assert(t[0] == key[0]);
    law_trimming_the_start(a, t);
    assert(t.subrange(0, key.len() as int) =~= key);
    assert(t.skip(key.len() as int) =~= b + tail);
    assert(tail[0] == '=');
    law_trimming_the_start(b, tail);
}

/// A comment assigns to nothing, a line on which another word stands assigns not to the key,
/// even if that word begins with it, and a line without an equals sign assigns to nothing.
pub proof fn law_other_lines_do_not_assign(
    a: Seq<char>,
    key: Seq<char>,
    c: char,
    rest: Seq<char>,
    line: Seq<char>,
)
    requires
        all_white(a),
        key.len() > 0,
        !is_white(key[0]),
        !is_white(c),
        c != '=',
    ensures
        !assigns(a + (one('#') + rest), key),
        !assigns(a + (key + (one(c) + rest)), key),
        assigns(line, key) ==> line.contains('='),
{
    let comment = one('#') + rest;
    assert(comment[0] == '#');
    law_trimming_the_start(a, comment);
    let tail = one(c) + rest;
    let t = key + tail;
    assert(t[0] == key[0]);
    law_trimming_the_start(a, t);
    assert(t.skip(key.len() as int) =~= tail);
    assert(tail[0] == c);
    let none = Seq::<char>::empty();
    law_trimming_the_start(none, tail);
    assert(none + tail == tail);
    if assigns(line, key) {
        let u = trimmed_start(line);
        let v = trimmed_start(u.skip(key.len() as int));
        let n = lemma_start_is_suffix(line);
        let m = lemma_start_is_suffix(u.skip(key.len() as int));
        assert(v[0] == '=');
        assert(line[n + key.len() + m] == '=');
    }
}

proof fn lemma_start_is_suffix(s: Seq<char>) -> (n: int)
    ensures
        0 <= n <= s.len(),
        trimmed_start(s) == s.skip(n),
    decreases s.len(),
{
    if s.len() > 0 && is_white(s[0]) {
        let n = lemma_start_is_suffix(s.skip(1));
        assert(trimmed_start(s) == trimmed_start(s.skip(1)));
        assert(s.skip(1).skip(n) =~= s.skip(n + 1));
        n + 1
    } else {
        assert(s.skip(0) =~= s);
        0
    }
}

/// A text as it is written in double quotes: with a backslash before each quote and each
/// backslash.
pub open spec fn escaped(v: Seq<char>) -> Seq<char>
    decreases v.len(),
{
    if v.len() == 0 {
        v
    } else if v[0] == '"' || v[0] == '\\' {
        seq!['\\', v[0]] + escaped(v.skip(1))
    } else {
        one(v[0]) + escaped(v.skip(1))
    }
}

proof fn lemma_escaped_reads_back(v: Seq<char>, rest: Seq<char>)
    ensures
        unquoted(escaped(v) + (one('"') + rest)) == Some(v),
    decreases v.len(),
{
    let tail = one('"') + rest;
    let s = escaped(v) + tail;
    if v.len() == 0 {
        assert(s =~= tail);
        assert(s[0] == '"');
    } else {
        lemma_escaped_reads_back(v.skip(1), rest);
        let less = escaped(v.skip(1)) + tail;
        assert(one(v[0]) + v.skip(1) =~= v);
        if v[0] == '"' || v[0] == '\\' {
            assert(s[0] == '\\');
            assert(s[1] == v[0]);
            assert(s.skip(2) =~= less);
        } else {
            assert(s[0] == v[0]);
            assert(s.skip(1) =~= less);
        }
    }
}

proof fn lemma_never_closed(s: Seq<char>)
    requires
        !s.contains('"'),
    ensures
        unquoted(s) is None,
    decreases s.len(),
{
    if s.len() > 0 {
        assert(s.contains(s[0]));
        if s[0] == '\\' {
            if s.len() > 1 {
                lemma_not_in_skip(s, 2, '"');
                lemma_never_closed(s.skip(2));
            }
        } else {
            lemma_not_in_skip(s, 1, '"');
            lemma_never_closed(s.skip(1));
        }
    }
}

proof fn lemma_not_in_skip(s: Seq<char>, n: int, x: char)
    requires
        !s.contains(x),
        0 <= n <= s.len(),
    ensures
        !s.skip(n).contains(x),
{
    if s.skip(n).contains(x) {
        let i = choose|i: int| 0 <= i < s.skip(n).len() && s.skip(n)[i] == x;
        assert(s[n + i] == x);
    }
}

/// What stands after the equals sign, once the white space round it is gone.
proof fn lemma_raw_value(a: Seq<char>, front: Seq<char>, b: Seq<char>, q: Seq<char>, rest: Seq<char>)
    -> (r: Seq<char>)
    requires
        all_white(a),
        all_white(b),
        !front.contains('='),
        front.len() > 0 ==> !is_white(front[0]),
        q.len() > 0,
        !is_white(q[0]),
        !is_white(q.last()),
    ensures
        ({
            let t = trimmed(a + front.push('=') + (b + q + rest));
            &&& index_spec(t, '=') == Some(front.len() as int)
            &&& trimmed(t.skip(front.len() as int + 1)) == q + r
        }),
        r.len() <= rest.len(),
        r == rest.take(r.len() as int),
        forall|i: int| r.len() <= i < rest.len() ==> is_white(#[trigger] rest[i]),
{
    let x = front.push('=');
    let y = b + q + rest;
    assert(x.last() == '=');
    assert(x[0] == if front.len() > 0 {
        front[0]
    } else {
        '='
    });
    let (kept, w) = lemma_trim_keeps(a, x, y);
    let t = x + kept;
    law_index_is_the_first(front, '=', kept);
    assert(t.skip(front.len() as int + 1) =~= kept);
    let k = b.len() + q.len() - 1;
    assert(y[k] == q.last());
    assert(kept.len() > k) by {
        if kept.len() <= k {
            assert(w[k - kept.len()] == y[k]);
            assert(is_white(w[k - kept.len()]));
        }
    }
    let more = kept.skip(k + 1);
    assert(kept =~= b + q + more) by {
        assert forall|i: int| 0 <= i < kept.len() implies kept[i] == (b + q + more)[i] by {
            assert(kept[i] == y[i]);
        }
    }
    let (r, v) = lemma_trim_keeps(b, q, more);
    assert forall|i: int| r.len() <= i < rest.len() implies is_white(#[trigger] rest[i]) by {
        assert(rest[i] == y[k + 1 + i]);
        if i < more.len() {
            assert(rest[i] == kept[k + 1 + i]);
            assert(more[i] == v[i - r.len()]);
        } else {
            assert(y[k + 1 + i] == w[k + 1 + i - kept.len()]);
        }
    }
    assert(r =~= rest.take(r.len() as int)) by {
        assert forall|i: int| 0 <= i < r.len() implies r[i] == rest.take(r.len() as int)[i] by {
            assert(r[i] == more[i]);
            assert(more[i] == kept[k + 1 + i]);
            assert(kept[k + 1 + i] == y[k + 1 + i]);
        }
    }
    r
}

/// A value in double quotes is read with its escapes, one in single quotes as it stands;
/// whatever follows the closing quote is no part of it.
pub proof fn law_quoted_values_are_read(
    a: Seq<char>,
    front: Seq<char>,
    b: Seq<char>,
    v: Seq<char>,
    rest: Seq<char>,
)
    requires
        all_white(a),
        all_white(b),
        !front.contains('='),
        front.len() > 0 ==> !is_white(front[0]),
    ensures
        value_of(a + front.push('=') + (b + (one('"') + escaped(v) + one('"')) + rest)) == Some(v),
        !v.contains('\'') ==> value_of(
            a + front.push('=') + (b + (one('\'') + v + one('\'')) + rest),
        ) == Some(v),
{
    let q = one('"') + escaped(v) + one('"');
    assert(q[0] == '"');
    assert(q.last() == '"');
    let r = lemma_raw_value(a, front, b, q, rest);
    assert((q + r)[0] == '"');
    assert((q + r).skip(1) =~= escaped(v) + (one('"') + r));
    lemma_escaped_reads_back(v, r);
    if !v.contains('\'') {
        let p = one('\'') + v + one('\'');
        assert(p[0] == '\'');
        assert(p.last() == '\'');
        let r = lemma_raw_value(a, front, b, p, rest);
        assert((p + r)[0] == '\'');
        assert((p + r).skip(1) =~= v.push('\'') + r);
        law_index_is_the_first(v, '\'', r);
        assert((p + r).skip(1).take(v.len() as int) =~= v);
    }
}

/// A bare value is one word.
pub proof fn law_bare_values_are_read(
    a: Seq<char>,
    front: Seq<char>,
    b: Seq<char>,
    word: Seq<char>,
    rest: Seq<char>,
)
    requires
        all_white(a),
        all_white(b),
        !front.contains('='),
        front.len() > 0 ==> !is_white(front[0]),
        word.len() > 0,
        forall|i: int| 0 <= i < word.len() ==> !is_white(#[trigger] word[i]),
        word[0] != '"',
        word[0] != '\'',
        rest.len() > 0 ==> is_white(rest[0]),
    ensures
        value_of(a + front.push('=') + (b + word + rest)) == Some(word),
{
    let r = lemma_raw_value(a, front, b, word, rest);
    assert((word + r)[0] == word[0]);
    lemma_leading_word(word, r);
}

proof fn lemma_leading_word(word: Seq<char>, rest: Seq<char>)
    requires
        forall|i: int| 0 <= i < word.len() ==> !is_white(#[trigger] word[i]),
        rest.len() > 0 ==> is_white(rest[0]),
    ensures
        leading_word(word + rest) == word,
    decreases word.len(),
{
    let s = word + rest;
    if word.len() == 0 {
        assert(s =~= rest);
        assert(word =~= Seq::<char>::empty());
    } else {
        assert(s[0] == word[0]);
        assert(s.skip(1) =~= word.skip(1) + rest);
        lemma_leading_word(word.skip(1), rest);
        assert(one(word[0]) + word.skip(1) =~= word);
    }
}

/// A line without an equals sign has no value, nor has one whose quote does not close.
pub proof fn law_lines_without_a_value(
    line: Seq<char>,
    a: Seq<char>,
    front: Seq<char>,
    b: Seq<char>,
    rest: Seq<char>,
)
    requires
        all_white(a),
        all_white(b),
        !front.contains('='),
        front.len() > 0 ==> !is_white(front[0]),
    ensures
        !line.contains('=') ==> value_of(line) is None,
        !rest.contains('"') ==> value_of(a + front.push('=') + (b + one('"') + rest)) is None,
        !rest.contains('\'') ==> value_of(a + front.push('=') + (b + one('\'') + rest)) is None,
{
    if !line.contains('=') {
        let t = trimmed(line);
        let (f, g) = law_trimmed_text_stands_in_the_text(line);
        lemma_index(t, '=');
        if index_spec(t, '=') is Some {
            let i = index_spec(t, '=')->0;
            assert(line[f.len() + i] == '=');
        }
    }
    if !rest.contains('"') {
        let q = one('"');
        let r = lemma_raw_value(a, front, b, q, rest);
        assert((q + r)[0] == '"');
        assert((q + r).skip(1) =~= r);
        if r.contains('"') {
            let i = choose|i: int| 0 <= i < r.len() && r[i] == '"';
            assert(rest[i] == '"');
        }
        lemma_never_closed(r);
    }
    if !rest.contains('\'') {
        let q = one('\'');
        let r = lemma_raw_value(a, front, b, q, rest);
        assert((q + r)[0] == '\'');
        assert((q + r).skip(1) =~= r);
        lemma_index(r, '\'');
        if index_spec(r, '\'') is Some {
            let i = index_spec(r, '\'')->0;
            assert(rest[i] == '\'');
        }
    }
}

// ---------------------------------------------------------------------------
// Lines of an environment file
// ---------------------------------------------------------------------------

/// A name that a variable can have: not empty, without white space and without an equals sign,
/// and nothing that would make it a comment.
pub open spec fn is_variable(key: Seq<char>) -> bool {
    &&& key.len() > 0
    &&& forall|i: int| 0 <= i < key.len() ==> !is_white(#[trigger] key[i]) && key[i] != '='
    &&& key[0] != '#'
}

/// A line assigns to the name before its first equals sign, with or without the word `export`
/// before it, whatever white space stands around.
pub proof fn law_variable_lines_name_their_variable(
    a: Seq<char>,
    w: Seq<char>,
    key: Seq<char>,
    b: Seq<char>,
    rest: Seq<char>,
)
    requires
        all_white(a),
        all_white(w),
        all_white(b),
        is_variable(key),
    ensures
        key != "export"@ ==> line_key(a + (key + b).push('=') + rest) == Some(key),
        line_key(a + ("export "@ + w + (key + b).push('=')) + rest) == Some(key),
{
    reveal_strlit("export ");
    reveal_strlit("export");
    let name = key + b;
    let x = name.push('=');
    assert(x[0] == key[0]);
    assert(x.last() == '=');
    assert(!name.contains('=')) by {
        lemma_white_is_not(b, '=');
        if name.contains('=') {
            let i = choose|i: int| 0 <= i < name.len() && name[i] == '=';
            if i < key.len() {
                assert(key[i] == '=');
            } else {
                assert(b[i - key.len()] == '=');
            }
        }
    }
    let none = Seq::<char>::empty();
    law_trimming_takes_white_space(none, key, b);
    assert(none + key + b =~= name);
    if key != "export"@ {
        let (r, v) = lemma_trim_keeps(a, x, rest);
        let t = x + r;
        assert(t[0] == key[0]);
        assert(!begins_with(t, "export "@)) by {
            if begins_with(t, "export "@) {
                let e = t.subrange(0, 7);
                assert(e == "export "@);
                assert forall|i: int| 0 <= i < 7 implies t[i] == "export "@[i] by {
                    assert(e[i] == t[i]);
                }
                if key.len() >= 7 {
                    assert(t[6] == key[6]);
                    assert(is_white(' '));
                } else if key.len() < 6 {
                    let n = key.len() as int;
                    assert(t[n] == "export "@[n]);
                    if b.len() > 0 {
                        assert(t[n] == b[0]);
                        assert(is_white(b[0]));
                    } else {
                        assert(t[n] == '=');
                    }
                    assert(!is_white("export "@[n]));
                } else {
                    assert(key =~= "export"@) by {
                        assert forall|i: int| 0 <= i < 6 implies key[i] == "export"@[i] by {
                            assert(t[i] == key[i]);
                        }
                    }
                }
            }
        }
        law_trimming_the_start(none, t);
        assert(none + t =~= t);
        law_index_is_the_first(name, '=', r);
        assert(t.take(name.len() as int) =~= name);
    }
    let y = "export "@ + w + x;
    assert(y[0] == 'e');
    assert(y.last() == '=');
    let (r, v) = lemma_trim_keeps(a, y, rest);
    let t = y + r;
    assert(t[0] == 'e');
    assert(t.subrange(0, 7) =~= "export "@);
    let u = x + r;
    assert(t.skip(7) =~= w + u);
    assert(u[0] == key[0]);
    law_trimming_the_start(w, u);
    law_index_is_the_first(name, '=', r);
    assert(u.take(name.len() as int) =~= name);
}

/// Blank lines, comments and lines without an equals sign assign to nothing.
pub proof fn law_other_lines_name_no_variable(a: Seq<char>, rest: Seq<char>, line: Seq<char>)
    requires
        all_white(a),
    ensures
        line_key(a) is None,
        line_key(a + one('#') + rest) is None,
        !line.contains('=') ==> line_key(line) is None,
        !line.contains('=') ==> line_value(line) is None,
{
    let none = Seq::<char>::empty();
    law_trimming_takes_white_space(a, none, none);
    assert(a + none + none =~= a);
    let (r, v) = lemma_trim_keeps(a, one('#'), rest);
    assert((one('#') + r)[0] == '#');
    if !line.contains('=') {
        reveal_strlit("export ");
        let t = trimmed(line);
        let (f, g) = law_trimmed_text_stands_in_the_text(line);
        assert(!t.contains('=')) by {
            if t.contains('=') {
                let i = choose|i: int| 0 <= i < t.len() && t[i] == '=';
                assert(line[f.len() + i] == '=');
            }
        }
        let u = unexported(t);
        assert(!u.contains('=')) by {
            if begins_with(t, "export "@) {
                lemma_not_in_skip(t, 7, '=');
            }
        }
        let n = lemma_start_is_suffix(u);
        lemma_not_in_skip(u, n, '=');
        lemma_index(trimmed_start(u), '=');
        lemma_index(line, '=');
    }
}

/// A text that neither begins nor ends with white space or a quote.
pub open spec fn is_bare(v: Seq<char>) -> bool {
    v.len() > 0 ==> {
        &&& !is_white(v[0]) && v[0] != '"' && v[0] != '\''
        &&& !is_white(v.last()) && v.last() != '"' && v.last() != '\''
    }
}

/// A value is read without the white space around it, without the word `export` before it,
/// and without the quotes around it, of either kind.
pub proof fn law_variable_values_are_read(
    front: Seq<char>,
    a: Seq<char>,
    v: Seq<char>,
    b: Seq<char>,
)
    requires
        !front.contains('='),
        all_white(a),
        all_white(b),
        is_bare(v),
        v.len() > 0,
    ensures
        !begins_with(v, "export "@) ==> line_value(front.push('=') + (a + v + b)) == Some(v),
        line_value(front.push('=') + (a + (one('"') + v + one('"')) + b)) == Some(v),
        line_value(front.push('=') + (a + (one('\'') + v + one('\'')) + b)) == Some(v),
        line_value(front.push('=') + (a + ("export "@ + v) + b)) == Some(v),
        line_value(front.push('=') + (a + b)) is None,
{
    reveal_strlit("export ");
    let none = Seq::<char>::empty();
    if !begins_with(v, "export "@) {
        law_trimming_takes_white_space(a, v, b);
        lemma_bare_stays(v);
        lemma_value_after(front, a + v + b);
    }
    let q = one('"') + v + one('"');
    assert(q[0] == '"' && q.last() == '"');
    law_trimming_takes_white_space(a, q, b);
    lemma_quoted_is_plain(q);
    law_trimming_a_character('"', one('"'), v, one('"'));
    law_trimming_a_character('\'', none, v, none);
    assert(none + v + none =~= v);
    lemma_value_after(front, a + q + b);
    let p = one('\'') + v + one('\'');
    assert(p[0] == '\'' && p.last() == '\'');
    law_trimming_takes_white_space(a, p, b);
    lemma_quoted_is_plain(p);
    law_trimming_a_character('"', none, p, none);
    assert(none + p + none =~= p);
    law_trimming_a_character('\'', one('\''), v, one('\''));
    lemma_value_after(front, a + p + b);
    let e = "export "@ + v;
    assert(e[0] == 'e');
    assert(e.last() == v.last());
    law_trimming_takes_white_space(a, e, b);
    assert(e.subrange(0, 7) =~= "export "@);
    assert(e.skip(7) =~= v);
    lemma_bare_stays(v);
    lemma_value_after(front, a + e + b);
    law_trimming_takes_white_space(a, none, b);
    assert(a + none + b =~= a + b);
    law_trimming_takes_white_space(none, none, none);
    assert(none + none + none =~= none);
    law_trimming_a_character('"', none, none, none);
    law_trimming_a_character('\'', none, none, none);
    lemma_value_after(front, a + b);
}

proof fn lemma_bare_stays(v: Seq<char>)
    requires
        is_bare(v),
    ensures
        trimmed(v) == v,
        trimmed_of(v, '"') == v,
        trimmed_of(v, '\'') == v,
{
    let none = Seq::<char>::empty();
    assert(none + v + none =~= v);
    law_trimming_takes_white_space(none, v, none);
    law_trimming_a_character('"', none, v, none);
    law_trimming_a_character('\'', none, v, none);
}

proof fn lemma_quoted_is_plain(q: Seq<char>)
    requires
        q.len() > 0,
        q[0] == '"' || q[0] == '\'',
        q.last() == '"' || q.last() == '\'',
    ensures
        unexported(q) == q,
        trimmed(q) == q,
{
    reveal_strlit("export ");
    let none = Seq::<char>::empty();
    assert(none + q + none =~= q);
    law_trimming_takes_white_space(none, q, none);
    if begins_with(q, "export "@) {
        assert(q.subrange(0, 7)[0] == q[0]);
    }
}

proof fn lemma_value_after(front: Seq<char>, raw: Seq<char>)
    requires
        !front.contains('='),
    ensures
        line_value(front.push('=') + raw) == (if decoded(raw).len() == 0 {
            None
        } else {
            Some(decoded(raw))
        }),
{
    law_index_is_the_first(front, '=', raw);
    assert((front.push('=') + raw).skip(front.len() as int + 1) =~= raw);
}

// ---------------------------------------------------------------------------
// Line breaks
// ---------------------------------------------------------------------------

/// A text with one pair of carriage return and line feed in it uses that pair, a text without
/// a carriage return the line feed.
pub proof fn law_line_breaks_are_told(a: Seq<char>, b: Seq<char>, text: Seq<char>)
    ensures
        newline_of(a + seq!['\r', '\n'] + b) == seq!['\r', '\n'],
        !text.contains('\r') ==> newline_of(text) == seq!['\n'],
{
    crate::lines::lemma_newlines();
    law_parts_are_found(a, "\r\n"@, b);
    if !text.contains('\r') && contains_text(text, "\r\n"@) {
        let i = choose|i: int| occurs_at(text, "\r\n"@, i);
        assert(text.subrange(i, i + 2)[0] == '\r');
        assert(text[i] == '\r');
    }
}

} // verus!
