//! The `.env` file: reading a variable, and writing the API key into it. Other
//! lines stay as they are.

use vstd::prelude::*;
use crate::config_file::ENV_KEY;
use crate::config_laws::{every, unpadded};
use crate::lines::{
    ends_in_bare_return, join_lines, lemma_lines_no_bare_return, lemma_lines_of_text,
    lemma_lines_unbroken, lemma_newlines, lines_of, newline_of, no_bare_return, split_lines,
    text_of_lines, unbroken, views,
};
use crate::text::{
    begins_with, chars_of, contains_text, copy_of, index_of, index_spec, lemma_index,
    lemma_index_is, lemma_strip_back_keeps, lemma_strip_both, lemma_strip_nothing,
    occurs_at, only, push_all, push_str, same_str, starts_with, strip_back, strip_front, trim,
    trim_of, trim_start, trimmed, trimmed_of, trimmed_start, white,
};

verus! {

// ---------------------------------------------------------------------------
// Single lines
// ---------------------------------------------------------------------------

/// `s` without the word `export` and one space at its beginning.
pub open spec fn unexported(s: Seq<char>) -> Seq<char> {
    if begins_with(s, "export "@) {
        s.skip(7)
    } else {
        s
    }
}

/// The name that a line assigns to. Empty lines and comments have none.
pub open spec fn line_key(line: Seq<char>) -> Option<Seq<char>> {
    let t = trimmed(line);
    if t.len() == 0 || t[0] == '#' {
        None
    } else {
        let rest = trimmed_start(unexported(t));
        match index_spec(rest, '=') {
            Some(eq) => {
                let key = trimmed(rest.take(eq));
                if key.len() == 0 {
                    None
                } else {
                    Some(key)
                }
            },
            None => None,
        }
    }
}

/// A value as it stands after the equals sign, without the white space and the
/// quotes around it.
pub open spec fn decoded(raw: Seq<char>) -> Seq<char> {
    trimmed_of(trimmed_of(trimmed(unexported(trimmed(raw))), '"'), '\'')
}

/// The value that a line gives, if it is not empty.
pub open spec fn line_value(line: Seq<char>) -> Option<Seq<char>> {
    match index_spec(line, '=') {
        Some(eq) => {
            let value = decoded(line.skip(eq + 1));
            if value.len() == 0 {
                None
            } else {
                Some(value)
            }
        },
        None => None,
    }
}

/// The value of the first line that gives `key` one.
pub open spec fn first_value(lines: Seq<Seq<char>>, key: Seq<char>) -> Option<Seq<char>>
    decreases lines.len(),
{
    if lines.len() == 0 {
        None
    } else if line_key(lines[0]) == Some(key) && line_value(lines[0]) is Some {
        line_value(lines[0])
    } else {
        first_value(lines.skip(1), key)
    }
}

fn unexport(s: &[char]) -> (r: &[char])
    ensures
        r@ == unexported(s@),
{
    proof {
        reveal_strlit("export ");
    }
    if starts_with(s, "export ") {
        let r = &s[7..s.len()];
        assert(r@ == s@.skip(7));
        r
    } else {
        s
    }
}

/// The name that a line assigns to.
pub fn env_line_key(line: &[char]) -> (r: Option<Vec<char>>)
    ensures
        match r {
            Some(key) => line_key(line@) == Some(key@),
            None => line_key(line@) is None,
        },
{
    let t = trim(line);
    if t.len() == 0 || t[0] == '#' {
        return None;
    }
    let rest = trim_start(unexport(t));
    match index_of(rest, '=') {
        Some(eq) => {
            let key = trim(&rest[0..eq]);
            assert(rest@.subrange(0, eq as int) == rest@.take(eq as int));
            if key.len() == 0 {
                None
            } else {
                Some(copy_of(key))
            }
        },
        None => None,
    }
}

fn env_line_value(line: &[char]) -> (r: Option<Vec<char>>)
    ensures
        match r {
            Some(v) => line_value(line@) == Some(v@),
            None => line_value(line@) is None,
        },
{
    match index_of(line, '=') {
        Some(eq) => {
            let n: usize = line.len();
            let after = &line[eq + 1..n];
            assert(after@ == line@.skip(eq + 1));
            let value = trim_of(trim_of(trim(unexport(trim(after))), '"'), '\'');
            if value.len() == 0 {
                None
            } else {
                Some(copy_of(value))
            }
        },
        None => None,
    }
}

fn line_sets(line: &[char], key: &str) -> (r: bool)
    ensures
        r == (line_key(line@) == Some(key@)),
{
    match env_line_key(line) {
        Some(k) => same_str(k.as_slice(), key),
        None => false,
    }
}

/// The value of a variable, if it is set and not empty.
pub fn env_value(text: &[char], key: &str) -> (r: Option<Vec<char>>)
    ensures
        match r {
            Some(v) => first_value(lines_of(text@), key@) == Some(v@) && v@.len() > 0,
            None => first_value(lines_of(text@), key@) is None,
        },
{
    let (lines, _) = split_lines(text);
    let ghost all = views(lines@);
    let mut i: usize = 0;
    assert(all.skip(0) == all);
    while i < lines.len()
        invariant
            all == views(lines@),
            all == lines_of(text@),
            i <= lines@.len(),
            first_value(all.skip(i as int), key@) == first_value(all, key@),
        decreases lines@.len() - i,
    {
        let ghost here = all.skip(i as int);
        assert(here[0] == lines@[i as int]@);
        assert(here.skip(1) == all.skip(i + 1));
        let line = lines[i].as_slice();
        if line_sets(line, key) {
            match env_line_value(line) {
                Some(v) => {
                    return Some(v);
                },
                None => {},
            }
        }
        i += 1;
    }
    None
}

// ---------------------------------------------------------------------------
// Writing a variable
// ---------------------------------------------------------------------------

/// The lines that do not assign to `key`.
pub open spec fn others(lines: Seq<Seq<char>>, key: Seq<char>) -> Seq<Seq<char>>
    decreases lines.len(),
{
    if lines.len() == 0 {
        lines
    } else if line_key(lines[0]) == Some(key) {
        others(lines.skip(1), key)
    } else {
        seq![lines[0]] + others(lines.skip(1), key)
    }
}

/// The lines with `rendered` in place of the first assignment to `key`, and
/// without further ones.
pub open spec fn replaced(
    lines: Seq<Seq<char>>,
    key: Seq<char>,
    rendered: Seq<char>,
) -> Seq<Seq<char>>
    decreases lines.len(),
{
    if lines.len() == 0 {
        lines
    } else if line_key(lines[0]) == Some(key) {
        seq![rendered] + others(lines.skip(1), key)
    } else {
        seq![lines[0]] + replaced(lines.skip(1), key, rendered)
    }
}

/// Whether some line assigns to `key`.
pub open spec fn sets(lines: Seq<Seq<char>>, key: Seq<char>) -> bool {
    exists|i: int| 0 <= i < lines.len() && line_key(#[trigger] lines[i]) == Some(key)
}

/// Whether all lines are empty.
pub open spec fn all_empty(lines: Seq<Seq<char>>) -> bool {
    forall|i: int| 0 <= i < lines.len() ==> (#[trigger] lines[i]).len() == 0
}

/// The lines with `rendered` as the one assignment to `key`: where the first one
/// stood, or else at the end, after an empty line where the last one is not empty.
/// Lines that are all empty give way.
pub open spec fn with_var(
    lines: Seq<Seq<char>>,
    key: Seq<char>,
    rendered: Seq<char>,
) -> Seq<Seq<char>> {
    if sets(lines, key) {
        replaced(lines, key, rendered)
    } else if all_empty(lines) {
        seq![rendered]
    } else if lines.last().len() > 0 {
        lines.push(Seq::empty()).push(rendered)
    } else {
        lines.push(rendered)
    }
}

/// The line that holds the API key.
pub open spec fn key_line(api_key: Seq<char>) -> Seq<char> {
    ENV_KEY@ + "="@ + api_key
}

/// The file with the API key in it.
pub open spec fn merged_env(current: Seq<char>, api_key: Seq<char>) -> Seq<char> {
    text_of_lines(with_var(lines_of(current), ENV_KEY@, key_line(api_key)), newline_of(current))
}

fn set_var(lines: &Vec<Vec<char>>, key: &str, rendered: Vec<char>) -> (r: Vec<Vec<char>>)
    ensures
        views(r@) == with_var(views(lines@), key@, rendered@),
{
    let ghost all = views(lines@);
    let ghost line = rendered@;
    let mut out: Vec<Vec<char>> = Vec::new();
    let mut i: usize = 0;
    let mut blank = true;
    assert(all.skip(0) == all);
    assert(views(out@) + replaced(all, key@, line) == replaced(all, key@, line));
    assert(views(out@) == all.take(0));
    while i < lines.len() && !line_sets(lines[i].as_slice(), key)
        invariant
            all == views(lines@),
            i <= lines@.len(),
            views(out@) == all.take(i as int),
            views(out@) + replaced(all.skip(i as int), key@, line) == replaced(all, key@, line),
            forall|j: int| 0 <= j < i ==> line_key(#[trigger] all[j]) != Some(key@),
            blank == all_empty(all.take(i as int)),
        decreases lines@.len() - i,
    {
        let ghost before = views(out@);
        let ghost here = all.skip(i as int);
        assert(here[0] == lines@[i as int]@);
        out.push(copy_of(lines[i].as_slice()));
        assert(views(out@) == before.push(here[0]));
        assert(before.push(here[0]) == all.take(i + 1));
        assert(here.skip(1) == all.skip(i + 1));
        assert(before + (seq![here[0]] + replaced(here.skip(1), key@, line)) == views(out@)
            + replaced(here.skip(1), key@, line));
        proof {
            let longer = all.take(i + 1);
            assert(longer == all.take(i as int).push(all[i as int]));
            if all_empty(longer) {
                assert forall|j: int| 0 <= j < all.take(i as int).len() implies (#[trigger] all.take(
                    i as int,
                )[j]).len() == 0 by {
                    assert(longer[j] == all.take(i as int)[j]);
                }
                assert(longer[i as int].len() == 0);
            }
            if all_empty(all.take(i as int)) && all[i as int].len() == 0 {
                assert forall|j: int| 0 <= j < longer.len() implies (#[trigger] longer[j]).len()
                    == 0 by {
                    if j < i {
                        assert(longer[j] == all.take(i as int)[j]);
                    }
                }
            }
        }
        blank = blank && lines[i].len() == 0;
        i += 1;
    }
    if i == lines.len() {
        assert(all.take(i as int) == all);
        assert(!sets(all, key@));
        if blank {
            let mut single: Vec<Vec<char>> = Vec::new();
            single.push(rendered);
            assert(views(single@) == seq![line]);
            return single;
        }
        assert(all.len() > 0);
        if lines[lines.len() - 1].len() > 0 {
            let ghost before = views(out@);
            out.push(Vec::new());
            assert(views(out@) == before.push(Seq::<char>::empty()));
        }
        let ghost before = views(out@);
        out.push(rendered);
        assert(views(out@) == before.push(line));
        return out;
    }
    let ghost here = all.skip(i as int);
    assert(here[0] == lines@[i as int]@);
    assert(line_key(all[i as int]) == Some(key@));
    let ghost before = views(out@);
    out.push(rendered);
    assert(views(out@) == before.push(line));
    assert(here.skip(1) == all.skip(i + 1));
    assert(before + (seq![line] + others(here.skip(1), key@)) == views(out@) + others(
        here.skip(1),
        key@,
    ));
    i += 1;
    while i < lines.len()
        invariant
            all == views(lines@),
            i <= lines@.len(),
            views(out@) + others(all.skip(i as int), key@) == replaced(all, key@, line),
        decreases lines@.len() - i,
    {
        let ghost before = views(out@);
        let ghost here = all.skip(i as int);
        assert(here[0] == lines@[i as int]@);
        assert(here.skip(1) == all.skip(i + 1));
        if !line_sets(lines[i].as_slice(), key) {
            out.push(copy_of(lines[i].as_slice()));
            assert(views(out@) == before.push(here[0]));
            assert(before + (seq![here[0]] + others(here.skip(1), key@)) == views(out@) + others(
                here.skip(1),
                key@,
            ));
        }
        i += 1;
    }
    assert(all.skip(i as int) == Seq::<Seq<char>>::empty());
    assert(views(out@) + Seq::<Seq<char>>::empty() == views(out@));
    out
}

/// Puts the API key into the file.
pub fn merge_env(current: &[char], api_key: &[char]) -> (r: Vec<char>)
    ensures
        r@ == merged_env(current@, api_key@),
{
    let (lines, newline) = split_lines(current);
    let mut rendered: Vec<char> = chars_of(ENV_KEY);
    push_str(&mut rendered, "=");
    push_all(&mut rendered, api_key);
    let lines = set_var(&lines, ENV_KEY, rendered);
    join_lines(&lines, newline)
}

// ---------------------------------------------------------------------------
// Laws
// ---------------------------------------------------------------------------

/// A value that reading leaves as it is.
pub open spec fn settled(value: Seq<char>) -> bool {
    value.len() > 0 && decoded(value) == value
}

/// The line that holds a key assigns to the variable, whatever the key is.
pub proof fn lemma_key_line(api_key: Seq<char>)
    ensures
        ({
            let line = key_line(api_key);
            &&& line_key(line) == Some(ENV_KEY@)
            &&& settled(api_key) ==> line_value(line) == Some(api_key)
            &&& line.len() > 0
            &&& line.last() == (if api_key.len() == 0 {
                '='
            } else {
                api_key.last()
            })
        }),
{
    reveal_strlit("YXROBOT_API_KEY");
    reveal_strlit("=");
    reveal_strlit("export ");
    let line = key_line(api_key);
    assert(line[0] == 'Y');
    assert(line[15] == '=');
    lemma_strip_back_keeps(line, white(), 15);
    let t = trimmed(line);
    assert(t == line.take(t.len() as int));
    assert(t[0] == 'Y');
    if begins_with(t, "export "@) {
        assert(t.subrange(0, 7)[0] == 'e');
    }
    assert(trimmed_start(t) == t);
    assert forall|j: int| 0 <= j < 15 implies #[trigger] line[j] != '=' by {
        assert(line[j] == ENV_KEY@[j]);
    }
    assert forall|j: int| 0 <= j < 15 implies t[j] != '=' by {
        assert(t[j] == line[j]);
    }
    lemma_index_is(t, '=', 15);
    assert(t.take(15) =~= ENV_KEY@);
    lemma_strip_nothing(ENV_KEY@, white());
    assert(trimmed(ENV_KEY@) == ENV_KEY@);
    lemma_index_is(line, '=', 15);
    assert(line.skip(16) =~= api_key);
}

proof fn lemma_first_value_replaced(
    lines: Seq<Seq<char>>,
    key: Seq<char>,
    rendered: Seq<char>,
)
    requires
        line_key(rendered) == Some(key),
        line_value(rendered) is Some,
        sets(lines, key),
    ensures
        first_value(replaced(lines, key, rendered), key) == line_value(rendered),
    decreases lines.len(),
{
    let w = replaced(lines, key, rendered);
    if line_key(lines[0]) == Some(key) {
        assert(w[0] == rendered);
    } else {
        let i = choose|i: int|
            0 <= i < lines.len() && line_key(#[trigger] lines[i]) == Some(key);
        assert(lines.skip(1)[i - 1] == lines[i]);
        lemma_first_value_replaced(lines.skip(1), key, rendered);
        assert(w[0] == lines[0]);
        assert(w.skip(1) == replaced(lines.skip(1), key, rendered));
    }
}

proof fn lemma_first_value_after(lines: Seq<Seq<char>>, tail: Seq<Seq<char>>, key: Seq<char>)
    requires
        !sets(lines, key),
    ensures
        first_value(lines + tail, key) == first_value(tail, key),
        others(lines + tail, key) == lines + others(tail, key),
    decreases lines.len(),
{
    let all = lines + tail;
    if lines.len() == 0 {
        assert(all == tail);
        assert(lines + others(tail, key) == others(tail, key));
    } else {
        assert(all[0] == lines[0]);
        assert(line_key(lines[0]) != Some(key));
        assert(all.skip(1) == lines.skip(1) + tail);
        assert forall|i: int| 0 <= i < lines.skip(1).len() implies line_key(
            #[trigger] lines.skip(1)[i],
        ) != Some(key) by {
            assert(lines.skip(1)[i] == lines[i + 1]);
        }
        lemma_first_value_after(lines.skip(1), tail, key);
    }
}

pub proof fn lemma_blank_line()
    ensures
        line_key(Seq::empty()) is None,
{
    assert(trimmed(Seq::empty()) == Seq::<char>::empty());
}

proof fn lemma_with_var(lines: Seq<Seq<char>>, key: Seq<char>, rendered: Seq<char>)
    requires
        line_key(rendered) == Some(key),
    ensures
        line_value(rendered) is Some ==> first_value(with_var(lines, key, rendered), key)
            == line_value(rendered),
        unpadded(others(with_var(lines, key, rendered), key)) == unpadded(others(lines, key)),
        with_var(lines, key, rendered).len() > 0,
{
    lemma_blank_line();
    let blank = Seq::<char>::empty();
    let none = Seq::<Seq<char>>::empty();
    let last = seq![rendered];
    assert(last.skip(1) == none);
    assert(others(none, key) == none);
    assert(others(last, key) == none);
    if sets(lines, key) {
        if line_value(rendered) is Some {
            lemma_first_value_replaced(lines, key, rendered);
        }
        lemma_others_replaced(lines, key, rendered);
    } else {
        lemma_first_value_after(lines, none, key);
        assert(lines + none == lines);
        if all_empty(lines) {
            lemma_unpadded_empty(lines);
        } else if lines.last().len() > 0 {
            let tail = seq![blank, rendered];
            assert(tail[0] == blank);
            assert(tail.skip(1) == last);
            lemma_first_value_after(lines, tail, key);
            assert(lines + tail == lines.push(Seq::empty()).push(rendered));
            assert(line_value(rendered) is Some ==> first_value(last, key) == line_value(
                rendered,
            ));
            assert(others(tail, key) == seq![blank]);
            assert(lines + seq![blank] == lines.push(blank));
            assert(lines.push(blank).drop_last() == lines);
        } else {
            lemma_first_value_after(lines, last, key);
            assert(lines + last == lines.push(rendered));
        }
    }
}

proof fn lemma_others_replaced(lines: Seq<Seq<char>>, key: Seq<char>, rendered: Seq<char>)
    requires
        line_key(rendered) == Some(key),
        sets(lines, key),
    ensures
        others(replaced(lines, key, rendered), key) == others(lines, key),
        replaced(lines, key, rendered).len() > 0,
    decreases lines.len(),
{
    let w = replaced(lines, key, rendered);
    if line_key(lines[0]) == Some(key) {
        assert(w[0] == rendered);
        assert(w.skip(1) == others(lines.skip(1), key));
        lemma_others_twice(lines.skip(1), key);
    } else {
        let i = choose|i: int|
            0 <= i < lines.len() && line_key(#[trigger] lines[i]) == Some(key);
        assert(lines.skip(1)[i - 1] == lines[i]);
        lemma_others_replaced(lines.skip(1), key, rendered);
        assert(w[0] == lines[0]);
        assert(w.skip(1) == replaced(lines.skip(1), key, rendered));
    }
}

proof fn lemma_others_twice(lines: Seq<Seq<char>>, key: Seq<char>)
    ensures
        others(others(lines, key), key) == others(lines, key),
    decreases lines.len(),
{
    if lines.len() > 0 {
        lemma_others_twice(lines.skip(1), key);
        let w = others(lines, key);
        if line_key(lines[0]) != Some(key) {
            assert(w[0] == lines[0]);
            assert(w.skip(1) == others(lines.skip(1), key));
        }
    }
}

proof fn lemma_unpadded_empty(lines: Seq<Seq<char>>)
    requires
        all_empty(lines),
    ensures
        unpadded(lines) == Seq::<Seq<char>>::empty(),
    decreases lines.len(),
{
    if lines.len() > 0 {
        assert(lines.last().len() == 0);
        let less = lines.drop_last();
        assert forall|i: int| 0 <= i < less.len() implies (#[trigger] less[i]).len() == 0 by {
            assert(less[i] == lines[i]);
        }
        lemma_unpadded_empty(less);
    }
}

proof fn lemma_others_blank(lines: Seq<Seq<char>>, key: Seq<char>)
    ensures
        others(lines.push(Seq::empty()), key) == others(lines, key).push(Seq::empty()),
        first_value(lines.push(Seq::empty()), key) == first_value(lines, key),
    decreases lines.len(),
{
    lemma_blank_line();
    let longer = lines.push(Seq::<char>::empty());
    if lines.len() == 0 {
        assert(longer.skip(1) == lines);
        assert(longer[0] == Seq::<char>::empty());
        assert(others(lines, key) == lines);
        assert(others(longer, key) == seq![Seq::<char>::empty()] + lines);
        assert(seq![Seq::<char>::empty()] + lines == lines.push(Seq::empty()));
    } else {
        assert(longer[0] == lines[0]);
        assert(longer.skip(1) == lines.skip(1).push(Seq::empty()));
        lemma_others_blank(lines.skip(1), key);
        let rest = others(lines.skip(1), key);
        assert(seq![lines[0]] + rest.push(Seq::empty()) == (seq![lines[0]] + rest).push(
            Seq::empty(),
        ));
    }
}

proof fn lemma_every_others(
    lines: Seq<Seq<char>>,
    key: Seq<char>,
    rendered: Seq<char>,
    p: spec_fn(Seq<char>) -> bool,
)
    requires
        every(lines, p),
        p(rendered),
    ensures
        every(others(lines, key), p),
        every(replaced(lines, key, rendered), p),
    decreases lines.len(),
{
    if lines.len() > 0 {
        assert forall|i: int| 0 <= i < lines.skip(1).len() implies p(
            #[trigger] lines.skip(1)[i],
        ) by {
            assert(lines.skip(1)[i] == lines[i + 1]);
        }
        assert(p(lines[0]));
        lemma_every_others(lines.skip(1), key, rendered, p);
    }
}

proof fn lemma_every_with_var(
    lines: Seq<Seq<char>>,
    key: Seq<char>,
    rendered: Seq<char>,
    p: spec_fn(Seq<char>) -> bool,
)
    requires
        every(lines, p),
        p(rendered),
        p(Seq::empty()),
    ensures
        every(with_var(lines, key, rendered), p),
{
    lemma_every_others(lines, key, rendered, p);
}

/// Whether the edited file keeps the line break of the file: no line of it ends with a
/// lone carriage return, which the line feed after it would make a line break of its own.
pub open spec fn env_breaks_stay(current: Seq<char>, api_key: Seq<char>) -> bool {
    newline_of(current) == "\n"@ ==> no_bare_return(
        with_var(lines_of(current), ENV_KEY@, key_line(api_key)),
    )
}

/// A file that does not end with a lone carriage return keeps its line break, unless the
/// key ends with one.
pub proof fn law_env_breaks_stay(current: Seq<char>, api_key: Seq<char>)
    requires
        !ends_in_bare_return(current),
        api_key.len() == 0 || api_key.last() != '\r',
    ensures
        env_breaks_stay(current, api_key),
{
    if newline_of(current) == "\n"@ {
        let lines = lines_of(current);
        let line = key_line(api_key);
        lemma_key_line(api_key);
        lemma_newlines();
        lemma_lines_no_bare_return(current);
        let ended = |l: Seq<char>| l.len() == 0 || l.last() != '\r';
        assert(ended(line));
        assert(every(lines, ended));
        lemma_every_with_var(lines, ENV_KEY@, line, ended);
    }
}

pub proof fn lemma_env_text(current: Seq<char>, api_key: Seq<char>)
    requires
        env_breaks_stay(current, api_key),
        !contains_text(api_key, newline_of(current)),
    ensures
        ({
            let all = with_var(lines_of(current), ENV_KEY@, key_line(api_key));
            &&& all.len() > 0
            &&& unbroken(all, newline_of(current))
            &&& all.last().len() > 0 || all.len() > 1 ==> newline_of(
                merged_env(current, api_key),
            ) == newline_of(current)
            &&& lines_of(merged_env(current, api_key)) == (if all.last().len() == 0 {
                all.drop_last()
            } else {
                all
            })
        }),
{
    let newline = newline_of(current);
    let lines = lines_of(current);
    let line = key_line(api_key);
    let all = with_var(lines, ENV_KEY@, line);
    lemma_newlines();
    lemma_lines_unbroken(current);
    lemma_key_line(api_key);
    lemma_with_var(lines, ENV_KEY@, line);
    reveal_strlit("YXROBOT_API_KEY");
    reveal_strlit("=");
    let whole = |l: Seq<char>| !contains_text(l, newline);
    assert(whole(line)) by {
        assert forall|i: int| !occurs_at(line, newline, i) by {
            if occurs_at(line, newline, i) {
                let piece = line.subrange(i, i + newline.len());
                assert(piece[0] == line[i]);
                if i < 16 {
                    assert(line[i] == (ENV_KEY@ + "="@)[i]);
                } else {
                    assert(api_key.subrange(i - 16, i - 16 + newline.len()) =~= piece);
                    assert(occurs_at(api_key, newline, i - 16));
                }
            }
        }
    }
    assert(whole(Seq::empty())) by {
        assert forall|i: int| !occurs_at(Seq::<char>::empty(), newline, i) by {}
    }
    assert(every(lines, whole));
    lemma_every_with_var(lines, ENV_KEY@, line, whole);
    assert(unbroken(all, newline));
    lemma_lines_of_text(all, newline);
}

/// The lines of the file that was written: what is read from it is what is read from the
/// lines that were put together, but for one empty line at the end.
proof fn lemma_env_lines(current: Seq<char>, api_key: Seq<char>)
    requires
        env_breaks_stay(current, api_key),
        !contains_text(api_key, newline_of(current)),
    ensures
        ({
            let all = with_var(lines_of(current), ENV_KEY@, key_line(api_key));
            let written = lines_of(merged_env(current, api_key));
            &&& first_value(written, ENV_KEY@) == first_value(all, ENV_KEY@)
            &&& unpadded(others(written, ENV_KEY@)) == unpadded(others(all, ENV_KEY@))
        }),
{
    let all = with_var(lines_of(current), ENV_KEY@, key_line(api_key));
    lemma_env_text(current, api_key);
    if all.last().len() == 0 {
        let short = all.drop_last();
        assert(all.last() =~= Seq::<char>::empty());
        assert(all == short.push(Seq::empty()));
        lemma_others_blank(short, ENV_KEY@);
        assert(others(short, ENV_KEY@).push(Seq::<char>::empty()).drop_last() == others(
            short,
            ENV_KEY@,
        ));
    }
}

/// A key that was written is read back.
pub proof fn law_env_reads_back(current: Seq<char>, api_key: Seq<char>)
    requires
        env_breaks_stay(current, api_key),
        settled(api_key),
        !contains_text(api_key, newline_of(current)),
    ensures
        first_value(lines_of(merged_env(current, api_key)), ENV_KEY@) == Some(api_key),
{
    lemma_key_line(api_key);
    lemma_with_var(lines_of(current), ENV_KEY@, key_line(api_key));
    lemma_env_lines(current, api_key);
}

/// Writing a key keeps every other line of the file and their order, whatever the key is.
/// Only empty lines at the end may come or go.
pub proof fn law_env_keeps_others(current: Seq<char>, api_key: Seq<char>)
    requires
        env_breaks_stay(current, api_key),
        !contains_text(api_key, newline_of(current)),
    ensures
        unpadded(others(lines_of(merged_env(current, api_key)), ENV_KEY@)) == unpadded(
            others(lines_of(current), ENV_KEY@),
        ),
{
    lemma_key_line(api_key);
    lemma_with_var(lines_of(current), ENV_KEY@, key_line(api_key));
    lemma_env_lines(current, api_key);
}

/// A value read from a file does not hold the file's line break.
pub proof fn lemma_value_on_one_line(lines: Seq<Seq<char>>, newline: Seq<char>, key: Seq<char>)
    requires
        unbroken(lines, newline),
    ensures
        first_value(lines, key) is Some ==> !contains_text(first_value(lines, key)->0, newline),
    decreases lines.len(),
{
    if lines.len() > 0 {
        assert(unbroken(lines.skip(1), newline)) by {
            assert forall|i: int| 0 <= i < lines.skip(1).len() implies !contains_text(
                #[trigger] lines.skip(1)[i],
                newline,
            ) by {
                assert(lines.skip(1)[i] == lines[i + 1]);
            }
        }
        lemma_value_on_one_line(lines.skip(1), newline, key);
        let line = lines[0];
        assert(!contains_text(line, newline));
        lemma_index(line, '=');
        if let Some(eq) = index_spec(line, '=') {
            let a0 = line.skip(eq + 1);
            lemma_piece(line, eq + 1, line.len() as int, newline);
            assert(a0 == line.subrange(eq + 1, line.len() as int));
            lemma_stripped_piece(a0, white(), newline);
            let a1 = trimmed(a0);
            reveal_strlit("export ");
            let a2 = unexported(a1);
            if begins_with(a1, "export "@) {
                lemma_piece(a1, 7, a1.len() as int, newline);
                assert(a2 == a1.subrange(7, a1.len() as int));
            }
            lemma_stripped_piece(a2, white(), newline);
            let a3 = trimmed(a2);
            lemma_stripped_piece(a3, only('"'), newline);
            lemma_stripped_piece(trimmed_of(a3, '"'), only('\''), newline);
        }
    }
}

proof fn lemma_piece(s: Seq<char>, a: int, b: int, newline: Seq<char>)
    requires
        0 <= a <= b <= s.len(),
        !contains_text(s, newline),
    ensures
        !contains_text(s.subrange(a, b), newline),
{
    let t = s.subrange(a, b);
    assert forall|i: int| !occurs_at(t, newline, i) by {
        if occurs_at(t, newline, i) {
            assert(s.subrange(a + i, a + i + newline.len()) =~= t.subrange(i, i + newline.len()));
            assert(occurs_at(s, newline, a + i));
        }
    }
}

proof fn lemma_stripped_piece(s: Seq<char>, p: spec_fn(char) -> bool, newline: Seq<char>)
    requires
        !contains_text(s, newline),
    ensures
        !contains_text(strip_back(strip_front(s, p), p), newline),
{
    lemma_strip_both(s, p);
    let r = strip_back(strip_front(s, p), p);
    let (a, b) = choose|a: int, b: int| 0 <= a <= b <= s.len() && r == #[trigger] s.subrange(a, b);
    lemma_piece(s, a, b, newline);
}

/// Writing back the key that a file holds keeps the key.
pub proof fn law_stored_key_stays(current: Seq<char>)
    requires
        first_value(lines_of(current), ENV_KEY@) is Some,
        settled(first_value(lines_of(current), ENV_KEY@)->0),
        env_breaks_stay(current, first_value(lines_of(current), ENV_KEY@)->0),
    ensures
        ({
            let stored = first_value(lines_of(current), ENV_KEY@);
            first_value(lines_of(merged_env(current, stored->0)), ENV_KEY@) == stored
        }),
{
    lemma_lines_unbroken(current);
    lemma_value_on_one_line(lines_of(current), newline_of(current), ENV_KEY@);
    law_env_reads_back(current, first_value(lines_of(current), ENV_KEY@)->0);
}

} // verus!
