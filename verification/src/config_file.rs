//! Editing of the user-level `config.toml`: top-level keys and the section of the
//! gateway provider. Lines that the edit is not about stay as they are.

use vstd::prelude::*;
use crate::lines::{join_lines, lines_of, newline_of, split_lines, text_of_lines, views};
use crate::text::{
    begins_with, char_is_white, chars_of, copy_of, index_of, index_spec, is_white, push_all,
    push_str, starts_with, trim, trim_start, trimmed, trimmed_start,
};

verus! {

/// The provider's id, as it stands in section headers and in `model_provider`.
pub const PROVIDER_ID: &'static str = "yxrobot";

/// The provider's name.
pub const PROVIDER_NAME: &'static str = "公司 AI 网关";

/// The variable that holds the API key.
pub const ENV_KEY: &'static str = "YXROBOT_API_KEY";

// ---------------------------------------------------------------------------
// Single lines
// ---------------------------------------------------------------------------

/// The name in a section header line, such as `a.b` in `[a.b]`.
pub open spec fn header_of(line: Seq<char>) -> Option<Seq<char>> {
    let t = trimmed(line);
    if t.len() > 0 && t[0] == '[' {
        match index_spec(t.skip(1), ']') {
            Some(end) => {
                let name = trimmed(t.skip(1).take(end));
                if name.len() == 0 {
                    None
                } else {
                    Some(name)
                }
            },
            None => None,
        }
    } else {
        None
    }
}

/// The provider's own section.
pub open spec fn section_name() -> Seq<char> {
    "model_providers."@ + PROVIDER_ID@
}

/// Whether a section is the provider's own or one below it.
pub open spec fn is_ours(name: Seq<char>) -> bool {
    name == section_name() || begins_with(name, section_name() + "."@)
}

/// Whether a line is the header of a section of the provider.
pub open spec fn opens_ours(line: Seq<char>) -> bool {
    header_of(line) is Some && is_ours(header_of(line)->0)
}

/// Whether a line assigns to `key`.
pub open spec fn assigns(line: Seq<char>, key: Seq<char>) -> bool {
    let t = trimmed_start(line);
    &&& !(t.len() > 0 && t[0] == '#')
    &&& begins_with(t, key)
    &&& ({
        let rest = trimmed_start(t.skip(key.len() as int));
        rest.len() > 0 && rest[0] == '='
    })
}

/// The text up to the closing double quote, with `\x` read as `x`. There is none
/// where the quote does not close.
pub open spec fn unquoted(s: Seq<char>) -> Option<Seq<char>>
    decreases s.len(),
{
    if s.len() == 0 {
        None
    } else if s[0] == '"' {
        Some(Seq::empty())
    } else if s[0] == '\\' {
        if s.len() == 1 {
            None
        } else {
            match unquoted(s.skip(2)) {
                Some(rest) => Some(seq![s[1]] + rest),
                None => None,
            }
        }
    } else {
        match unquoted(s.skip(1)) {
            Some(rest) => Some(seq![s[0]] + rest),
            None => None,
        }
    }
}

/// The characters before the first white space.
pub open spec fn leading_word(s: Seq<char>) -> Seq<char>
    decreases s.len(),
{
    if s.len() == 0 || is_white(s[0]) {
        Seq::empty()
    } else {
        seq![s[0]] + leading_word(s.skip(1))
    }
}

/// The value that an assignment line gives: a double-quoted text with its escapes
/// read, a single-quoted text as it stands, or a bare word.
pub open spec fn value_of(line: Seq<char>) -> Option<Seq<char>> {
    let t = trimmed(line);
    match index_spec(t, '=') {
        None => None,
        Some(eq) => {
            let raw = trimmed(t.skip(eq + 1));
            if raw.len() > 0 && raw[0] == '"' {
                unquoted(raw.skip(1))
            } else if raw.len() > 0 && raw[0] == '\'' {
                match index_spec(raw.skip(1), '\'') {
                    Some(end) => Some(raw.skip(1).take(end)),
                    None => None,
                }
            } else {
                Some(leading_word(raw))
            }
        },
    }
}

/// The name in a section header line.
pub fn header_name(line: &[char]) -> (r: Option<Vec<char>>)
    ensures
        match r {
            Some(name) => header_of(line@) == Some(name@),
            None => header_of(line@) is None,
        },
{
    let t = trim(line);
    if t.len() == 0 || t[0] != '[' {
        return None;
    }
    let rest = &t[1..t.len()];
    assert(rest@ == t@.skip(1));
    match index_of(rest, ']') {
        Some(end) => {
            let name = trim(&rest[0..end]);
            assert(rest@.subrange(0, end as int) == rest@.take(end as int));
            if name.len() == 0 {
                None
            } else {
                Some(copy_of(name))
            }
        },
        None => None,
    }
}

/// Whether a section is the provider's own or one below it.
pub fn is_our_section(name: &[char]) -> (r: bool)
    ensures
        r == is_ours(name@),
{
    let mut own: Vec<char> = Vec::new();
    push_str(&mut own, "model_providers.");
    push_str(&mut own, PROVIDER_ID);
    assert(own@ == section_name());
    let exact = crate::text::same(name, own.as_slice());
    push_str(&mut own, ".");
    exact || crate::text::begins(name, own.as_slice())
}

fn is_our_header(line: &[char]) -> (r: bool)
    ensures
        r == opens_ours(line@),
{
    match header_name(line) {
        Some(name) => is_our_section(name.as_slice()),
        None => false,
    }
}

fn is_header(line: &[char]) -> (r: bool)
    ensures
        r == (header_of(line@) is Some),
{
    match header_name(line) {
        Some(_) => true,
        None => false,
    }
}

/// Whether a line assigns to `key`.
pub fn is_top_key(line: &[char], key: &str) -> (r: bool)
    ensures
        r == assigns(line@, key@),
{
    let t = trim_start(line);
    if t.len() > 0 && t[0] == '#' {
        return false;
    }
    if !starts_with(t, key) {
        return false;
    }
    let k = chars_of(key);
    let tail = &t[k.len()..t.len()];
    assert(tail@ == t@.skip(key@.len() as int));
    let rest = trim_start(tail);
    rest.len() > 0 && rest[0] == '='
}

fn read_quoted(s: &[char]) -> (r: Option<Vec<char>>)
    ensures
        match r {
            Some(v) => unquoted(s@) == Some(v@),
            None => unquoted(s@) is None,
        },
{
    let mut out: Vec<char> = Vec::new();
    let mut i: usize = 0;
    assert(s@.skip(0) == s@);
    assert(forall|v: Seq<char>| #[trigger] (Seq::<char>::empty() + v) == v);
    while i < s.len()
        invariant
            i <= s@.len(),
            match unquoted(s@.skip(i as int)) {
                Some(v) => unquoted(s@) == Some(out@ + v),
                None => unquoted(s@) is None,
            },
        decreases s@.len() - i,
    {
        let ghost here = s@.skip(i as int);
        let ghost before = out@;
        let c = s[i];
        if c == '"' {
            assert(unquoted(here) == Some(Seq::<char>::empty()));
            assert(out@ + Seq::<char>::empty() == out@);
            return Some(out);
        }
        if c == '\\' {
            if i + 1 == s.len() {
                return None;
            }
            out.push(s[i + 1]);
            assert(here.skip(2) == s@.skip(i + 2));
            proof {
                if let Some(v) = unquoted(here.skip(2)) {
                    assert(before + (seq![here[1]] + v) == out@ + v);
                }
            }
            i += 2;
        } else {
            out.push(c);
            assert(here.skip(1) == s@.skip(i + 1));
            proof {
                if let Some(v) = unquoted(here.skip(1)) {
                    assert(before + (seq![here[0]] + v) == out@ + v);
                }
            }
            i += 1;
        }
    }
    None
}

fn read_word(s: &[char]) -> (r: Vec<char>)
    ensures
        r@ == leading_word(s@),
{
    let mut out: Vec<char> = Vec::new();
    let mut i: usize = 0;
    assert(s@.skip(0) == s@);
    assert(Seq::<char>::empty() + leading_word(s@) == leading_word(s@));
    while i < s.len() && !char_is_white(s[i])
        invariant
            i <= s@.len(),
            out@ + leading_word(s@.skip(i as int)) == leading_word(s@),
        decreases s@.len() - i,
    {
        let ghost before = out@;
        let ghost here = s@.skip(i as int);
        out.push(s[i]);
        assert(here.skip(1) == s@.skip(i + 1));
        assert(before + (seq![here[0]] + leading_word(here.skip(1))) == out@ + leading_word(
            here.skip(1),
        ));
        i += 1;
    }
    assert(leading_word(s@.skip(i as int)) == Seq::<char>::empty());
    assert(out@ + Seq::<char>::empty() == out@);
    out
}

/// The value that an assignment line gives.
pub fn assignment_value(line: &[char]) -> (r: Option<Vec<char>>)
    ensures
        match r {
            Some(v) => value_of(line@) == Some(v@),
            None => value_of(line@) is None,
        },
{
    let t = trim(line);
    match index_of(t, '=') {
        None => None,
        Some(eq) => {
            let n: usize = t.len();
            let after = &t[eq + 1..n];
            assert(after@ == t@.skip(eq + 1));
            let raw = trim(after);
            if raw.len() > 0 && raw[0] == '"' {
                let inner = &raw[1..raw.len()];
                assert(inner@ == raw@.skip(1));
                read_quoted(inner)
            } else if raw.len() > 0 && raw[0] == '\'' {
                let inner = &raw[1..raw.len()];
                assert(inner@ == raw@.skip(1));
                match index_of(inner, '\'') {
                    Some(end) => {
                        let v = copy_of(&inner[0..end]);
                        assert(v@ == inner@.take(end as int));
                        Some(v)
                    },
                    None => None,
                }
            } else {
                Some(read_word(raw))
            }
        },
    }
}

// ---------------------------------------------------------------------------
// Top-level keys
// ---------------------------------------------------------------------------

/// The lines without those before the first section header that assign to `key`.
pub open spec fn without_key(lines: Seq<Seq<char>>, key: Seq<char>) -> Seq<Seq<char>>
    decreases lines.len(),
{
    if lines.len() == 0 || header_of(lines[0]) is Some {
        lines
    } else if assigns(lines[0], key) {
        without_key(lines.skip(1), key)
    } else {
        seq![lines[0]] + without_key(lines.skip(1), key)
    }
}

/// The lines with `rendered` as the one top-level assignment to `key`: in place of
/// the first one, or else as the last line before the first section header.
pub open spec fn with_key(
    lines: Seq<Seq<char>>,
    key: Seq<char>,
    rendered: Seq<char>,
) -> Seq<Seq<char>>
    decreases lines.len(),
{
    if lines.len() == 0 || header_of(lines[0]) is Some {
        seq![rendered] + lines
    } else if assigns(lines[0], key) {
        seq![rendered] + without_key(lines.skip(1), key)
    } else {
        seq![lines[0]] + with_key(lines.skip(1), key, rendered)
    }
}

/// The value of the first top-level assignment to `key` that has one.
pub open spec fn top_value(lines: Seq<Seq<char>>, key: Seq<char>) -> Option<Seq<char>>
    decreases lines.len(),
{
    if lines.len() == 0 || header_of(lines[0]) is Some {
        None
    } else if assigns(lines[0], key) && value_of(lines[0]) is Some {
        value_of(lines[0])
    } else {
        top_value(lines.skip(1), key)
    }
}

/// Sets a top-level key: one assignment to it is left, `rendered`.
pub fn set_top_key(lines: &Vec<Vec<char>>, key: &str, rendered: Vec<char>) -> (r: Vec<Vec<char>>)
    ensures
        views(r@) == with_key(views(lines@), key@, rendered@),
{
    let ghost all = views(lines@);
    let mut out: Vec<Vec<char>> = Vec::new();
    let mut i: usize = 0;
    assert(all.skip(0) == all);
    assert(views(out@) + with_key(all, key@, rendered@) == with_key(all, key@, rendered@));
    while i < lines.len() && !is_header(lines[i].as_slice()) && !is_top_key(
        lines[i].as_slice(),
        key,
    )
        invariant
            all == views(lines@),
            i <= lines@.len(),
            views(out@) + with_key(all.skip(i as int), key@, rendered@) == with_key(
                all,
                key@,
                rendered@,
            ),
        decreases lines@.len() - i,
    {
        let ghost before = views(out@);
        let ghost here = all.skip(i as int);
        assert(here[0] == lines@[i as int]@);
        out.push(copy_of(lines[i].as_slice()));
        assert(views(out@) == before.push(here[0]));
        assert(here.skip(1) == all.skip(i + 1));
        assert(before + (seq![here[0]] + with_key(here.skip(1), key@, rendered@)) == views(out@)
            + with_key(here.skip(1), key@, rendered@));
        i += 1;
    }
    let ghost here = all.skip(i as int);
    let ghost before = views(out@);
    let ghost line = rendered@;
    out.push(rendered);
    assert(views(out@) == before.push(line));
    let mut dropping = i < lines.len() && !is_header(lines[i].as_slice());
    if i < lines.len() {
        assert(here[0] == lines@[i as int]@);
    }
    if dropping {
        assert(with_key(here, key@, line) == seq![line] + without_key(here.skip(1), key@));
        assert(here.skip(1) == all.skip(i + 1));
        i += 1;
    } else {
        assert(with_key(here, key@, line) == seq![line] + here);
    }
    while i < lines.len()
        invariant
            all == views(lines@),
            i <= lines@.len(),
            dropping ==> views(out@) + without_key(all.skip(i as int), key@) == with_key(
                all,
                key@,
                line,
            ),
            !dropping ==> views(out@) + all.skip(i as int) == with_key(all, key@, line),
        decreases lines@.len() - i,
    {
        let ghost before = views(out@);
        let ghost here = all.skip(i as int);
        assert(here[0] == lines@[i as int]@);
        assert(here.skip(1) == all.skip(i + 1));
        if dropping && is_header(lines[i].as_slice()) {
            dropping = false;
        }
        if !dropping || !is_top_key(lines[i].as_slice(), key) {
            out.push(copy_of(lines[i].as_slice()));
            assert(views(out@) == before.push(here[0]));
            if dropping {
                assert(before + (seq![here[0]] + without_key(here.skip(1), key@)) == views(out@)
                    + without_key(here.skip(1), key@));
            } else {
                assert(before + here == views(out@) + here.skip(1));
            }
        }
        i += 1;
    }
    assert(all.skip(i as int) == Seq::<Seq<char>>::empty());
    assert(views(out@) + Seq::<Seq<char>>::empty() == views(out@));
    out
}

/// The value of a top-level key.
pub fn top_level_value(config: &[char], key: &str) -> (r: Option<Vec<char>>)
    ensures
        match r {
            Some(v) => top_value(lines_of(config@), key@) == Some(v@),
            None => top_value(lines_of(config@), key@) is None,
        },
{
    let (lines, _) = split_lines(config);
    let ghost all = views(lines@);
    let mut i: usize = 0;
    assert(all.skip(0) == all);
    while i < lines.len()
        invariant
            all == views(lines@),
            all == lines_of(config@),
            i <= lines@.len(),
            top_value(all.skip(i as int), key@) == top_value(all, key@),
        decreases lines@.len() - i,
    {
        let ghost here = all.skip(i as int);
        assert(here[0] == lines@[i as int]@);
        assert(here.skip(1) == all.skip(i + 1));
        let line = lines[i].as_slice();
        if is_header(line) {
            return None;
        }
        if is_top_key(line, key) {
            match assignment_value(line) {
                Some(v) => {
                    return Some(v);
                },
                None => {},
            }
        }
        i += 1;
    }
    None
}

// ---------------------------------------------------------------------------
// The provider's section
// ---------------------------------------------------------------------------

/// The five lines of the provider's section.
pub open spec fn block_of(base_url: Seq<char>) -> Seq<Seq<char>> {
    seq![
        "[model_providers."@ + PROVIDER_ID@ + "]"@,
        "name = \""@ + PROVIDER_NAME@ + "\""@,
        "base_url = \""@ + base_url + "\""@,
        "env_key = \""@ + ENV_KEY@ + "\""@,
        "wire_api = \"responses\""@,
    ]
}

/// Whether the line after which we stand belongs to the provider, given whether
/// the one before it did.
pub open spec fn inside_after(inside: bool, line: Seq<char>) -> bool {
    match header_of(line) {
        Some(name) => is_ours(name),
        None => inside,
    }
}

/// The lines that do not belong to the provider's sections. `inside` says whether
/// the lines begin within one.
pub open spec fn foreign(lines: Seq<Seq<char>>, inside: bool) -> Seq<Seq<char>>
    decreases lines.len(),
{
    if lines.len() == 0 {
        lines
    } else {
        let now = inside_after(inside, lines[0]);
        let rest = foreign(lines.skip(1), now);
        if now {
            rest
        } else {
            seq![lines[0]] + rest
        }
    }
}

/// Whether the provider has a section.
pub open spec fn has_ours(lines: Seq<Seq<char>>) -> bool {
    exists|i: int| 0 <= i < lines.len() && #[trigger] opens_ours(lines[i])
}

/// The lines with `block` where the first section of the provider began, and
/// nothing else of its sections.
pub open spec fn with_block(lines: Seq<Seq<char>>, block: Seq<Seq<char>>) -> Seq<Seq<char>>
    decreases lines.len(),
{
    if lines.len() == 0 {
        lines
    } else if opens_ours(lines[0]) {
        block + foreign(lines.skip(1), true)
    } else {
        seq![lines[0]] + with_block(lines.skip(1), block)
    }
}

/// The lines with one section of the provider: `block` in place of what it had,
/// or else at the end, after an empty line where the last line is not empty.
pub open spec fn with_provider(lines: Seq<Seq<char>>, block: Seq<Seq<char>>) -> Seq<Seq<char>> {
    if has_ours(lines) {
        with_block(lines, block)
    } else if lines.len() > 0 && lines.last().len() > 0 {
        lines.push(Seq::empty()) + block
    } else {
        lines + block
    }
}

/// The first assignment to `base_url` in the lines of the provider's sections.
pub open spec fn url_line(lines: Seq<Seq<char>>, inside: bool) -> Option<Seq<char>>
    decreases lines.len(),
{
    if lines.len() == 0 {
        None
    } else if header_of(lines[0]) is None && inside && assigns(lines[0], "base_url"@) {
        Some(lines[0])
    } else {
        url_line(lines.skip(1), inside_after(inside, lines[0]))
    }
}

/// The base URL that the provider's section names.
pub open spec fn provider_url(lines: Seq<Seq<char>>) -> Option<Seq<char>> {
    match url_line(lines, false) {
        Some(line) => value_of(line),
        None => None,
    }
}

/// The lines of the provider's section.
pub fn provider_block(base_url: &[char]) -> (r: Vec<Vec<char>>)
    ensures
        views(r@) == block_of(base_url@),
{
    let mut head: Vec<char> = chars_of("[model_providers.");
    push_str(&mut head, PROVIDER_ID);
    push_str(&mut head, "]");
    let mut name: Vec<char> = chars_of("name = \"");
    push_str(&mut name, PROVIDER_NAME);
    push_str(&mut name, "\"");
    let mut url: Vec<char> = chars_of("base_url = \"");
    push_all(&mut url, base_url);
    push_str(&mut url, "\"");
    let mut env: Vec<char> = chars_of("env_key = \"");
    push_str(&mut env, ENV_KEY);
    push_str(&mut env, "\"");
    let wire: Vec<char> = chars_of("wire_api = \"responses\"");
    let mut out: Vec<Vec<char>> = Vec::new();
    out.push(head);
    out.push(name);
    out.push(url);
    out.push(env);
    out.push(wire);
    assert(views(out@) =~= block_of(base_url@));
    out
}

fn append_copy(out: &mut Vec<Vec<char>>, lines: &Vec<Vec<char>>)
    ensures
        views(final(out)@) == views(old(out)@) + views(lines@),
{
    let ghost before = views(out@);
    let ghost all = views(lines@);
    let mut i: usize = 0;
    assert(before + all.take(0) == before);
    while i < lines.len()
        invariant
            i <= lines@.len(),
            all == views(lines@),
            views(out@) == before + all.take(i as int),
        decreases lines@.len() - i,
    {
        let ghost mid = views(out@);
        out.push(copy_of(lines[i].as_slice()));
        assert(views(out@) == mid.push(all[i as int]));
        assert(mid.push(all[i as int]) == before + all.take(i + 1));
        i += 1;
    }
    assert(all.take(i as int) == all);
}

/// Puts the provider's section for `base_url` into the lines.
pub fn replace_provider_section(lines: &Vec<Vec<char>>, base_url: &[char]) -> (r: Vec<Vec<char>>)
    ensures
        views(r@) == with_provider(views(lines@), block_of(base_url@)),
{
    let block = provider_block(base_url);
    let ghost all = views(lines@);
    let ghost b = block_of(base_url@);
    let mut out: Vec<Vec<char>> = Vec::new();
    let mut i: usize = 0;
    assert(all.skip(0) == all);
    assert(views(out@) + with_block(all, b) == with_block(all, b));
    assert(views(out@) == all.take(0));
    while i < lines.len() && !is_our_header(lines[i].as_slice())
        invariant
            all == views(lines@),
            i <= lines@.len(),
            views(out@) == all.take(i as int),
            views(out@) + with_block(all.skip(i as int), b) == with_block(all, b),
            forall|j: int| 0 <= j < i ==> !#[trigger] opens_ours(all[j]),
        decreases lines@.len() - i,
    {
        let ghost before = views(out@);
        let ghost here = all.skip(i as int);
        assert(here[0] == lines@[i as int]@);
        out.push(copy_of(lines[i].as_slice()));
        assert(views(out@) == before.push(here[0]));
        assert(before.push(here[0]) == all.take(i + 1));
        assert(here.skip(1) == all.skip(i + 1));
        assert(before + (seq![here[0]] + with_block(here.skip(1), b)) == views(out@) + with_block(
            here.skip(1),
            b,
        ));
        i += 1;
    }
    if i == lines.len() {
        assert(all.take(i as int) == all);
        assert(!has_ours(all));
        if lines.len() > 0 && lines[lines.len() - 1].len() > 0 {
            let ghost before = views(out@);
            out.push(Vec::new());
            assert(views(out@) == before.push(Seq::<char>::empty()));
        }
        append_copy(&mut out, &block);
        return out;
    }
    let ghost here = all.skip(i as int);
    assert(here[0] == lines@[i as int]@);
    assert(opens_ours(all[i as int]));
    let ghost before = views(out@);
    append_copy(&mut out, &block);
    assert(here.skip(1) == all.skip(i + 1));
    assert(before + (b + foreign(here.skip(1), true)) == views(out@) + foreign(
        here.skip(1),
        true,
    ));
    i += 1;
    let mut inside = true;
    while i < lines.len()
        invariant
            all == views(lines@),
            i <= lines@.len(),
            views(out@) + foreign(all.skip(i as int), inside) == with_block(all, b),
        decreases lines@.len() - i,
    {
        let ghost before = views(out@);
        let ghost here = all.skip(i as int);
        assert(here[0] == lines@[i as int]@);
        assert(here.skip(1) == all.skip(i + 1));
        match header_name(lines[i].as_slice()) {
            Some(name) => {
                inside = is_our_section(name.as_slice());
            },
            None => {},
        }
        if !inside {
            out.push(copy_of(lines[i].as_slice()));
            assert(views(out@) == before.push(here[0]));
            assert(before + (seq![here[0]] + foreign(here.skip(1), inside)) == views(out@)
                + foreign(here.skip(1), inside));
        }
        i += 1;
    }
    assert(all.skip(i as int) == Seq::<Seq<char>>::empty());
    assert(views(out@) + Seq::<Seq<char>>::empty() == views(out@));
    out
}

/// The base URL that a configuration gives the provider.
pub fn provider_base_url(config: &[char]) -> (r: Option<Vec<char>>)
    ensures
        match r {
            Some(v) => provider_url(lines_of(config@)) == Some(v@),
            None => provider_url(lines_of(config@)) is None,
        },
{
    let (lines, _) = split_lines(config);
    let ghost all = views(lines@);
    let mut inside = false;
    let mut i: usize = 0;
    assert(all.skip(0) == all);
    while i < lines.len()
        invariant
            all == views(lines@),
            all == lines_of(config@),
            i <= lines@.len(),
            url_line(all.skip(i as int), inside) == url_line(all, false),
        decreases lines@.len() - i,
    {
        let ghost here = all.skip(i as int);
        assert(here[0] == lines@[i as int]@);
        assert(here.skip(1) == all.skip(i + 1));
        let line = lines[i].as_slice();
        match header_name(line) {
            Some(name) => {
                inside = is_our_section(name.as_slice());
            },
            None => {
                if inside && is_top_key(line, "base_url") {
                    return assignment_value(line);
                }
            },
        }
        i += 1;
    }
    None
}

// ---------------------------------------------------------------------------
// The whole edit
// ---------------------------------------------------------------------------

/// The line that names the model.
pub open spec fn model_line(model: Seq<char>) -> Seq<char> {
    "model = \""@ + model + "\""@
}

/// The line that names the provider.
pub open spec fn provider_line() -> Seq<char> {
    "model_provider = \""@ + PROVIDER_ID@ + "\""@
}

/// The lines of a configuration with the model and the provider set.
pub open spec fn merged_lines(
    lines: Seq<Seq<char>>,
    model: Seq<char>,
    base_url: Seq<char>,
) -> Seq<Seq<char>> {
    with_provider(
        with_key(
            with_key(lines, "model"@, model_line(model)),
            "model_provider"@,
            provider_line(),
        ),
        block_of(base_url),
    )
}

/// A configuration with the model and the provider set.
pub open spec fn merged_config(
    current: Seq<char>,
    model: Seq<char>,
    base_url: Seq<char>,
) -> Seq<char> {
    text_of_lines(merged_lines(lines_of(current), model, base_url), newline_of(current))
}

/// Sets the model and the provider in a configuration.
pub fn merge_config(current: &[char], model: &[char], base_url: &[char]) -> (r: Vec<char>)
    ensures
        r@ == merged_config(current@, model@, base_url@),
{
    let (lines, newline) = split_lines(current);
    let mut first: Vec<char> = chars_of("model = \"");
    push_all(&mut first, model);
    push_str(&mut first, "\"");
    let lines = set_top_key(&lines, "model", first);
    let mut second: Vec<char> = chars_of("model_provider = \"");
    push_str(&mut second, PROVIDER_ID);
    push_str(&mut second, "\"");
    let lines = set_top_key(&lines, "model_provider", second);
    let lines = replace_provider_section(&lines, base_url);
    join_lines(&lines, newline)
}

} // verus!
