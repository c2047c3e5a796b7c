//! What editing a configuration promises: the settings read back as they were
//! written, and every other line stays.

use vstd::prelude::*;
use crate::config_file::{
    assigns, block_of, foreign, has_ours, header_of, inside_after, merged_config, merged_lines,
    model_line, opens_ours, provider_line, provider_url, section_name, top_value, unquoted,
    url_line, value_of, with_block, with_key, with_provider, without_key, ENV_KEY, PROVIDER_ID,
    PROVIDER_NAME,
};
use crate::lines::{
    ends_in_bare_return, lemma_lines_no_bare_return, lemma_lines_of_text, lemma_lines_unbroken,
    lemma_newlines, lines_of, newline_of, no_bare_return, unbroken,
};
use crate::text::{
    begins_with, contains_text, is_white, lemma_index_is, lemma_strip_nothing, occurs_at,
    strip_front, trimmed, trimmed_start, white,
};

verus! {

/// Text that can stand between double quotes as it is, on one line.
pub open spec fn plain(s: Seq<char>) -> bool {
    forall|i: int|
        0 <= i < s.len() ==> #[trigger] s[i] != '"' && s[i] != '\\' && s[i] != '\n' && s[i] != '\r'
}

/// Text without a line feed.
pub open spec fn one_line(s: Seq<char>) -> bool {
    forall|i: int| 0 <= i < s.len() ==> #[trigger] s[i] != '\n'
}

/// A key that needs no quotes.
pub open spec fn bare_key(key: Seq<char>) -> bool {
    &&& key.len() > 0
    &&& forall|i: int|
        0 <= i < key.len() ==> !is_white(#[trigger] key[i]) && key[i] != '=' && key[i] != '['
            && key[i] != '#'
}

/// The line `key = "value"`.
pub open spec fn assignment(key: Seq<char>, value: Seq<char>) -> Seq<char> {
    key + " = \""@ + value + "\""@
}

/// A text that another one follows closes at the first quote.
proof fn lemma_unquoted(s: Seq<char>, rest: Seq<char>)
    requires
        plain(s),
    ensures
        unquoted(s + seq!['"'] + rest) == Some(s),
    decreases s.len(),
{
    let all = s + seq!['"'] + rest;
    if s.len() == 0 {
        assert(all[0] == '"');
        assert(s == Seq::<char>::empty());
    } else {
        assert(all[0] == s[0]);
        assert(s[0] != '"' && s[0] != '\\');
        let t = s.skip(1);
        assert(plain(t)) by {
            assert forall|i: int| 0 <= i < t.len() implies #[trigger] t[i] != '"' && t[i] != '\\'
                && t[i] != '\n' && t[i] != '\r' by {
                assert(t[i] == s[i + 1]);
            }
        }
        lemma_unquoted(t, rest);
        assert(all.skip(1) == t + seq!['"'] + rest);
        assert(seq![s[0]] + t == s);
    }
}

/// What reading makes of the line `key = "value"`, whatever the value holds. It reads the
/// value back where that can stand between the quotes as it is.
pub proof fn lemma_assignment(key: Seq<char>, value: Seq<char>)
    requires
        bare_key(key),
    ensures
        ({
            let line = assignment(key, value);
            &&& assigns(line, key)
            &&& plain(value) ==> value_of(line) == Some(value)
            &&& header_of(line) is None
            &&& one_line(value) ==> one_line(line)
            &&& line.len() > 0
            &&& line.last() == '"'
            &&& trimmed_start(line) == line
        }),
{
    reveal_strlit(" = \"");
    reveal_strlit("\"");
    let line = assignment(key, value);
    let n = key.len() as int;
    assert(line.len() == n + 5 + value.len());
    assert(line[0] == key[0]);
    assert(!is_white(key[0]));
    assert(line.last() == '"');
    lemma_strip_nothing(line, white());
    assert(trimmed(line) == line);
    assert(line.subrange(0, n) == key);
    let tail = line.skip(n);
    assert(tail[0] == ' ');
    assert(tail.skip(1)[0] == '=');
    assert(trimmed_start(tail) == tail.skip(1)) by {
        reveal_with_fuel(strip_front, 3);
    }
    assert(line[n + 1] == '=');
    assert forall|j: int| 0 <= j < n + 1 implies line[j] != '=' by {
        if j < n {
            assert(line[j] == key[j]);
        } else {
            assert(line[j] == ' ');
        }
    }
    lemma_index_is(line, '=', n + 1);
    let after = line.skip(n + 2);
    let raw = after.skip(1);
    assert(after[0] == ' ');
    assert(raw[0] == '"');
    assert(raw.last() == '"');
    assert(strip_front(after, white()) == raw) by {
        reveal_with_fuel(strip_front, 3);
    }
    lemma_strip_nothing(raw, white());
    assert(trimmed(after) == raw);
    assert(raw.skip(1) == value + seq!['"'] + Seq::<char>::empty());
    if plain(value) {
        lemma_unquoted(value, Seq::empty());
    }
    if one_line(value) {
        assert forall|j: int| 0 <= j < line.len() implies #[trigger] line[j] != '\n' by {
            if j < n {
                assert(line[j] == key[j]);
                assert(!is_white(key[j]));
            } else if n + 4 <= j < n + 4 + value.len() {
                assert(line[j] == value[j - n - 4]);
            }
        }
    }
}

/// A line that assigns to one key does not assign to another.
pub open spec fn apart(a: Seq<char>, b: Seq<char>) -> bool {
    forall|line: Seq<char>| #[trigger] assigns(line, a) ==> !assigns(line, b)
}

pub proof fn lemma_keys()
    ensures
        bare_key("model"@),
        bare_key("model_provider"@),
        bare_key("base_url"@),
        bare_key("name"@),
        apart("model"@, "model_provider"@),
        apart("model_provider"@, "model"@),
        !assigns(assignment("name"@, PROVIDER_NAME@), "base_url"@),
{
    reveal_strlit("model");
    reveal_strlit("model_provider");
    reveal_strlit("base_url");
    reveal_strlit("name");
    let a = "model"@;
    let b = "model_provider"@;
    assert forall|line: Seq<char>| #[trigger] assigns(line, b) implies !assigns(line, a) by {
        let t = trimmed_start(line);
        assert(t.subrange(0, 14) == b);
        assert(t[5] == b[5]);
        let rest = t.skip(5);
        assert(rest[0] == '_');
        assert(trimmed_start(rest) == rest);
    }
    let line = assignment("name"@, PROVIDER_NAME@);
    reveal_strlit("公司 AI 网关");
    lemma_assignment("name"@, PROVIDER_NAME@);
    assert(line[0] == 'n');
    if begins_with(line, "base_url"@) {
        assert(line.subrange(0, 8)[0] == 'n');
    }
}

/// The two top-level lines, and the provider's section.
pub proof fn lemma_lines_written(model: Seq<char>, base_url: Seq<char>)
    ensures
        ({
            let m = model_line(model);
            let p = provider_line();
            let b = block_of(base_url);
            &&& m == assignment("model"@, model)
            &&& p == assignment("model_provider"@, PROVIDER_ID@)
            &&& b.len() == 5
            &&& opens_ours(b[0])
            &&& forall|i: int| 0 < i < 5 ==> header_of(#[trigger] b[i]) is None
            &&& forall|i: int| 0 <= i < 5 ==> (#[trigger] b[i]).len() > 0 && b[i].last() != '\r'
            &&& one_line(base_url) ==> forall|i: int| 0 <= i < 5 ==> one_line(#[trigger] b[i])
            &&& !assigns(b[1], "base_url"@)
            &&& assigns(b[2], "base_url"@)
            &&& plain(base_url) ==> value_of(b[2]) == Some(base_url)
            &&& plain(PROVIDER_ID@)
            &&& one_line(PROVIDER_ID@)
        }),
{
    let b = block_of(base_url);
    lemma_keys();
    reveal_strlit("model");
    reveal_strlit("model = \"");
    reveal_strlit("model_provider");
    reveal_strlit("model_provider = \"");
    reveal_strlit("base_url");
    reveal_strlit("base_url = \"");
    reveal_strlit("name");
    reveal_strlit("name = \"");
    reveal_strlit("env_key = \"");
    reveal_strlit("wire_api = \"responses\"");
    reveal_strlit(" = \"");
    reveal_strlit("\"");
    reveal_strlit("yxrobot");
    reveal_strlit("公司 AI 网关");
    reveal_strlit("YXROBOT_API_KEY");
    assert(model_line(model) =~= assignment("model"@, model));
    assert(provider_line() =~= assignment("model_provider"@, PROVIDER_ID@));
    assert(b[1] =~= assignment("name"@, PROVIDER_NAME@));
    assert(b[2] =~= assignment("base_url"@, base_url));
    let env_key = seq!['e', 'n', 'v', '_', 'k', 'e', 'y'];
    assert(b[3] =~= assignment(env_key, ENV_KEY@));
    let wire = seq!['w', 'i', 'r', 'e', '_', 'a', 'p', 'i'];
    let responses = seq!['r', 'e', 's', 'p', 'o', 'n', 's', 'e', 's'];
    assert(b[4] =~= assignment(wire, responses));
    lemma_assignment("name"@, PROVIDER_NAME@);
    lemma_assignment("base_url"@, base_url);
    lemma_assignment(env_key, ENV_KEY@);
    lemma_assignment(wire, responses);
    lemma_head();
    assert forall|i: int| 0 < i < 5 implies header_of(#[trigger] b[i]) is None by {
        assert(i == 1 || i == 2 || i == 3 || i == 4);
    }
    assert forall|i: int| 0 <= i < 5 implies (#[trigger] b[i]).len() > 0 && b[i].last()
        != '\r' by {
        assert(i == 0 || i == 1 || i == 2 || i == 3 || i == 4);
    }
    if one_line(base_url) {
        assert forall|i: int| 0 <= i < 5 implies one_line(#[trigger] b[i]) by {
            assert(i == 0 || i == 1 || i == 2 || i == 3 || i == 4);
        }
    }
}

/// The header line of the provider's section.
proof fn lemma_head()
    ensures
        ({
            let head = "[model_providers."@ + PROVIDER_ID@ + "]"@;
            &&& header_of(head) == Some(section_name())
            &&& one_line(head)
            &&& head.len() > 0
            &&& head.last() != '\r'
        }),
{
    reveal_strlit("[model_providers.");
    reveal_strlit("model_providers.");
    reveal_strlit("yxrobot");
    reveal_strlit("]");
    let head = "[model_providers."@ + PROVIDER_ID@ + "]"@;
    let name = section_name();
    assert(head.len() == 25);
    lemma_strip_nothing(head, white());
    assert(trimmed(head) == head);
    let rest = head.skip(1);
    assert(rest[23] == ']');
    assert(rest.take(23) =~= name);
    assert forall|j: int| 0 <= j < 23 implies rest[j] != ']' by {
        assert(rest[j] == name[j]);
    }
    lemma_index_is(rest, ']', 23);
    lemma_strip_nothing(name, white());
    assert(trimmed(name) == name);
}

// ---------------------------------------------------------------------------
// Reading back
// ---------------------------------------------------------------------------

proof fn lemma_top_value_own(lines: Seq<Seq<char>>, key: Seq<char>, rendered: Seq<char>)
    requires
        assigns(rendered, key),
        header_of(rendered) is None,
        value_of(rendered) is Some,
    ensures
        top_value(with_key(lines, key, rendered), key) == value_of(rendered),
    decreases lines.len(),
{
    let w = with_key(lines, key, rendered);
    if lines.len() == 0 || header_of(lines[0]) is Some || assigns(lines[0], key) {
        assert(w[0] == rendered);
    } else {
        lemma_top_value_own(lines.skip(1), key, rendered);
        assert(w[0] == lines[0]);
        assert(w.skip(1) == with_key(lines.skip(1), key, rendered));
    }
}

proof fn lemma_top_value_without(lines: Seq<Seq<char>>, gone: Seq<char>, key: Seq<char>)
    requires
        apart(gone, key),
    ensures
        top_value(without_key(lines, gone), key) == top_value(lines, key),
    decreases lines.len(),
{
    if lines.len() > 0 && header_of(lines[0]) is None {
        lemma_top_value_without(lines.skip(1), gone, key);
        if !assigns(lines[0], gone) {
            let w = without_key(lines, gone);
            assert(w[0] == lines[0]);
            assert(w.skip(1) == without_key(lines.skip(1), gone));
        }
    }
}

proof fn lemma_top_value_other(
    lines: Seq<Seq<char>>,
    set: Seq<char>,
    rendered: Seq<char>,
    key: Seq<char>,
)
    requires
        apart(set, key),
        assigns(rendered, set),
        header_of(rendered) is None,
    ensures
        top_value(with_key(lines, set, rendered), key) == top_value(lines, key),
    decreases lines.len(),
{
    let w = with_key(lines, set, rendered);
    if lines.len() == 0 || header_of(lines[0]) is Some {
        assert(w[0] == rendered);
        assert(w.skip(1) == lines);
    } else if assigns(lines[0], set) {
        lemma_top_value_without(lines.skip(1), set, key);
        assert(w[0] == rendered);
        assert(w.skip(1) == without_key(lines.skip(1), set));
    } else {
        lemma_top_value_other(lines.skip(1), set, rendered, key);
        assert(w[0] == lines[0]);
        assert(w.skip(1) == with_key(lines.skip(1), set, rendered));
    }
}

proof fn lemma_top_value_before(lines: Seq<Seq<char>>, tail: Seq<Seq<char>>, key: Seq<char>)
    requires
        top_value(tail, key) is None,
    ensures
        top_value(lines + tail, key) == top_value(lines, key),
    decreases lines.len(),
{
    let all = lines + tail;
    if lines.len() == 0 {
        assert(all == tail);
    } else {
        assert(all[0] == lines[0]);
        assert(all.skip(1) == lines.skip(1) + tail);
        lemma_top_value_before(lines.skip(1), tail, key);
    }
}

proof fn lemma_top_value_block(lines: Seq<Seq<char>>, block: Seq<Seq<char>>, key: Seq<char>)
    requires
        block.len() > 0,
        header_of(block[0]) is Some,
    ensures
        top_value(with_block(lines, block), key) == top_value(lines, key),
    decreases lines.len(),
{
    let w = with_block(lines, block);
    if lines.len() > 0 {
        if opens_ours(lines[0]) {
            assert(w[0] == block[0]);
        } else {
            lemma_top_value_block(lines.skip(1), block, key);
            assert(w[0] == lines[0]);
            assert(w.skip(1) == with_block(lines.skip(1), block));
        }
    }
}

/// An empty line says nothing.
pub proof fn lemma_blank()
    ensures
        header_of(Seq::empty()) is None,
        forall|key: Seq<char>| key.len() > 0 ==> !assigns(Seq::empty(), key),
{
    assert(trimmed(Seq::empty()) == Seq::<char>::empty());
    assert(trimmed_start(Seq::empty()) == Seq::<char>::empty());
}

proof fn lemma_top_value_provider(lines: Seq<Seq<char>>, block: Seq<Seq<char>>, key: Seq<char>)
    requires
        block.len() > 0,
        header_of(block[0]) is Some,
        key.len() > 0,
    ensures
        top_value(with_provider(lines, block), key) == top_value(lines, key),
{
    lemma_blank();
    if has_ours(lines) {
        lemma_top_value_block(lines, block, key);
    } else if lines.len() > 0 && lines.last().len() > 0 {
        let tail = seq![Seq::<char>::empty()] + block;
        assert(tail[0] == Seq::<char>::empty());
        assert(tail.skip(1) == block);
        assert(top_value(block, key) is None);
        lemma_top_value_before(lines, tail, key);
        assert(lines + tail == lines.push(Seq::empty()) + block);
    } else {
        lemma_top_value_before(lines, block, key);
    }
}

/// The shape of a section's block.
pub open spec fn is_block(block: Seq<Seq<char>>) -> bool {
    &&& block.len() == 5
    &&& opens_ours(block[0])
    &&& forall|i: int| 0 < i < 5 ==> header_of(#[trigger] block[i]) is None
    &&& forall|i: int| 0 <= i < 5 ==> (#[trigger] block[i]).len() > 0
    &&& !assigns(block[1], "base_url"@)
    &&& assigns(block[2], "base_url"@)
}

proof fn lemma_url_in_block(block: Seq<Seq<char>>, rest: Seq<Seq<char>>, inside: bool)
    requires
        is_block(block),
    ensures
        url_line(block + rest, inside) == Some(block[2]),
{
    let all = block + rest;
    assert(all[0] == block[0]);
    let one = all.skip(1);
    assert(one[0] == block[1]);
    assert(header_of(block[1]) is None);
    let two = one.skip(1);
    assert(two[0] == block[2]);
    assert(header_of(block[2]) is None);
    assert(url_line(two, true) == Some(block[2]));
    assert(url_line(one, true) == Some(block[2]));
}

proof fn lemma_url_with_block(lines: Seq<Seq<char>>, block: Seq<Seq<char>>)
    requires
        is_block(block),
        has_ours(lines),
    ensures
        url_line(with_block(lines, block), false) == Some(block[2]),
    decreases lines.len(),
{
    let w = with_block(lines, block);
    if opens_ours(lines[0]) {
        lemma_url_in_block(block, foreign(lines.skip(1), true), false);
    } else {
        let i = choose|i: int| 0 <= i < lines.len() && #[trigger] opens_ours(lines[i]);
        assert(lines.skip(1)[i - 1] == lines[i]);
        lemma_url_with_block(lines.skip(1), block);
        assert(w[0] == lines[0]);
        assert(w.skip(1) == with_block(lines.skip(1), block));
    }
}

proof fn lemma_url_after(lines: Seq<Seq<char>>, tail: Seq<Seq<char>>)
    requires
        !has_ours(lines),
    ensures
        url_line(lines + tail, false) == url_line(tail, false),
    decreases lines.len(),
{
    let all = lines + tail;
    if lines.len() == 0 {
        assert(all == tail);
    } else {
        assert(all[0] == lines[0]);
        assert(!opens_ours(lines[0]));
        assert(all.skip(1) == lines.skip(1) + tail);
        assert forall|i: int| 0 <= i < lines.skip(1).len() implies !#[trigger] opens_ours(
            lines.skip(1)[i],
        ) by {
            assert(lines.skip(1)[i] == lines[i + 1]);
        }
        lemma_url_after(lines.skip(1), tail);
    }
}

proof fn lemma_url_provider(lines: Seq<Seq<char>>, block: Seq<Seq<char>>)
    requires
        is_block(block),
    ensures
        url_line(with_provider(lines, block), false) == Some(block[2]),
{
    lemma_blank();
    lemma_url_in_block(block, Seq::empty(), false);
    assert(block + Seq::<Seq<char>>::empty() == block);
    if has_ours(lines) {
        lemma_url_with_block(lines, block);
    } else if lines.len() > 0 && lines.last().len() > 0 {
        let tail = seq![Seq::<char>::empty()] + block;
        assert(tail.skip(1) == block);
        lemma_url_after(lines, tail);
        assert(lines + tail == lines.push(Seq::empty()) + block);
    } else {
        lemma_url_after(lines, block);
    }
}

/// An empty line at the end changes nothing for the reader.
proof fn lemma_reads_past_blank(lines: Seq<Seq<char>>, key: Seq<char>, inside: bool)
    requires
        key.len() > 0,
    ensures
        top_value(lines.push(Seq::empty()), key) == top_value(lines, key),
        url_line(lines.push(Seq::empty()), inside) == url_line(lines, inside),
    decreases lines.len(),
{
    lemma_blank();
    let longer = lines.push(Seq::<char>::empty());
    if lines.len() == 0 {
        assert(longer.skip(1) == lines);
        reveal_strlit("base_url");
    } else {
        assert(longer[0] == lines[0]);
        assert(longer.skip(1) == lines.skip(1).push(Seq::empty()));
        lemma_reads_past_blank(lines.skip(1), key, inside_after(inside, lines[0]));
    }
}

// ---------------------------------------------------------------------------
// Every line
// ---------------------------------------------------------------------------

/// Whether every line has the property.
pub open spec fn every(lines: Seq<Seq<char>>, p: spec_fn(Seq<char>) -> bool) -> bool {
    forall|i: int| 0 <= i < lines.len() ==> p(#[trigger] lines[i])
}

proof fn lemma_every_skip(lines: Seq<Seq<char>>, p: spec_fn(Seq<char>) -> bool)
    requires
        every(lines, p),
        lines.len() > 0,
    ensures
        every(lines.skip(1), p),
{
    assert forall|i: int| 0 <= i < lines.skip(1).len() implies p(#[trigger] lines.skip(1)[i]) by {
        assert(lines.skip(1)[i] == lines[i + 1]);
    }
}

proof fn lemma_every_without(
    lines: Seq<Seq<char>>,
    key: Seq<char>,
    p: spec_fn(Seq<char>) -> bool,
)
    requires
        every(lines, p),
    ensures
        every(without_key(lines, key), p),
    decreases lines.len(),
{
    if lines.len() > 0 && header_of(lines[0]) is None {
        lemma_every_skip(lines, p);
        lemma_every_without(lines.skip(1), key, p);
    }
}

proof fn lemma_every_with(
    lines: Seq<Seq<char>>,
    key: Seq<char>,
    rendered: Seq<char>,
    p: spec_fn(Seq<char>) -> bool,
)
    requires
        every(lines, p),
        p(rendered),
    ensures
        every(with_key(lines, key, rendered), p),
    decreases lines.len(),
{
    if lines.len() > 0 && header_of(lines[0]) is None {
        lemma_every_skip(lines, p);
        lemma_every_without(lines.skip(1), key, p);
        lemma_every_with(lines.skip(1), key, rendered, p);
    }
}

proof fn lemma_every_foreign(
    lines: Seq<Seq<char>>,
    inside: bool,
    p: spec_fn(Seq<char>) -> bool,
)
    requires
        every(lines, p),
    ensures
        every(foreign(lines, inside), p),
    decreases lines.len(),
{
    if lines.len() > 0 {
        lemma_every_skip(lines, p);
        lemma_every_foreign(lines.skip(1), inside_after(inside, lines[0]), p);
    }
}

proof fn lemma_every_block(
    lines: Seq<Seq<char>>,
    block: Seq<Seq<char>>,
    p: spec_fn(Seq<char>) -> bool,
)
    requires
        every(lines, p),
        every(block, p),
    ensures
        every(with_block(lines, block), p),
    decreases lines.len(),
{
    if lines.len() > 0 {
        lemma_every_skip(lines, p);
        if opens_ours(lines[0]) {
            lemma_every_foreign(lines.skip(1), true, p);
        } else {
            lemma_every_block(lines.skip(1), block, p);
        }
    }
}

proof fn lemma_every_merged(
    lines: Seq<Seq<char>>,
    model: Seq<char>,
    base_url: Seq<char>,
    p: spec_fn(Seq<char>) -> bool,
)
    requires
        every(lines, p),
        p(model_line(model)),
        p(provider_line()),
        p(Seq::empty()),
        every(block_of(base_url), p),
    ensures
        every(merged_lines(lines, model, base_url), p),
{
    let one = with_key(lines, "model"@, model_line(model));
    let two = with_key(one, "model_provider"@, provider_line());
    lemma_every_with(lines, "model"@, model_line(model), p);
    lemma_every_with(one, "model_provider"@, provider_line(), p);
    lemma_every_block(two, block_of(base_url), p);
}

/// Whether the edited file keeps the line break of the file: no line of it ends with a
/// lone carriage return, which the line feed after it would make a line break of its own.
pub open spec fn breaks_stay(current: Seq<char>, model: Seq<char>, base_url: Seq<char>) -> bool {
    newline_of(current) == "\n"@ ==> no_bare_return(
        merged_lines(lines_of(current), model, base_url),
    )
}

/// A file that does not end with a lone carriage return keeps its line break, whatever is
/// set in it.
pub proof fn law_breaks_stay(current: Seq<char>, model: Seq<char>, base_url: Seq<char>)
    requires
        !ends_in_bare_return(current),
    ensures
        breaks_stay(current, model, base_url),
{
    if newline_of(current) == "\n"@ {
        let lines = lines_of(current);
        lemma_newlines();
        lemma_lines_written(model, base_url);
        lemma_keys();
        lemma_assignment("model"@, model);
        lemma_assignment("model_provider"@, PROVIDER_ID@);
        lemma_lines_no_bare_return(current);
        let ended = |line: Seq<char>| line.len() == 0 || line.last() != '\r';
        assert(every(lines, ended));
        lemma_every_merged(lines, model, base_url, ended);
    }
}

/// The lines of a merged configuration, read back from its text.
pub proof fn lemma_merged_text(current: Seq<char>, model: Seq<char>, base_url: Seq<char>)
    requires
        breaks_stay(current, model, base_url),
        one_line(model),
        one_line(base_url),
    ensures
        ({
            let all = merged_lines(lines_of(current), model, base_url);
            &&& all.len() > 0
            &&& unbroken(all, newline_of(current))
            &&& newline_of(merged_config(current, model, base_url)) == newline_of(current)
            &&& lines_of(merged_config(current, model, base_url)) == (if all.last().len() == 0 {
                all.drop_last()
            } else {
                all
            })
        }),
{
    let newline = newline_of(current);
    let lines = lines_of(current);
    let all = merged_lines(lines, model, base_url);
    lemma_newlines();
    lemma_lines_unbroken(current);
    lemma_lines_written(model, base_url);
    lemma_keys();
    lemma_assignment("model"@, model);
    lemma_assignment("model_provider"@, PROVIDER_ID@);
    let whole = |line: Seq<char>| !contains_text(line, newline);
    assert forall|line: Seq<char>| #[trigger] one_line(line) implies !contains_text(
        line,
        newline,
    ) by {
        assert forall|i: int| !occurs_at(line, newline, i) by {
            if occurs_at(line, newline, i) {
                assert(line.subrange(i, i + newline.len()).last() == '\n');
                assert(line[i + newline.len() - 1] == '\n');
            }
        }
    }
    assert(one_line(Seq::empty()));
    assert(every(lines, whole));
    lemma_every_merged(lines, model, base_url, whole);
    assert(unbroken(all, newline));
    let b = block_of(base_url);
    let two = with_key(
        with_key(lines, "model"@, model_line(model)),
        "model_provider"@,
        provider_line(),
    );
    lemma_url_provider(two, b);
    assert(all.len() > 1) by {
        if all.len() == 1 {
            let none = all.skip(1);
            assert(none.len() == 0);
            assert(url_line(none, inside_after(false, all[0])) is None);
            assert(url_line(all, false) is None);
        }
    }
    lemma_lines_of_text(all, newline);
}

/// What is written is read back: after a configuration was edited, its model is
/// the given one, its provider is ours, and the provider's base URL is the given
/// one, unless that one cannot stand between quotes as it is.
pub proof fn law_config_reads_back(current: Seq<char>, model: Seq<char>, base_url: Seq<char>)
    requires
        breaks_stay(current, model, base_url),
        plain(model),
        one_line(base_url),
    ensures
        ({
            let lines = lines_of(merged_config(current, model, base_url));
            &&& top_value(lines, "model"@) == Some(model)
            &&& top_value(lines, "model_provider"@) == Some(PROVIDER_ID@)
            &&& plain(base_url) ==> provider_url(lines) == Some(base_url)
        }),
{
    let lines = lines_of(current);
    let b = block_of(base_url);
    let one = with_key(lines, "model"@, model_line(model));
    let two = with_key(one, "model_provider"@, provider_line());
    let all = merged_lines(lines, model, base_url);
    lemma_keys();
    lemma_lines_written(model, base_url);
    lemma_assignment("model"@, model);
    lemma_assignment("model_provider"@, PROVIDER_ID@);
    lemma_top_value_own(lines, "model"@, model_line(model));
    lemma_top_value_other(one, "model_provider"@, provider_line(), "model"@);
    lemma_top_value_own(one, "model_provider"@, provider_line());
    lemma_top_value_provider(two, b, "model"@);
    lemma_top_value_provider(two, b, "model_provider"@);
    lemma_url_provider(two, b);
    lemma_merged_text(current, model, base_url);
    if all.last().len() == 0 {
        let short = all.drop_last();
        assert(all.last() =~= Seq::<char>::empty());
        assert(all == short.push(Seq::empty()));
        lemma_reads_past_blank(short, "model"@, false);
        lemma_reads_past_blank(short, "model_provider"@, false);
    }
}

// ---------------------------------------------------------------------------
// What stays
// ---------------------------------------------------------------------------

/// The lines that the settings are not about: all but the top-level lines that
/// assign the model or the provider, and the provider's sections.
pub open spec fn unrelated(lines: Seq<Seq<char>>) -> Seq<Seq<char>> {
    foreign(without_key(without_key(lines, "model"@), "model_provider"@), false)
}

/// The lines without empty ones at the end.
pub open spec fn unpadded(lines: Seq<Seq<char>>) -> Seq<Seq<char>>
    decreases lines.len(),
{
    if lines.len() > 0 && lines.last().len() == 0 {
        unpadded(lines.drop_last())
    } else {
        lines
    }
}

proof fn lemma_without_own(lines: Seq<Seq<char>>, key: Seq<char>, rendered: Seq<char>)
    requires
        assigns(rendered, key),
        header_of(rendered) is None,
    ensures
        without_key(with_key(lines, key, rendered), key) == without_key(lines, key),
    decreases lines.len(),
{
    let w = with_key(lines, key, rendered);
    if lines.len() == 0 || header_of(lines[0]) is Some {
        assert(w.skip(1) == lines);
    } else if assigns(lines[0], key) {
        assert(w.skip(1) == without_key(lines.skip(1), key));
        lemma_without_twice(lines.skip(1), key);
    } else {
        assert(w[0] == lines[0]);
        assert(w.skip(1) == with_key(lines.skip(1), key, rendered));
        lemma_without_own(lines.skip(1), key, rendered);
    }
}

pub proof fn lemma_without_twice(lines: Seq<Seq<char>>, key: Seq<char>)
    ensures
        without_key(without_key(lines, key), key) == without_key(lines, key),
    decreases lines.len(),
{
    let w = without_key(lines, key);
    if lines.len() > 0 && header_of(lines[0]) is None {
        lemma_without_twice(lines.skip(1), key);
        if !assigns(lines[0], key) {
            assert(w[0] == lines[0]);
            assert(w.skip(1) == without_key(lines.skip(1), key));
        }
    }
}

pub proof fn lemma_without_swap(lines: Seq<Seq<char>>, a: Seq<char>, b: Seq<char>)
    ensures
        without_key(without_key(lines, a), b) == without_key(without_key(lines, b), a),
    decreases lines.len(),
{
    if lines.len() > 0 && header_of(lines[0]) is None {
        lemma_without_swap(lines.skip(1), a, b);
        let wa = without_key(lines, a);
        let wb = without_key(lines, b);
        if !assigns(lines[0], a) {
            assert(wa[0] == lines[0]);
            assert(wa.skip(1) == without_key(lines.skip(1), a));
        }
        if !assigns(lines[0], b) {
            assert(wb[0] == lines[0]);
            assert(wb.skip(1) == without_key(lines.skip(1), b));
        }
    }
}

proof fn lemma_without_block(lines: Seq<Seq<char>>, block: Seq<Seq<char>>, key: Seq<char>)
    requires
        is_block(block),
    ensures
        without_key(with_block(lines, block), key) == with_block(without_key(lines, key), block),
        has_ours(without_key(lines, key)) == has_ours(lines),
    decreases lines.len(),
{
    let w = with_block(lines, block);
    let gone = without_key(lines, key);
    if lines.len() > 0 {
        if header_of(lines[0]) is Some {
            if opens_ours(lines[0]) {
                assert(w[0] == block[0]);
            } else {
                assert(w[0] == lines[0]);
            }
        } else {
            assert(w[0] == lines[0]);
            assert(w.skip(1) == with_block(lines.skip(1), block));
            lemma_without_block(lines.skip(1), block, key);
            let less = without_key(lines.skip(1), key);
            if !assigns(lines[0], key) {
                assert(gone[0] == lines[0]);
                assert(gone.skip(1) == less);
            }
            if has_ours(lines) {
                let i = choose|i: int| 0 <= i < lines.len() && #[trigger] opens_ours(lines[i]);
                assert(lines.skip(1)[i - 1] == lines[i]);
                let j = choose|j: int| 0 <= j < less.len() && #[trigger] opens_ours(less[j]);
                if assigns(lines[0], key) {
                    assert(opens_ours(gone[j]));
                } else {
                    assert(opens_ours(gone[j + 1]));
                }
            }
            if has_ours(gone) {
                let j = choose|j: int| 0 <= j < gone.len() && #[trigger] opens_ours(gone[j]);
                if assigns(lines[0], key) {
                    assert(opens_ours(less[j]));
                } else {
                    assert(opens_ours(less[j - 1]));
                }
                let i = choose|i: int|
                    0 <= i < lines.skip(1).len() && #[trigger] opens_ours(lines.skip(1)[i]);
                assert(opens_ours(lines[i + 1]));
            }
        }
    }
}

pub proof fn lemma_without_tail(lines: Seq<Seq<char>>, tail: Seq<Seq<char>>, key: Seq<char>)
    requires
        without_key(tail, key) == tail,
    ensures
        without_key(lines + tail, key) == without_key(lines, key) + tail,
    decreases lines.len(),
{
    let all = lines + tail;
    if lines.len() == 0 {
        assert(all == tail);
        assert(lines + tail == tail);
    } else {
        assert(all[0] == lines[0]);
        assert(all.skip(1) == lines.skip(1) + tail);
        lemma_without_tail(lines.skip(1), tail, key);
    }
}

pub proof fn lemma_foreign_block(block: Seq<Seq<char>>, rest: Seq<Seq<char>>, inside: bool)
    requires
        is_block(block),
    ensures
        foreign(block + rest, inside) == foreign(rest, true),
{
    let all = block + rest;
    assert(all[0] == block[0]);
    let one = all.skip(1);
    assert(one[0] == block[1]);
    let two = one.skip(1);
    assert(two[0] == block[2]);
    let three = two.skip(1);
    assert(three[0] == block[3]);
    let four = three.skip(1);
    assert(four[0] == block[4]);
    assert(four.skip(1) == rest);
    assert forall|i: int| 0 < i < 5 implies header_of(#[trigger] block[i]) is None by {}
    assert(foreign(four, true) == foreign(rest, true));
    assert(foreign(three, true) == foreign(rest, true));
    assert(foreign(two, true) == foreign(rest, true));
    assert(foreign(one, true) == foreign(rest, true));
}

proof fn lemma_foreign_with_block(lines: Seq<Seq<char>>, block: Seq<Seq<char>>)
    requires
        is_block(block),
    ensures
        foreign(with_block(lines, block), false) == foreign(lines, false),
    decreases lines.len(),
{
    let w = with_block(lines, block);
    if lines.len() > 0 {
        if opens_ours(lines[0]) {
            let rest = foreign(lines.skip(1), true);
            lemma_foreign_block(block, rest, false);
            lemma_foreign_again(lines.skip(1), true);
        } else {
            assert(w[0] == lines[0]);
            assert(w.skip(1) == with_block(lines.skip(1), block));
            lemma_foreign_with_block(lines.skip(1), block);
        }
    }
}

/// The first foreign line after the provider's lines is the header of another
/// section, so the lines that are left are foreign where they stand now.
proof fn lemma_foreign_again(lines: Seq<Seq<char>>, inside: bool)
    ensures
        foreign(foreign(lines, inside), inside) == foreign(lines, inside),
    decreases lines.len(),
{
    if lines.len() > 0 {
        let now = inside_after(inside, lines[0]);
        let rest = foreign(lines.skip(1), now);
        lemma_foreign_again(lines.skip(1), now);
        if now {
            if !inside {
                lemma_foreign_settled(lines.skip(1));
            }
        } else {
            let all = foreign(lines, inside);
            assert(all[0] == lines[0]);
            assert(all.skip(1) == rest);
        }
    }
}

/// Lines that are foreign after the provider's are foreign anywhere.
proof fn lemma_foreign_settled(lines: Seq<Seq<char>>)
    ensures
        foreign(foreign(lines, true), false) == foreign(lines, true),
    decreases lines.len(),
{
    if lines.len() > 0 {
        let now = inside_after(true, lines[0]);
        if now {
            lemma_foreign_settled(lines.skip(1));
        } else {
            let all = foreign(lines, true);
            assert(all[0] == lines[0]);
            assert(all.skip(1) == foreign(lines.skip(1), false));
            lemma_foreign_again(lines.skip(1), false);
        }
    }
}

pub proof fn lemma_foreign_none(lines: Seq<Seq<char>>, tail: Seq<Seq<char>>)
    requires
        !has_ours(lines),
    ensures
        foreign(lines + tail, false) == lines + foreign(tail, false),
    decreases lines.len(),
{
    let all = lines + tail;
    if lines.len() == 0 {
        assert(all == tail);
        assert(lines + foreign(tail, false) == foreign(tail, false));
    } else {
        assert(all[0] == lines[0]);
        assert(!opens_ours(lines[0]));
        assert(all.skip(1) == lines.skip(1) + tail);
        assert forall|i: int| 0 <= i < lines.skip(1).len() implies !#[trigger] opens_ours(
            lines.skip(1)[i],
        ) by {
            assert(lines.skip(1)[i] == lines[i + 1]);
        }
        lemma_foreign_none(lines.skip(1), tail);
    }
}

proof fn lemma_unrelated_merged(
    lines: Seq<Seq<char>>,
    model: Seq<char>,
    base_url: Seq<char>,
)
    ensures
        ({
            let kept = unrelated(merged_lines(lines, model, base_url));
            kept == unrelated(lines) || kept == unrelated(lines).push(Seq::empty())
        }),
{
    let a = "model"@;
    let p = "model_provider"@;
    let b = block_of(base_url);
    let one = with_key(lines, a, model_line(model));
    let two = with_key(one, p, provider_line());
    lemma_keys();
    lemma_lines_written(model, base_url);
    lemma_assignment(a, model);
    lemma_assignment(p, PROVIDER_ID@);
    lemma_without_own(lines, a, model_line(model));
    lemma_without_own(one, p, provider_line());
    lemma_without_swap(two, a, p);
    lemma_without_swap(one, a, p);
    let gone = without_key(without_key(two, a), p);
    assert(gone == without_key(without_key(lines, a), p));
    lemma_blank();
    lemma_without_block(two, b, a);
    lemma_without_block(without_key(two, a), b, p);
    if has_ours(two) {
        lemma_foreign_with_block(gone, b);
    } else {
        lemma_foreign_block(b, Seq::empty(), false);
        assert(b + Seq::<Seq<char>>::empty() == b);
        assert(without_key(b, a) == b);
        assert(without_key(b, p) == b);
        lemma_foreign_none(gone, Seq::empty());
        assert(gone + Seq::<Seq<char>>::empty() == gone);
        if two.len() > 0 && two.last().len() > 0 {
            let tail = seq![Seq::<char>::empty()] + b;
            assert(tail[0] == Seq::<char>::empty());
            assert(tail.skip(1) == b);
            assert(without_key(tail, a) == tail);
            assert(without_key(tail, p) == tail);
            assert(two + tail == two.push(Seq::empty()) + b);
            lemma_without_tail(two, tail, a);
            lemma_without_tail(without_key(two, a), tail, p);
            lemma_foreign_none(gone, tail);
            assert(foreign(tail, false) == seq![Seq::<char>::empty()]);
            assert(gone + seq![Seq::<char>::empty()] == gone.push(Seq::empty()));
        } else {
            lemma_without_tail(two, b, a);
            lemma_without_tail(without_key(two, a), b, p);
            lemma_foreign_none(gone, b);
        }
    }
}

/// An empty last line is one of the unrelated lines, or it belongs to the
/// provider.
proof fn lemma_unrelated_blank(lines: Seq<Seq<char>>)
    ensures
        ({
            let longer = unrelated(lines.push(Seq::empty()));
            longer == unrelated(lines) || longer == unrelated(lines).push(Seq::empty())
        }),
{
    let blank = seq![Seq::<char>::empty()];
    let a = "model"@;
    let p = "model_provider"@;
    lemma_keys();
    lemma_blank();
    let none = Seq::<Seq<char>>::empty();
    assert(blank[0] == Seq::<char>::empty());
    assert(blank.skip(1) == none);
    assert(without_key(none, a) == none);
    assert(without_key(none, p) == none);
    assert(without_key(blank, a) == blank);
    assert(without_key(blank, p) == blank);
    assert(lines.push(Seq::empty()) == lines + blank);
    lemma_without_tail(lines, blank, a);
    lemma_without_tail(without_key(lines, a), blank, p);
    let gone = without_key(without_key(lines, a), p);
    assert(gone + blank == gone.push(Seq::empty()));
    lemma_foreign_blank(gone, false);
}

proof fn lemma_foreign_blank(lines: Seq<Seq<char>>, inside: bool)
    ensures
        ({
            let longer = foreign(lines.push(Seq::empty()), inside);
            let kept = foreign(lines, inside);
            longer == kept || longer == kept.push(Seq::empty())
        }),
    decreases lines.len(),
{
    lemma_blank();
    let longer = lines.push(Seq::<char>::empty());
    if lines.len() == 0 {
        assert(longer.skip(1) == lines);
    } else {
        assert(longer[0] == lines[0]);
        assert(longer.skip(1) == lines.skip(1).push(Seq::empty()));
        lemma_foreign_blank(lines.skip(1), inside_after(inside, lines[0]));
        let rest = foreign(lines.skip(1), inside_after(inside, lines[0]));
        assert(seq![lines[0]] + rest.push(Seq::empty()) == (seq![lines[0]] + rest).push(
            Seq::empty(),
        ));
    }
}

proof fn lemma_unpadded_push(lines: Seq<Seq<char>>)
    ensures
        unpadded(lines.push(Seq::empty())) == unpadded(lines),
{
    assert(lines.push(Seq::<char>::empty()).drop_last() == lines);
}

/// Editing a configuration keeps every line that the settings are not about, and
/// their order. Only empty lines at the end may come or go.
pub proof fn law_config_keeps_unrelated(
    current: Seq<char>,
    model: Seq<char>,
    base_url: Seq<char>,
)
    requires
        breaks_stay(current, model, base_url),
        one_line(model),
        one_line(base_url),
    ensures
        unpadded(unrelated(lines_of(merged_config(current, model, base_url)))) == unpadded(
            unrelated(lines_of(current)),
        ),
{
    let lines = lines_of(current);
    let all = merged_lines(lines, model, base_url);
    lemma_unrelated_merged(lines, model, base_url);
    lemma_merged_text(current, model, base_url);
    lemma_unpadded_push(unrelated(lines));
    if all.last().len() == 0 {
        let short = all.drop_last();
        assert(all.last() =~= Seq::<char>::empty());
        assert(all == short.push(Seq::empty()));
        lemma_unrelated_blank(short);
        lemma_unpadded_push(unrelated(short));
    }
}

} // verus!
