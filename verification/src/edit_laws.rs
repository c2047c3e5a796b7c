//! How lists of lines are edited, told by the lines before and after the one that matters.

use vstd::prelude::*;
use crate::config_file::{
    assigns, block_of, foreign, has_ours, header_of, is_ours, merged_lines, model_line, opens_ours,
    provider_line, provider_url, top_value, url_line, value_of, with_block, with_key,
    with_provider, without_key, PROVIDER_ID,
};
use crate::env_file::{
    all_empty, first_value, key_line, line_key, line_value, others, replaced, sets, with_var,
};
use crate::lines::{
    closed_by, joined, lemma_joined_ends, lemma_lines_unbroken, lemma_newlines,
    lemma_split_unbroken, lines_of, newline_of, split_on, text_of_lines,
};
use crate::text::{contains_text, ends_in, find_spec, lemma_find};

verus! {

// ---------------------------------------------------------------------------
// Top-level keys
// ---------------------------------------------------------------------------

/// Whether no line opens a section.
pub open spec fn no_headers(lines: Seq<Seq<char>>) -> bool {
    forall|i: int| 0 <= i < lines.len() ==> header_of(#[trigger] lines[i]) is None
}

/// Whether the lines are over or go on with a section.
pub open spec fn headed(lines: Seq<Seq<char>>) -> bool {
    lines.len() > 0 ==> header_of(lines[0]) is Some
}

/// Whether no line assigns to a key.
pub open spec fn none_assigns(lines: Seq<Seq<char>>, key: Seq<char>) -> bool {
    forall|i: int| 0 <= i < lines.len() ==> !assigns(#[trigger] lines[i], key)
}

/// Setting a key puts the new line in the place of the first assignment before all sections,
/// keeps the lines before it, and drops the further assignments alone. Reading takes the
/// first assignment that has a value.
pub proof fn law_key_takes_the_place_of_the_first(
    a: Seq<Seq<char>>,
    x: Seq<char>,
    b: Seq<Seq<char>>,
    key: Seq<char>,
    rendered: Seq<char>,
)
    requires
        no_headers(a),
        none_assigns(a, key),
        header_of(x) is None,
        assigns(x, key),
    ensures
        with_key(a.push(x) + b, key, rendered) == a.push(rendered) + without_key(b, key),
        without_key(a.push(x) + b, key) == a + without_key(b, key),
        value_of(x) is Some ==> top_value(a.push(x) + b, key) == value_of(x),
    decreases a.len(),
{
    let all = a.push(x) + b;
    if a.len() == 0 {
        assert(all[0] == x);
        assert(all.skip(1) =~= b);
        assert(seq![rendered] + without_key(b, key) =~= a.push(rendered) + without_key(b, key));
        assert(a + without_key(b, key) =~= without_key(b, key));
    } else {
        let less = a.skip(1);
        assert(all[0] == a[0]);
        assert(all.skip(1) =~= less.push(x) + b);
        assert forall|i: int| 0 <= i < less.len() implies header_of(#[trigger] less[i]) is None by {
            assert(less[i] == a[i + 1]);
        }
        assert forall|i: int| 0 <= i < less.len() implies !assigns(#[trigger] less[i], key) by {
            assert(less[i] == a[i + 1]);
        }
        law_key_takes_the_place_of_the_first(less, x, b, key, rendered);
        assert(seq![a[0]] + (less.push(rendered) + without_key(b, key)) =~= a.push(rendered)
            + without_key(b, key));
        assert(seq![a[0]] + (less + without_key(b, key)) =~= a + without_key(b, key));
    }
}

/// A key that no line sets before the sections is added as the last line before them; nothing
/// else changes, and there is nothing to read. What stands in a section does not count.
pub proof fn law_new_key_goes_before_the_sections(
    a: Seq<Seq<char>>,
    rest: Seq<Seq<char>>,
    key: Seq<char>,
    rendered: Seq<char>,
)
    requires
        no_headers(a),
        none_assigns(a, key),
        headed(rest),
    ensures
        with_key(a + rest, key, rendered) == a.push(rendered) + rest,
        without_key(a + rest, key) == a + rest,
        top_value(a + rest, key) is None,
    decreases a.len(),
{
    let all = a + rest;
    if a.len() == 0 {
        assert(all =~= rest);
        assert(seq![rendered] + rest =~= a.push(rendered) + rest);
    } else {
        let less = a.skip(1);
        assert(all[0] == a[0]);
        assert(all.skip(1) =~= less + rest);
        assert forall|i: int| 0 <= i < less.len() implies header_of(#[trigger] less[i]) is None by {
            assert(less[i] == a[i + 1]);
        }
        assert forall|i: int| 0 <= i < less.len() implies !assigns(#[trigger] less[i], key) by {
            assert(less[i] == a[i + 1]);
        }
        law_new_key_goes_before_the_sections(less, rest, key, rendered);
        assert(seq![a[0]] + (less.push(rendered) + rest) =~= a.push(rendered) + rest);
        assert(seq![a[0]] + (less + rest) =~= all);
    }
}

// ---------------------------------------------------------------------------
// The provider's section
// ---------------------------------------------------------------------------

/// Whether no line opens a section of the provider.
pub open spec fn none_opens(lines: Seq<Seq<char>>) -> bool {
    forall|i: int| 0 <= i < lines.len() ==> !opens_ours(#[trigger] lines[i])
}

/// Whether the lines are over or go on with a section of somebody else.
pub open spec fn goes_on_elsewhere(lines: Seq<Seq<char>>) -> bool {
    lines.len() > 0 ==> header_of(lines[0]) is Some && !is_ours(header_of(lines[0])->0)
}

proof fn lemma_rest_opens_none(lines: Seq<Seq<char>>)
    requires
        none_opens(lines),
        lines.len() > 0,
    ensures
        none_opens(lines.skip(1)),
        !opens_ours(lines[0]),
{
    assert forall|i: int| 0 <= i < lines.skip(1).len() implies !opens_ours(
        #[trigger] lines.skip(1)[i],
    ) by {
        assert(lines.skip(1)[i] == lines[i + 1]);
    }
}

proof fn lemma_body_is_dropped(body: Seq<Seq<char>>, rest: Seq<Seq<char>>)
    requires
        no_headers(body),
    ensures
        foreign(body + rest, true) == foreign(rest, true),
    decreases body.len(),
{
    let all = body + rest;
    if body.len() == 0 {
        assert(all =~= rest);
    } else {
        let less = body.skip(1);
        assert(all[0] == body[0]);
        assert(header_of(body[0]) is None);
        assert(all.skip(1) =~= less + rest);
        assert forall|i: int| 0 <= i < less.len() implies header_of(#[trigger] less[i]) is None by {
            assert(less[i] == body[i + 1]);
        }
        lemma_body_is_dropped(less, rest);
    }
}

proof fn lemma_foreign_stays(rest: Seq<Seq<char>>, inside: bool)
    requires
        none_opens(rest),
        inside ==> goes_on_elsewhere(rest),
    ensures
        foreign(rest, inside) == rest,
    decreases rest.len(),
{
    if rest.len() > 0 {
        lemma_rest_opens_none(rest);
        lemma_foreign_stays(rest.skip(1), false);
        assert(seq![rest[0]] + rest.skip(1) =~= rest);
    }
}

/// The section of the provider, from its header to the next header of somebody else, gives way
/// to the new one; what stands before and after it stays.
pub proof fn law_section_gives_way(
    a: Seq<Seq<char>>,
    h: Seq<char>,
    body: Seq<Seq<char>>,
    rest: Seq<Seq<char>>,
    block: Seq<Seq<char>>,
)
    requires
        none_opens(a),
        opens_ours(h),
        no_headers(body),
    ensures
        with_provider(a.push(h) + body + rest, block) == a + block + foreign(rest, true),
        none_opens(rest) && goes_on_elsewhere(rest) ==> with_provider(
            a.push(h) + body + rest,
            block,
        ) == a + block + rest,
        rest.len() > 0 && opens_ours(rest[0]) ==> foreign(rest, true) == foreign(
            rest.skip(1),
            true,
        ),
{
    let all = a.push(h) + body + rest;
    assert(all[a.len() as int] == h);
    assert(has_ours(all));
    lemma_block_goes_in(a, h, body + rest, block);
    assert(a.push(h) + (body + rest) =~= all);
    lemma_body_is_dropped(body, rest);
    assert(a + (block + foreign(rest, true)) =~= a + block + foreign(rest, true));
    if none_opens(rest) && goes_on_elsewhere(rest) {
        lemma_foreign_stays(rest, true);
    }
}

proof fn lemma_block_goes_in(
    a: Seq<Seq<char>>,
    h: Seq<char>,
    more: Seq<Seq<char>>,
    block: Seq<Seq<char>>,
)
    requires
        none_opens(a),
        opens_ours(h),
    ensures
        with_block(a.push(h) + more, block) == a + (block + foreign(more, true)),
    decreases a.len(),
{
    let all = a.push(h) + more;
    if a.len() == 0 {
        assert(all[0] == h);
        assert(all.skip(1) =~= more);
        assert(a + (block + foreign(more, true)) =~= block + foreign(more, true));
    } else {
        lemma_rest_opens_none(a);
        assert(all[0] == a[0]);
        assert(all.skip(1) =~= a.skip(1).push(h) + more);
        lemma_block_goes_in(a.skip(1), h, more, block);
        assert(seq![a[0]] + (a.skip(1) + (block + foreign(more, true))) =~= a + (block + foreign(
            more,
            true,
        )));
    }
}

/// Where the provider has no section, the new one goes to the end, after an empty line unless
/// there is one or nothing stands before. Then there is no address to read either.
pub proof fn law_new_section_goes_to_the_end(lines: Seq<Seq<char>>, block: Seq<Seq<char>>)
    requires
        none_opens(lines),
    ensures
        lines.len() == 0 ==> with_provider(lines, block) == block,
        lines.len() > 0 && lines.last().len() == 0 ==> with_provider(lines, block) == lines
            + block,
        lines.len() > 0 && lines.last().len() > 0 ==> with_provider(lines, block) == lines
            + seq![Seq::<char>::empty()] + block,
        provider_url(lines) is None,
{
    assert(!has_ours(lines));
    assert(lines.len() == 0 ==> lines + block =~= block);
    assert(lines.push(Seq::<char>::empty()) =~= lines + seq![Seq::<char>::empty()]);
    lemma_no_url(lines);
}

proof fn lemma_no_url(lines: Seq<Seq<char>>)
    requires
        none_opens(lines),
    ensures
        url_line(lines, false) is None,
    decreases lines.len(),
{
    if lines.len() > 0 {
        lemma_rest_opens_none(lines);
        lemma_no_url(lines.skip(1));
    }
}

/// The address of the provider is read from the first assignment to `base_url` in its section;
/// what stands before that section does not count.
pub proof fn law_address_is_read_from_the_section(
    a: Seq<Seq<char>>,
    h: Seq<char>,
    b: Seq<Seq<char>>,
    u: Seq<char>,
    rest: Seq<Seq<char>>,
)
    requires
        none_opens(a),
        opens_ours(h),
        no_headers(b),
        none_assigns(b, "base_url"@),
        header_of(u) is None,
        assigns(u, "base_url"@),
    ensures
        provider_url(a.push(h) + (b.push(u) + rest)) == value_of(u),
{
    lemma_url_in_section(b, u, rest);
    lemma_url_after(a, h, b.push(u) + rest);
}

proof fn lemma_url_in_section(b: Seq<Seq<char>>, u: Seq<char>, rest: Seq<Seq<char>>)
    requires
        no_headers(b),
        none_assigns(b, "base_url"@),
        header_of(u) is None,
        assigns(u, "base_url"@),
    ensures
        url_line(b.push(u) + rest, true) == Some(u),
    decreases b.len(),
{
    let all = b.push(u) + rest;
    if b.len() == 0 {
        assert(all[0] == u);
    } else {
        let less = b.skip(1);
        assert(all[0] == b[0]);
        assert(header_of(b[0]) is None);
        assert(!assigns(b[0], "base_url"@));
        assert(all.skip(1) =~= less.push(u) + rest);
        assert forall|i: int| 0 <= i < less.len() implies header_of(#[trigger] less[i]) is None by {
            assert(less[i] == b[i + 1]);
        }
        assert forall|i: int| 0 <= i < less.len() implies !assigns(
            #[trigger] less[i],
            "base_url"@,
        ) by {
            assert(less[i] == b[i + 1]);
        }
        lemma_url_in_section(less, u, rest);
    }
}

proof fn lemma_url_after(a: Seq<Seq<char>>, h: Seq<char>, more: Seq<Seq<char>>)
    requires
        none_opens(a),
        opens_ours(h),
    ensures
        url_line(a.push(h) + more, false) == url_line(more, true),
    decreases a.len(),
{
    let all = a.push(h) + more;
    if a.len() == 0 {
        assert(all[0] == h);
        assert(all.skip(1) =~= more);
    } else {
        lemma_rest_opens_none(a);
        assert(all[0] == a[0]);
        assert(all.skip(1) =~= a.skip(1).push(h) + more);
        lemma_url_after(a.skip(1), h, more);
    }
}

/// The lines that are written, spelled out.
pub proof fn law_written_lines_are_these(model: Seq<char>, base_url: Seq<char>, key: Seq<char>)
    ensures
        block_of(base_url).len() == 5,
        block_of(base_url)[0] == "[model_providers.yxrobot]"@,
        block_of(base_url)[1] == "name = \"公司 AI 网关\""@,
        block_of(base_url)[2] == "base_url = \""@ + base_url + "\""@,
        block_of(base_url)[3] == "env_key = \"YXROBOT_API_KEY\""@,
        block_of(base_url)[4] == "wire_api = \"responses\""@,
        model_line(model) == "model = \""@ + model + "\""@,
        provider_line() == "model_provider = \"yxrobot\""@,
        key_line(key) == "YXROBOT_API_KEY="@ + key,
{
    reveal_strlit("[model_providers.yxrobot]");
    reveal_strlit("[model_providers.");
    reveal_strlit("yxrobot");
    reveal_strlit("]");
    reveal_strlit("name = \"公司 AI 网关\"");
    reveal_strlit("name = \"");
    reveal_strlit("公司 AI 网关");
    reveal_strlit("\"");
    reveal_strlit("env_key = \"YXROBOT_API_KEY\"");
    reveal_strlit("env_key = \"");
    reveal_strlit("YXROBOT_API_KEY");
    reveal_strlit("model_provider = \"yxrobot\"");
    reveal_strlit("model_provider = \"");
    reveal_strlit("YXROBOT_API_KEY=");
    reveal_strlit("=");
    assert(block_of(base_url)[0] =~= "[model_providers.yxrobot]"@);
    assert(block_of(base_url)[1] =~= "name = \"公司 AI 网关\""@);
    assert(block_of(base_url)[3] =~= "env_key = \"YXROBOT_API_KEY\""@);
    assert(provider_line() =~= "model_provider = \"yxrobot\""@);
    assert(key_line(key) =~= "YXROBOT_API_KEY="@ + key);
}

/// A whole edit of lines without any section: the two keys stand before what is there, in
/// place of what they had or at the end, and the provider's section comes last.
pub proof fn law_edit_of_plain_lines(lines: Seq<Seq<char>>, model: Seq<char>, base_url: Seq<char>)
    requires
        no_headers(lines),
        none_assigns(lines, "model"@),
        none_assigns(lines, "model_provider"@),
    ensures
        merged_lines(lines, model, base_url) == lines + seq![
            "model = \""@ + model + "\""@,
            "model_provider = \"yxrobot\""@,
            Seq::<char>::empty(),
        ] + block_of(base_url),
{
    let none = Seq::<Seq<char>>::empty();
    crate::config_laws::lemma_lines_written(model, base_url);
    crate::config_laws::lemma_keys();
    crate::config_laws::lemma_assignment("model"@, model);
    crate::config_laws::lemma_assignment("model_provider"@, PROVIDER_ID@);
    law_written_lines_are_these(model, base_url, Seq::empty());
    assert(!assigns(model_line(model), "model_provider"@));
    law_new_key_goes_before_the_sections(lines, none, "model"@, model_line(model));
    assert(lines + none =~= lines);
    let one = lines.push(model_line(model));
    assert(one + none =~= one);
    assert forall|i: int| 0 <= i < one.len() implies header_of(#[trigger] one[i]) is None
        && !assigns(one[i], "model_provider"@) by {
        if i < lines.len() {
            assert(one[i] == lines[i]);
        }
    }
    law_new_key_goes_before_the_sections(one, none, "model_provider"@, provider_line());
    let two = one.push(provider_line());
    assert(two + none =~= two);
    assert forall|i: int| 0 <= i < two.len() implies !opens_ours(#[trigger] two[i]) by {
        if i < one.len() {
            assert(two[i] == one[i]);
            assert(header_of(one[i]) is None);
        }
    }
    assert(two.last().len() > 0);
    law_new_section_goes_to_the_end(two, block_of(base_url));
    assert(two + seq![Seq::<char>::empty()] =~= lines + seq![
        model_line(model),
        provider_line(),
        Seq::<char>::empty(),
    ]);
}

// ---------------------------------------------------------------------------
// Variables of an environment file
// ---------------------------------------------------------------------------

/// Whether no line assigns to a variable.
pub open spec fn none_sets(lines: Seq<Seq<char>>, key: Seq<char>) -> bool {
    forall|i: int| 0 <= i < lines.len() ==> line_key(#[trigger] lines[i]) != Some(key)
}

/// Setting a variable puts the new line in the place of the first assignment, keeps the lines
/// before it, and drops the further assignments alone. Reading takes the first assignment
/// that has a value.
pub proof fn law_variable_takes_the_place_of_the_first(
    a: Seq<Seq<char>>,
    x: Seq<char>,
    b: Seq<Seq<char>>,
    key: Seq<char>,
    rendered: Seq<char>,
)
    requires
        none_sets(a, key),
        line_key(x) == Some(key),
    ensures
        with_var(a.push(x) + b, key, rendered) == a.push(rendered) + others(b, key),
        others(a.push(x) + b, key) == a + others(b, key),
        line_value(x) is Some ==> first_value(a.push(x) + b, key) == line_value(x),
{
    let all = a.push(x) + b;
    assert(all[a.len() as int] == x);
    assert(sets(all, key));
    lemma_replaced(a, x, b, key, rendered);
}

proof fn lemma_replaced(
    a: Seq<Seq<char>>,
    x: Seq<char>,
    b: Seq<Seq<char>>,
    key: Seq<char>,
    rendered: Seq<char>,
)
    requires
        none_sets(a, key),
        line_key(x) == Some(key),
    ensures
        replaced(a.push(x) + b, key, rendered) == a.push(rendered) + others(b, key),
        others(a.push(x) + b, key) == a + others(b, key),
        line_value(x) is Some ==> first_value(a.push(x) + b, key) == line_value(x),
    decreases a.len(),
{
    let all = a.push(x) + b;
    if a.len() == 0 {
        assert(all[0] == x);
        assert(all.skip(1) =~= b);
        assert(seq![rendered] + others(b, key) =~= a.push(rendered) + others(b, key));
        assert(a + others(b, key) =~= others(b, key));
    } else {
        let less = a.skip(1);
        assert(all[0] == a[0]);
        assert(line_key(a[0]) != Some(key));
        assert(all.skip(1) =~= less.push(x) + b);
        assert forall|i: int| 0 <= i < less.len() implies line_key(#[trigger] less[i]) != Some(
            key,
        ) by {
            assert(less[i] == a[i + 1]);
        }
        lemma_replaced(less, x, b, key, rendered);
        assert(seq![a[0]] + (less.push(rendered) + others(b, key)) =~= a.push(rendered) + others(
            b,
            key,
        ));
        assert(seq![a[0]] + (less + others(b, key)) =~= a + others(b, key));
    }
}

/// A variable that no line sets goes to the end, after an empty line unless there is one; where
/// all lines are empty they give way. Then there is nothing to read, and no line is dropped.
pub proof fn law_new_variable_goes_to_the_end(
    lines: Seq<Seq<char>>,
    key: Seq<char>,
    rendered: Seq<char>,
)
    requires
        none_sets(lines, key),
    ensures
        others(lines, key) == lines,
        first_value(lines, key) is None,
        lines.len() == 0 ==> with_var(lines, key, rendered) == seq![rendered],
        all_empty(lines) ==> with_var(lines, key, rendered) == seq![rendered],
        lines.len() > 0 && lines.last().len() > 0 ==> with_var(lines, key, rendered) == lines
            + seq![Seq::<char>::empty(), rendered],
        lines.len() > 0 && lines.last().len() == 0 && !all_empty(lines) ==> with_var(
            lines,
            key,
            rendered,
        ) == lines + seq![rendered],
{
    assert(!sets(lines, key));
    lemma_none_set(lines, key);
    assert(lines.push(Seq::<char>::empty()).push(rendered) =~= lines + seq![
        Seq::<char>::empty(),
        rendered,
    ]);
    assert(lines.push(rendered) =~= lines + seq![rendered]);
}

proof fn lemma_none_set(lines: Seq<Seq<char>>, key: Seq<char>)
    requires
        none_sets(lines, key),
    ensures
        others(lines, key) == lines,
        first_value(lines, key) is None,
    decreases lines.len(),
{
    if lines.len() > 0 {
        let less = lines.skip(1);
        assert(line_key(lines[0]) != Some(key));
        assert forall|i: int| 0 <= i < less.len() implies line_key(#[trigger] less[i]) != Some(
            key,
        ) by {
            assert(less[i] == lines[i + 1]);
        }
        lemma_none_set(less, key);
        assert(seq![lines[0]] + less =~= lines);
    }
}

// ---------------------------------------------------------------------------
// Putting lines together
// ---------------------------------------------------------------------------

/// Lines are put together with the line break between them and one at the end, but the text
/// of no lines is empty.
pub proof fn law_lines_are_put_together(lines: Seq<Seq<char>>, x: Seq<char>, newline: Seq<char>)
    ensures
        text_of_lines(Seq::empty(), newline) == Seq::<char>::empty(),
        joined(seq![x], newline) == x,
        lines.len() > 0 ==> joined(lines.push(x), newline) == joined(lines, newline) + newline + x,
        x.len() > 0 && !ends_in(x, newline) ==> text_of_lines(seq![x], newline) == x + newline,
        closed_by(x, newline).len() >= x.len(),
    decreases lines.len(),
{
    assert(seq![x][0] == x);
    if lines.len() > 0 {
        let all = lines.push(x);
        assert(all[0] == lines[0]);
        if lines.len() == 1 {
            assert(all.skip(1) =~= seq![x]);
            assert(lines[0] + newline + x == joined(lines, newline) + newline + x);
        } else {
            let less = lines.skip(1);
            law_lines_are_put_together(less, x, newline);
            assert(all.skip(1) =~= less.push(x));
            assert(lines[0] + newline + (joined(less, newline) + newline + x) =~= lines[0]
                + newline + joined(less, newline) + newline + x);
        }
    }
}

proof fn lemma_pieces_make_the_text(s: Seq<char>, sep: Seq<char>)
    requires
        sep.len() > 0,
    ensures
        split_on(s, sep).len() > 0,
        joined(split_on(s, sep), sep) == s,
    decreases s.len(),
{
    lemma_find(s, sep);
    match find_spec(s, sep) {
        Some(i) => {
            let tail = s.skip(i + sep.len());
            lemma_pieces_make_the_text(tail, sep);
            let rest = split_on(tail, sep);
            let all = seq![s.take(i)] + rest;
            assert(all[0] == s.take(i));
            assert(all.skip(1) =~= rest);
            assert(s.subrange(i, i + sep.len()) == sep);
            assert(s =~= s.take(i) + s.subrange(i, i + sep.len()) + tail);
        },
        None => {
            assert(seq![s][0] == s);
        },
    }
}

/// The lines of a text, put together again with its line break, are the text, but for a line
/// break at its end; and no line holds that line break.
pub proof fn law_lines_stand_between_line_breaks(text: Seq<char>, i: int)
    requires
        text.len() > 0,
    ensures
        ({
            let newline = newline_of(text);
            let lines = lines_of(text);
            &&& ends_in(text, newline) ==> text == joined(lines, newline) + newline
            &&& !ends_in(text, newline) ==> text == joined(lines, newline)
            &&& lines.len() > 0
            &&& 0 <= i < lines.len() ==> !contains_text(lines[i], newline)
        }),
        lines_of(Seq::empty()).len() == 0,
{
    let newline = newline_of(text);
    lemma_newlines();
    lemma_lines_unbroken(text);
    let parts = split_on(text, newline);
    lemma_pieces_make_the_text(text, newline);
    lemma_split_unbroken(text, newline);
    lemma_joined_ends(parts, newline);
    if ends_in(text, newline) {
        let lines = parts.drop_last();
        assert(lines.push(parts.last()) =~= parts);
        law_lines_are_put_together(lines, parts.last(), newline);
        assert(joined(lines, newline) + newline + parts.last() =~= joined(lines, newline)
            + newline);
    }
}

} // verus!
