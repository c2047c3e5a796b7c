//! What saving the same settings once more does: no line changes.

use vstd::prelude::*;
use crate::config_file::{
    assigns, block_of, foreign, has_ours, header_of, inside_after, merged_config, merged_lines,
    model_line, opens_ours, provider_line, with_block, with_key, without_key, ENV_KEY, PROVIDER_ID,
};
use crate::config_laws::{
    apart, breaks_stay, is_block, lemma_assignment, lemma_blank, lemma_foreign_block,
    lemma_foreign_none, lemma_keys, lemma_lines_written, lemma_merged_text, lemma_without_swap,
    lemma_without_tail, lemma_without_twice, one_line,
};
use crate::env_file::{
    all_empty, env_breaks_stay, key_line, lemma_blank_line, lemma_env_text, lemma_key_line,
    line_key, merged_env, others, replaced, sets, with_var,
};
use crate::lines::{
    joined, lemma_joined_ends, lemma_joined_push_empty, lemma_lines_of_text, lemma_lines_unbroken,
    lines_of, newline_of, text_of_lines, unbroken,
};
use crate::text::{contains_text, ends_in};

verus! {

// ---------------------------------------------------------------------------
// Top-level keys
// ---------------------------------------------------------------------------

/// Whether setting a key to what is given changes nothing.
pub open spec fn key_is_set(lines: Seq<Seq<char>>, key: Seq<char>, rendered: Seq<char>) -> bool {
    with_key(lines, key, rendered) == lines
}

proof fn lemma_key_becomes_set(lines: Seq<Seq<char>>, key: Seq<char>, rendered: Seq<char>)
    requires
        assigns(rendered, key),
        header_of(rendered) is None,
    ensures
        key_is_set(with_key(lines, key, rendered), key, rendered),
    decreases lines.len(),
{
    let w = with_key(lines, key, rendered);
    if lines.len() == 0 || header_of(lines[0]) is Some {
        assert(w[0] == rendered);
        assert(w.skip(1) == lines);
    } else if assigns(lines[0], key) {
        assert(w[0] == rendered);
        assert(w.skip(1) == without_key(lines.skip(1), key));
        lemma_without_twice(lines.skip(1), key);
    } else {
        lemma_key_becomes_set(lines.skip(1), key, rendered);
        assert(w[0] == lines[0]);
        assert(w.skip(1) == with_key(lines.skip(1), key, rendered));
    }
}

/// A key that is set is assigned to, before any section.
proof fn lemma_set_key_stands(lines: Seq<Seq<char>>, key: Seq<char>, rendered: Seq<char>)
    requires
        key_is_set(lines, key, rendered),
    ensures
        lines.len() > 0,
        header_of(lines[0]) is None,
        assigns(lines[0], key) ==> lines[0] == rendered && without_key(lines.skip(1), key)
            == lines.skip(1),
        !assigns(lines[0], key) ==> key_is_set(lines.skip(1), key, rendered),
{
    let w = with_key(lines, key, rendered);
    if lines.len() == 0 || header_of(lines[0]) is Some {
        assert(w.len() == lines.len() + 1);
    } else if assigns(lines[0], key) {
        assert(w.skip(1) == without_key(lines.skip(1), key));
        assert(w[0] == rendered);
    } else {
        assert(w.skip(1) == with_key(lines.skip(1), key, rendered));
    }
}

proof fn lemma_without_with(
    lines: Seq<Seq<char>>,
    gone: Seq<char>,
    key: Seq<char>,
    rendered: Seq<char>,
)
    requires
        apart(gone, key),
        apart(key, gone),
        assigns(rendered, key),
        header_of(rendered) is None,
    ensures
        without_key(with_key(lines, key, rendered), gone) == with_key(
            without_key(lines, gone),
            key,
            rendered,
        ),
    decreases lines.len(),
{
    let w = with_key(lines, key, rendered);
    let less = without_key(lines, gone);
    if lines.len() == 0 || header_of(lines[0]) is Some {
        assert(w[0] == rendered);
        assert(w.skip(1) == lines);
    } else if assigns(lines[0], key) {
        assert(w[0] == rendered);
        assert(w.skip(1) == without_key(lines.skip(1), key));
        lemma_without_swap(lines.skip(1), gone, key);
        assert(less[0] == lines[0]);
        assert(less.skip(1) == without_key(lines.skip(1), gone));
    } else {
        lemma_without_with(lines.skip(1), gone, key, rendered);
        assert(w[0] == lines[0]);
        assert(w.skip(1) == with_key(lines.skip(1), key, rendered));
        if !assigns(lines[0], gone) {
            assert(less[0] == lines[0]);
            assert(less.skip(1) == without_key(lines.skip(1), gone));
        }
    }
}

proof fn lemma_set_key_survives_removal(
    lines: Seq<Seq<char>>,
    gone: Seq<char>,
    key: Seq<char>,
    rendered: Seq<char>,
)
    requires
        apart(gone, key),
        apart(key, gone),
        assigns(rendered, key),
        header_of(rendered) is None,
        key_is_set(lines, key, rendered),
    ensures
        key_is_set(without_key(lines, gone), key, rendered),
{
    lemma_without_with(lines, gone, key, rendered);
}

proof fn lemma_set_key_survives(
    lines: Seq<Seq<char>>,
    key: Seq<char>,
    rendered: Seq<char>,
    other: Seq<char>,
    line: Seq<char>,
)
    requires
        apart(other, key),
        apart(key, other),
        assigns(rendered, key),
        header_of(rendered) is None,
        assigns(line, other),
        header_of(line) is None,
        key_is_set(lines, key, rendered),
    ensures
        key_is_set(with_key(lines, other, line), key, rendered),
    decreases lines.len(),
{
    lemma_set_key_stands(lines, key, rendered);
    let w = with_key(lines, other, line);
    let rest = lines.skip(1);
    if assigns(lines[0], key) {
        assert(w[0] == rendered);
        assert(w.skip(1) == with_key(rest, other, line));
        lemma_without_with(rest, key, other, line);
    } else if assigns(lines[0], other) {
        assert(w[0] == line);
        assert(w.skip(1) == without_key(rest, other));
        lemma_set_key_survives_removal(rest, other, key, rendered);
    } else {
        lemma_set_key_survives(rest, key, rendered, other, line);
        assert(w[0] == lines[0]);
        assert(w.skip(1) == with_key(rest, other, line));
    }
}

/// A key is set before the first section, whatever follows there.
proof fn lemma_key_before_section(
    lines: Seq<Seq<char>>,
    tail: Seq<Seq<char>>,
    key: Seq<char>,
    rendered: Seq<char>,
)
    requires
        tail.len() > 0,
        header_of(tail[0]) is Some,
    ensures
        with_key(lines + tail, key, rendered) == with_key(lines, key, rendered) + tail,
    decreases lines.len(),
{
    let all = lines + tail;
    if lines.len() == 0 {
        assert(all == tail);
        assert(seq![rendered] + tail == (seq![rendered] + lines) + tail);
    } else {
        assert(all[0] == lines[0]);
        assert(all.skip(1) == lines.skip(1) + tail);
        if header_of(lines[0]) is Some {
            assert(seq![rendered] + all == (seq![rendered] + lines) + tail);
        } else if assigns(lines[0], key) {
            lemma_without_tail(lines.skip(1), tail, key);
        } else {
            lemma_key_before_section(lines.skip(1), tail, key, rendered);
        }
    }
}

proof fn lemma_set_key_before_blank(
    lines: Seq<Seq<char>>,
    key: Seq<char>,
    rendered: Seq<char>,
)
    requires
        key.len() > 0,
        key_is_set(lines, key, rendered),
    ensures
        key_is_set(lines.push(Seq::empty()), key, rendered),
    decreases lines.len(),
{
    lemma_blank();
    lemma_set_key_stands(lines, key, rendered);
    let longer = lines.push(Seq::<char>::empty());
    let rest = lines.skip(1);
    assert(longer[0] == lines[0]);
    assert(longer.skip(1) == rest.push(Seq::empty()));
    if assigns(lines[0], key) {
        let tail = seq![Seq::<char>::empty()];
        let none = Seq::<Seq<char>>::empty();
        assert(tail[0] == Seq::<char>::empty());
        assert(tail.skip(1) == none);
        assert(without_key(none, key) == none);
        assert(without_key(tail, key) == tail);
        lemma_without_tail(rest, tail, key);
        assert(rest + tail == rest.push(Seq::empty()));
    } else {
        lemma_set_key_before_blank(rest, key, rendered);
    }
}

// ---------------------------------------------------------------------------
// The provider's section
// ---------------------------------------------------------------------------

/// What stands before and after the one section of the provider: nothing of the
/// provider's, and after it another section begins.
pub open spec fn surrounds(before: Seq<Seq<char>>, after: Seq<Seq<char>>) -> bool {
    &&& !has_ours(before)
    &&& !has_ours(after)
    &&& after.len() > 0 ==> header_of(after[0]) is Some
}

proof fn lemma_foreign_is_clean(lines: Seq<Seq<char>>, inside: bool)
    ensures
        !has_ours(foreign(lines, inside)),
        inside && foreign(lines, inside).len() > 0 ==> header_of(foreign(lines, inside)[0]) is Some,
    decreases lines.len(),
{
    if lines.len() > 0 {
        let now = inside_after(inside, lines[0]);
        let rest = foreign(lines.skip(1), now);
        lemma_foreign_is_clean(lines.skip(1), now);
        if !now {
            let all = foreign(lines, inside);
            assert forall|i: int| 0 <= i < all.len() implies !#[trigger] opens_ours(all[i]) by {
                if i > 0 {
                    assert(all[i] == rest[i - 1]);
                }
            }
        }
    }
}

/// Where the section of the provider comes to stand.
proof fn lemma_block_place(lines: Seq<Seq<char>>, block: Seq<Seq<char>>) -> (r: (
    int,
    Seq<Seq<char>>,
))
    requires
        has_ours(lines),
    ensures
        0 <= r.0 < lines.len(),
        opens_ours(lines[r.0]),
        surrounds(lines.take(r.0), r.1),
        with_block(lines, block) == lines.take(r.0) + block + r.1,
    decreases lines.len(),
{
    let rest = lines.skip(1);
    if opens_ours(lines[0]) {
        let after = foreign(rest, true);
        lemma_foreign_is_clean(rest, true);
        assert(lines.take(0) + block + after == block + after);
        (0, after)
    } else {
        let i = choose|i: int| 0 <= i < lines.len() && #[trigger] opens_ours(lines[i]);
        assert(rest[i - 1] == lines[i]);
        let (n, after) = lemma_block_place(rest, block);
        let before = lines.take(n + 1);
        assert(before =~= seq![lines[0]] + rest.take(n));
        assert forall|k: int| 0 <= k < before.len() implies !#[trigger] opens_ours(before[k]) by {
            if k > 0 {
                assert(before[k] == rest.take(n)[k - 1]);
            }
        }
        assert(rest[n] == lines[n + 1]);
        assert(with_block(lines, block) =~= before + block + after);
        (n + 1, after)
    }
}

/// Where the provider has its one section, putting it there changes nothing.
proof fn lemma_block_stays(
    before: Seq<Seq<char>>,
    block: Seq<Seq<char>>,
    after: Seq<Seq<char>>,
)
    requires
        is_block(block),
        surrounds(before, after),
    ensures
        has_ours(before + block + after),
        with_block(before + block + after, block) == before + block + after,
    decreases before.len(),
{
    let all = before + block + after;
    assert(all[before.len() as int] == block[0]);
    assert(opens_ours(all[before.len() as int]));
    if before.len() == 0 {
        assert(all == block + after);
        assert(all[0] == block[0]);
        lemma_foreign_block(block, after, true);
        lemma_foreign_none(after, Seq::empty());
        assert(after + Seq::<Seq<char>>::empty() == after);
        assert(foreign(after, false) == after);
        if after.len() > 0 {
            assert(!opens_ours(after[0]));
        }
        assert(foreign(after, true) == after);
        assert(foreign(all.skip(1), true) == after);
    } else {
        let rest = before.skip(1);
        assert(all[0] == before[0]);
        assert(!opens_ours(before[0]));
        assert(all.skip(1) == rest + block + after);
        assert forall|i: int| 0 <= i < rest.len() implies !#[trigger] opens_ours(rest[i]) by {
            assert(rest[i] == before[i + 1]);
        }
        lemma_block_stays(rest, block, after);
    }
}

// ---------------------------------------------------------------------------
// The whole configuration
// ---------------------------------------------------------------------------

/// Lines whose model and provider are set, in three parts: what stands before the
/// section of the provider, the section, and what stands after it.
pub open spec fn in_place(
    before: Seq<Seq<char>>,
    after: Seq<Seq<char>>,
    model: Seq<char>,
) -> bool {
    &&& surrounds(before, after)
    &&& key_is_set(before, "model"@, model_line(model))
    &&& key_is_set(before, "model_provider"@, provider_line())
}

proof fn lemma_in_place_stays(
    before: Seq<Seq<char>>,
    after: Seq<Seq<char>>,
    model: Seq<char>,
    base_url: Seq<char>,
)
    requires
        in_place(before, after, model),
    ensures
        ({
            let all = before + block_of(base_url) + after;
            merged_lines(all, model, base_url) == all
        }),
{
    let b = block_of(base_url);
    let all = before + b + after;
    let tail = b + after;
    lemma_lines_written(model, base_url);
    assert(all == before + tail);
    assert(tail[0] == b[0]);
    lemma_key_before_section(before, tail, "model"@, model_line(model));
    lemma_key_before_section(before, tail, "model_provider"@, provider_line());
    lemma_block_stays(before, b, after);
}

proof fn lemma_merged_in_place(
    lines: Seq<Seq<char>>,
    model: Seq<char>,
    base_url: Seq<char>,
) -> (r: (Seq<Seq<char>>, Seq<Seq<char>>))
    ensures
        in_place(r.0, r.1, model),
        merged_lines(lines, model, base_url) == r.0 + block_of(base_url) + r.1,
{
    let k = "model"@;
    let p = "model_provider"@;
    let b = block_of(base_url);
    let one = with_key(lines, k, model_line(model));
    let two = with_key(one, p, provider_line());
    lemma_keys();
    lemma_lines_written(model, base_url);
    lemma_assignment(k, model);
    lemma_assignment(p, PROVIDER_ID@);
    lemma_key_becomes_set(lines, k, model_line(model));
    lemma_set_key_survives(one, k, model_line(model), p, provider_line());
    lemma_key_becomes_set(one, p, provider_line());
    if has_ours(two) {
        let (n, after) = lemma_block_place(two, b);
        let before = two.take(n);
        let tail = two.skip(n);
        assert(two == before + tail);
        assert(tail[0] == two[n]);
        lemma_key_before_section(before, tail, k, model_line(model));
        lemma_key_before_section(before, tail, p, provider_line());
        lemma_same_front(with_key(before, k, model_line(model)), before, tail);
        lemma_same_front(with_key(before, p, provider_line()), before, tail);
        (before, after)
    } else {
        let none = Seq::<Seq<char>>::empty();
        if two.len() > 0 && two.last().len() > 0 {
            let before = two.push(Seq::empty());
            lemma_set_key_before_blank(two, k, model_line(model));
            lemma_set_key_before_blank(two, p, provider_line());
            lemma_blank();
            assert forall|i: int| 0 <= i < before.len() implies !#[trigger] opens_ours(
                before[i],
            ) by {
                if i < two.len() {
                    assert(before[i] == two[i]);
                }
            }
            assert(before + b + none == before + b);
            (before, none)
        } else {
            assert(two + b + none == two + b);
            (two, none)
        }
    }
}

proof fn lemma_same_front(a: Seq<Seq<char>>, b: Seq<Seq<char>>, tail: Seq<Seq<char>>)
    requires
        a + tail == b + tail,
    ensures
        a == b,
{
    let n = a.len() as int;
    assert((a + tail).len() == a.len() + tail.len());
    assert((b + tail).len() == b.len() + tail.len());
    assert(a == (a + tail).take(n));
    assert(b == (b + tail).take(n));
}

/// Setting the same model and the same address once more changes no line, whatever they
/// hold.
pub proof fn law_setting_again_changes_no_line(
    lines: Seq<Seq<char>>,
    model: Seq<char>,
    base_url: Seq<char>,
)
    ensures
        ({
            let once = merged_lines(lines, model, base_url);
            merged_lines(once, model, base_url) == once
        }),
{
    let (before, after) = lemma_merged_in_place(lines, model, base_url);
    lemma_in_place_stays(before, after, model, base_url);
}

/// Saving the same settings once more leaves the configuration as it is, unless it ends
/// with empty lines: of these, one goes each time.
pub proof fn law_saving_again_keeps_the_config(
    current: Seq<char>,
    model: Seq<char>,
    base_url: Seq<char>,
)
    requires
        breaks_stay(current, model, base_url),
        one_line(model),
        one_line(base_url),
    ensures
        ({
            let once = merged_config(current, model, base_url);
            let twice = merged_config(once, model, base_url);
            let lines = lines_of(once);
            &&& lines.len() > 0
            &&& lines.last().len() > 0 ==> twice == once
            &&& lines.last().len() == 0 ==> lines_of(twice) == lines.drop_last()
        }),
{
    let newline = newline_of(current);
    let once = merged_config(current, model, base_url);
    let all = merged_lines(lines_of(current), model, base_url);
    lemma_lines_unbroken(current);
    lemma_merged_text(current, model, base_url);
    lemma_lines_written(model, base_url);
    let (before, after) = lemma_merged_in_place(lines_of(current), model, base_url);
    let b = block_of(base_url);
    let lines = lines_of(once);
    if all.last().len() == 0 {
        // the empty line stands in another section, behind its header
        lemma_blank();
        assert(b[4].len() > 0);
        assert(after.len() > 0) by {
            if after.len() == 0 {
                assert(all.last() == b[4]);
            }
        }
        assert(all.last() == after.last());
        assert(after.last() =~= Seq::<char>::empty());
        let short = after.drop_last();
        assert(short.len() > 0) by {
            if after.len() == 1 {
                assert(after[0] == after.last());
            }
        }
        assert(short[0] == after[0]);
        assert forall|i: int| 0 <= i < short.len() implies !#[trigger] opens_ours(short[i]) by {
            assert(short[i] == after[i]);
        }
        assert(all.drop_last() =~= before + b + short);
        lemma_in_place_stays(before, short, model, base_url);
    } else {
        lemma_in_place_stays(before, after, model, base_url);
    }
    assert(merged_lines(lines, model, base_url) == lines);
    assert(unbroken(lines, newline));
    assert(lines.len() > 0);
    lemma_lines_of_text(lines, newline);
    let twice = merged_config(once, model, base_url);
    assert(twice == text_of_lines(lines, newline));
    if all.last().len() == 0 && lines.last().len() > 0 {
        assert(all =~= lines.push(Seq::empty()));
        lemma_joined_push_empty(lines, newline);
        lemma_joined_ends(lines, newline);
        let body = joined(lines, newline);
        let longer = body + newline;
        assert(longer.subrange(longer.len() - newline.len(), longer.len() as int) == newline);
        assert(ends_in(longer, newline));
    }
}

// ---------------------------------------------------------------------------
// The environment file
// ---------------------------------------------------------------------------

proof fn lemma_others_clean(lines: Seq<Seq<char>>, key: Seq<char>)
    ensures
        !sets(others(lines, key), key),
        !sets(lines, key) ==> others(lines, key) == lines,
    decreases lines.len(),
{
    if lines.len() > 0 {
        let rest = lines.skip(1);
        lemma_others_clean(rest, key);
        let all = others(lines, key);
        if line_key(lines[0]) != Some(key) {
            assert forall|i: int| 0 <= i < all.len() implies line_key(#[trigger] all[i]) != Some(
                key,
            ) by {
                if i > 0 {
                    assert(all[i] == others(rest, key)[i - 1]);
                }
            }
        }
        if !sets(lines, key) {
            assert(line_key(lines[0]) != Some(key));
            assert forall|i: int| 0 <= i < rest.len() implies line_key(#[trigger] rest[i]) != Some(
                key,
            ) by {
                assert(rest[i] == lines[i + 1]);
            }
            assert(all =~= lines);
        }
    }
}

/// What stands before and after the one assignment to a variable.
proof fn lemma_var_place(lines: Seq<Seq<char>>, key: Seq<char>, rendered: Seq<char>) -> (r: (
    Seq<Seq<char>>,
    Seq<Seq<char>>,
))
    ensures
        !sets(r.0, key),
        !sets(r.1, key),
        with_var(lines, key, rendered) == r.0 + seq![rendered] + r.1,
{
    let none = Seq::<Seq<char>>::empty();
    if sets(lines, key) {
        lemma_replaced_place(lines, key, rendered)
    } else if all_empty(lines) {
        assert(none + seq![rendered] + none == seq![rendered]);
        (none, none)
    } else if lines.last().len() > 0 {
        lemma_blank_line();
        let before = lines.push(Seq::empty());
        assert forall|i: int| 0 <= i < before.len() implies line_key(#[trigger] before[i]) != Some(
            key,
        ) by {
            if i < lines.len() {
                assert(before[i] == lines[i]);
            }
        }
        assert(before + seq![rendered] + none == before.push(rendered));
        (before, none)
    } else {
        assert(lines + seq![rendered] + none == lines.push(rendered));
        (lines, none)
    }
}

proof fn lemma_replaced_place(lines: Seq<Seq<char>>, key: Seq<char>, rendered: Seq<char>) -> (r: (
    Seq<Seq<char>>,
    Seq<Seq<char>>,
))
    requires
        sets(lines, key),
    ensures
        !sets(r.0, key),
        !sets(r.1, key),
        replaced(lines, key, rendered) == r.0 + seq![rendered] + r.1,
    decreases lines.len(),
{
    let rest = lines.skip(1);
    if line_key(lines[0]) == Some(key) {
        let none = Seq::<Seq<char>>::empty();
        let after = others(rest, key);
        lemma_others_clean(rest, key);
        assert(none + seq![rendered] + after == seq![rendered] + after);
        (none, after)
    } else {
        let i = choose|i: int| 0 <= i < lines.len() && line_key(#[trigger] lines[i]) == Some(key);
        assert(rest[i - 1] == lines[i]);
        let (less, after) = lemma_replaced_place(rest, key, rendered);
        let before = seq![lines[0]] + less;
        assert forall|k: int| 0 <= k < before.len() implies line_key(#[trigger] before[k]) != Some(
            key,
        ) by {
            if k > 0 {
                assert(before[k] == less[k - 1]);
            }
        }
        assert(replaced(lines, key, rendered) =~= before + seq![rendered] + after);
        (before, after)
    }
}

/// Where a variable has its one assignment, putting it there changes nothing.
proof fn lemma_var_stays(
    before: Seq<Seq<char>>,
    after: Seq<Seq<char>>,
    key: Seq<char>,
    rendered: Seq<char>,
)
    requires
        !sets(before, key),
        !sets(after, key),
        line_key(rendered) == Some(key),
    ensures
        ({
            let all = before + seq![rendered] + after;
            &&& sets(all, key)
            &&& replaced(all, key, rendered) == all
        }),
    decreases before.len(),
{
    let all = before + seq![rendered] + after;
    assert(all[before.len() as int] == rendered);
    if before.len() == 0 {
        assert(all.skip(1) == after);
        lemma_others_clean(after, key);
        assert(all =~= seq![rendered] + after);
    } else {
        let rest = before.skip(1);
        assert(line_key(before[0]) != Some(key));
        assert(all[0] == before[0]);
        assert(all.skip(1) == rest + seq![rendered] + after);
        assert forall|i: int| 0 <= i < rest.len() implies line_key(#[trigger] rest[i]) != Some(
            key,
        ) by {
            assert(rest[i] == before[i + 1]);
        }
        lemma_var_stays(rest, after, key, rendered);
        assert(all =~= seq![before[0]] + all.skip(1));
    }
}

/// Saving the same key once more leaves the environment file as it is, unless it ends with
/// empty lines: of these, one goes each time.
pub proof fn law_saving_again_keeps_the_env(current: Seq<char>, api_key: Seq<char>)
    requires
        env_breaks_stay(current, api_key),
        !contains_text(api_key, newline_of(current)),
    ensures
        ({
            let once = merged_env(current, api_key);
            let twice = merged_env(once, api_key);
            let lines = lines_of(once);
            &&& lines.len() > 0
            &&& lines.last().len() > 0 ==> twice == once
            &&& lines.last().len() == 0 ==> lines_of(twice) == lines.drop_last()
        }),
{
    let newline = newline_of(current);
    let line = key_line(api_key);
    let once = merged_env(current, api_key);
    let all = with_var(lines_of(current), ENV_KEY@, line);
    lemma_lines_unbroken(current);
    lemma_key_line(api_key);
    lemma_env_text(current, api_key);
    let (before, after) = lemma_var_place(lines_of(current), ENV_KEY@, line);
    let lines = lines_of(once);
    if all.last().len() == 0 {
        assert(after.len() > 0) by {
            if after.len() == 0 {
                assert(all.last() == line);
            }
        }
        let short = after.drop_last();
        assert forall|i: int| 0 <= i < short.len() implies line_key(#[trigger] short[i]) != Some(
            ENV_KEY@,
        ) by {
            assert(short[i] == after[i]);
        }
        assert(all.last() =~= Seq::<char>::empty());
        assert(all.drop_last() =~= before + seq![line] + short);
        lemma_var_stays(before, short, ENV_KEY@, line);
    } else {
        lemma_var_stays(before, after, ENV_KEY@, line);
    }
    assert(with_var(lines, ENV_KEY@, line) == lines);
    assert(unbroken(lines, newline));
    lemma_lines_of_text(lines, newline);
    let twice = merged_env(once, api_key);
    assert(twice == text_of_lines(lines, newline));
    if all.last().len() == 0 && lines.last().len() > 0 {
        assert(all =~= lines.push(Seq::empty()));
        lemma_joined_push_empty(lines, newline);
        lemma_joined_ends(lines, newline);
        let longer = joined(lines, newline) + newline;
        assert(longer.subrange(longer.len() - newline.len(), longer.len() as int) == newline);
        assert(ends_in(longer, newline));
    }
}

} // verus!
