//! Texts as lists of lines.

use vstd::prelude::*;
use crate::text::{
    chars_of, contains, contains_text, copy_of, ends_in, ends_with, find, find_spec, first_at,
    lemma_find, lemma_find_is, occurs_at, push_all, push_str,
};

verus! {

/// The lines as sequences of characters.
pub open spec fn views(lines: Seq<Vec<char>>) -> Seq<Seq<char>> {
    Seq::new(lines.len(), |i: int| lines[i]@)
}

/// The pieces of `s` between the occurrences of `sep`, from left to right.
pub open spec fn split_on(s: Seq<char>, sep: Seq<char>) -> Seq<Seq<char>>
    decreases s.len(),
{
    match find_spec(s, sep) {
        Some(i) => if sep.len() > 0 && 0 <= i && i + sep.len() <= s.len() {
            seq![s.take(i)] + split_on(s.skip(i + sep.len()), sep)
        } else {
            seq![s]
        },
        None => seq![s],
    }
}

/// The line break that a text uses: carriage return and line feed where that pair
/// stands in it, else line feed.
pub open spec fn newline_of(text: Seq<char>) -> Seq<char> {
    if contains_text(text, "\r\n"@) {
        "\r\n"@
    } else {
        "\n"@
    }
}

/// The lines of a text. A line break at the end opens no further line, and the
/// empty text has no lines.
pub open spec fn lines_of(text: Seq<char>) -> Seq<Seq<char>> {
    if text.len() == 0 {
        Seq::empty()
    } else {
        let parts = split_on(text, newline_of(text));
        if ends_in(text, newline_of(text)) {
            parts.drop_last()
        } else {
            parts
        }
    }
}

/// The lines with `sep` between them.
pub open spec fn joined(lines: Seq<Seq<char>>, sep: Seq<char>) -> Seq<char>
    decreases lines.len(),
{
    if lines.len() == 0 {
        Seq::empty()
    } else if lines.len() == 1 {
        lines[0]
    } else {
        lines[0] + sep + joined(lines.skip(1), sep)
    }
}

/// The text made of the lines: a line break between them, and one at the end
/// unless the text is empty or already ends with one.
pub open spec fn text_of_lines(lines: Seq<Seq<char>>, newline: Seq<char>) -> Seq<char> {
    closed_by(joined(lines, newline), newline)
}

/// `text`, with `newline` at the end unless it is empty or already ends so.
pub open spec fn closed_by(text: Seq<char>, newline: Seq<char>) -> Seq<char> {
    if text.len() > 0 && !ends_in(text, newline) {
        text + newline
    } else {
        text
    }
}

/// The two line breaks that texts use.
pub open spec fn is_newline(sep: Seq<char>) -> bool {
    sep == "\n"@ || sep == "\r\n"@
}

/// The newline constants, spelled out.
pub proof fn lemma_newlines()
    ensures
        "\n"@ == seq!['\n'],
        "\r\n"@ == seq!['\r', '\n'],
{
    reveal_strlit("\n");
    reveal_strlit("\r\n");
    assert("\n"@ =~= seq!['\n']);
    assert("\r\n"@ =~= seq!['\r', '\n']);
}

// ---------------------------------------------------------------------------
// Executable forms
// ---------------------------------------------------------------------------

/// The pieces of `s` between the occurrences of `sep`.
fn split_pieces(s: &[char], sep: &[char]) -> (r: Vec<Vec<char>>)
    requires
        sep@.len() > 0,
    ensures
        views(r@) == split_on(s@, sep@),
        r@.len() > 0,
{
    let mut out: Vec<Vec<char>> = Vec::new();
    let mut start: usize = 0;
    assert(s@.skip(0) == s@);
    assert(views(out@) == Seq::<Seq<char>>::empty());
    assert(views(out@) + split_on(s@, sep@) == split_on(s@, sep@));
    loop
        invariant
            sep@.len() > 0,
            start <= s@.len(),
            views(out@) + split_on(s@.skip(start as int), sep@) == split_on(s@, sep@),
        decreases s@.len() - start,
    {
        let rest = &s[start..s.len()];
        let ghost r0 = s@.skip(start as int);
        assert(rest@ == r0);
        let ghost before = views(out@);
        match find(rest, sep) {
            Some(i) => {
                let piece = copy_of(&rest[0..i]);
                assert(piece@ == r0.take(i as int));
                assert(r0.skip(i + sep@.len()) == s@.skip(start + i + sep@.len()));
                out.push(piece);
                assert(views(out@) == before.push(r0.take(i as int)));
                assert(views(out@) + split_on(r0.skip(i + sep@.len()), sep@) == before + (seq![
                    r0.take(i as int),
                ] + split_on(r0.skip(i + sep@.len()), sep@)));
                start = start + i + sep.len();
            },
            None => {
                out.push(copy_of(rest));
                assert(views(out@) == before.push(r0));
                assert(before.push(r0) == before + seq![r0]);
                return out;
            },
        }
    }
}

/// The lines of a text and the line break that it uses.
pub fn split_lines(text: &[char]) -> (r: (Vec<Vec<char>>, &'static str))
    ensures
        views(r.0@) == lines_of(text@),
        r.1@ == newline_of(text@),
{
    let newline: &'static str = if contains(text, "\r\n") {
        "\r\n"
    } else {
        "\n"
    };
    if text.len() == 0 {
        let none: Vec<Vec<char>> = Vec::new();
        assert(views(none@) == lines_of(text@));
        return (none, newline);
    }
    let sep = chars_of(newline);
    proof {
        lemma_newlines();
    }
    let mut lines = split_pieces(text, sep.as_slice());
    if ends_with(text, newline) {
        let ghost parts = views(lines@);
        let _ = lines.pop();
        assert(views(lines@) == parts.drop_last());
    }
    (lines, newline)
}

/// The text made of the lines, closed by a line break.
pub fn join_lines(lines: &Vec<Vec<char>>, newline: &str) -> (r: Vec<char>)
    ensures
        r@ == text_of_lines(views(lines@), newline@),
{
    let mut out: Vec<char> = Vec::new();
    let mut i: usize = 0;
    let ghost all = views(lines@);
    assert(all.skip(0) == all);
    while i < lines.len()
        invariant
            i <= lines@.len(),
            all == views(lines@),
            i == 0 ==> out@.len() == 0,
            i < lines@.len() ==> out@ + joined(all.skip(i as int), newline@) == joined(
                all,
                newline@,
            ),
            i == lines@.len() && i > 0 ==> out@ == joined(all, newline@),
        decreases lines@.len() - i,
    {
        let ghost before = out@;
        let ghost tail = all.skip(i as int);
        assert(tail[0] == lines@[i as int]@);
        push_all(&mut out, lines[i].as_slice());
        if i + 1 < lines.len() {
            push_str(&mut out, newline);
            assert(tail.skip(1) == all.skip(i + 1));
            assert(out@ + joined(all.skip(i + 1), newline@) == before + joined(tail, newline@));
        }
        i += 1;
    }
    ensure_trailing_newline(out, newline)
}

/// `text` with a line break at the end, unless it is empty or has one there.
pub fn ensure_trailing_newline(text: Vec<char>, newline: &str) -> (r: Vec<char>)
    ensures
        r@ == closed_by(text@, newline@),
{
    if text.len() == 0 || ends_with(text.as_slice(), newline) {
        text
    } else {
        let mut out = text;
        push_str(&mut out, newline);
        out
    }
}

// ---------------------------------------------------------------------------
// Splitting what was joined
// ---------------------------------------------------------------------------

/// No line holds the line break.
pub open spec fn unbroken(lines: Seq<Seq<char>>, newline: Seq<char>) -> bool {
    forall|i: int| 0 <= i < lines.len() ==> !contains_text(#[trigger] lines[i], newline)
}

/// In a line followed by a line break, the first break is the one that follows.
pub proof fn lemma_first_break(line: Seq<char>, newline: Seq<char>, tail: Seq<char>)
    requires
        is_newline(newline),
        !contains_text(line, newline),
    ensures
        first_at(line + newline + tail, newline, line.len() as int),
{
    lemma_newlines();
    let all = line + newline + tail;
    let n = line.len() as int;
    assert(all.subrange(n, n + newline.len()) == newline);
    assert forall|j: int| 0 <= j < n implies !occurs_at(all, newline, j) by {
        if occurs_at(all, newline, j) {
            if j + newline.len() <= n {
                assert(line.subrange(j, j + newline.len()) == all.subrange(j, j + newline.len()));
                assert(occurs_at(line, newline, j));
            } else {
                assert(all.subrange(j, j + newline.len())[1] == all[j + 1]);
                assert(all[j + 1] == newline[0]);
            }
        }
    }
}

/// Splitting undoes joining, where no line holds the line break.
pub proof fn lemma_split_joined(lines: Seq<Seq<char>>, newline: Seq<char>)
    requires
        is_newline(newline),
        lines.len() > 0,
        unbroken(lines, newline),
    ensures
        split_on(joined(lines, newline), newline) == lines,
    decreases lines.len(),
{
    lemma_newlines();
    let all = joined(lines, newline);
    if lines.len() == 1 {
        assert(!contains_text(lines[0], newline));
        assert(seq![lines[0]] == lines);
    } else {
        let rest = lines.skip(1);
        assert forall|i: int| 0 <= i < rest.len() implies !contains_text(
            #[trigger] rest[i],
            newline,
        ) by {
            assert(rest[i] == lines[i + 1]);
        }
        lemma_split_joined(rest, newline);
        assert(!contains_text(lines[0], newline));
        lemma_first_break(lines[0], newline, joined(rest, newline));
        let n = lines[0].len() as int;
        lemma_find_is(all, newline, n);
        assert(all.take(n) == lines[0]);
        assert(all.skip(n + newline.len()) == joined(rest, newline));
        assert(seq![lines[0]] + rest == lines);
    }
}

/// A joined text ends with the line break exactly when its last line is empty
/// and is not the only one.
pub proof fn lemma_joined_ends(lines: Seq<Seq<char>>, newline: Seq<char>)
    requires
        is_newline(newline),
        lines.len() > 0,
        unbroken(lines, newline),
    ensures
        ends_in(joined(lines, newline), newline) <==> lines.len() > 1 && lines.last().len() == 0,
        lines.len() > 1 ==> joined(lines, newline).len() >= newline.len(),
        lines.last().len() > 0 ==> joined(lines, newline).len() > 0,
    decreases lines.len(),
{
    lemma_newlines();
    let all = joined(lines, newline);
    if lines.len() == 1 {
        assert(!contains_text(lines[0], newline));
        if ends_in(all, newline) {
            assert(occurs_at(lines[0], newline, lines[0].len() - newline.len()));
        }
    } else {
        let rest = lines.skip(1);
        assert forall|i: int| 0 <= i < rest.len() implies !contains_text(
            #[trigger] rest[i],
            newline,
        ) by {
            assert(rest[i] == lines[i + 1]);
        }
        lemma_joined_ends(rest, newline);
        let tail = joined(rest, newline);
        assert(lines.last() == rest.last());
        assert(all == lines[0] + newline + tail);
        let k = all.len() - newline.len();
        if tail.len() >= newline.len() {
            assert(all.subrange(k, all.len() as int) == tail.subrange(
                tail.len() - newline.len(),
                tail.len() as int,
            ));
        } else if tail.len() == 0 {
            assert(rest.len() == 1);
            assert(all.subrange(k, all.len() as int) == newline);
        } else {
            // one character after a line feed
            assert(rest.len() == 1);
            assert(newline.len() == 2);
            assert(all[k] == newline[1]);
            if ends_in(all, newline) {
                assert(all.subrange(k, all.len() as int)[0] == all[k]);
            }
        }
        if rest.len() == 1 {
            assert(tail == rest[0]);
            if tail.len() >= newline.len() && ends_in(tail, newline) {
                assert(occurs_at(rest[0], newline, rest[0].len() - newline.len()));
            }
        }
    }
}

/// No line ends with a carriage return.
pub open spec fn no_bare_return(lines: Seq<Seq<char>>) -> bool {
    forall|i: int|
        0 <= i < lines.len() ==> (#[trigger] lines[i]).len() == 0 || lines[i].last() != '\r'
}

/// A text that uses line feeds and ends with a carriage return would be read
/// back with other line breaks once a line feed follows it.
pub open spec fn ends_in_bare_return(text: Seq<char>) -> bool {
    !contains_text(text, "\r\n"@) && text.len() > 0 && text.last() == '\r'
}

/// The lines of a text hold no line break of that text.
pub proof fn lemma_lines_unbroken(text: Seq<char>)
    ensures
        unbroken(lines_of(text), newline_of(text)),
        is_newline(newline_of(text)),
{
    lemma_newlines();
    let sep = newline_of(text);
    lemma_split_unbroken(text, sep);
    let parts = split_on(text, sep);
    if text.len() > 0 {
        assert forall|i: int| 0 <= i < lines_of(text).len() implies !contains_text(
            #[trigger] lines_of(text)[i],
            sep,
        ) by {
            assert(lines_of(text)[i] == parts[i]);
        }
    }
}

pub proof fn lemma_split_unbroken(s: Seq<char>, sep: Seq<char>)
    requires
        sep.len() > 0,
    ensures
        unbroken(split_on(s, sep), sep),
        split_on(s, sep).len() > 0,
    decreases s.len(),
{
    lemma_find(s, sep);
    match find_spec(s, sep) {
        Some(i) => {
            let rest = s.skip(i + sep.len());
            lemma_split_unbroken(rest, sep);
            let parts = split_on(s, sep);
            assert forall|k: int| 0 <= k < parts.len() implies !contains_text(
                #[trigger] parts[k],
                sep,
            ) by {
                if k == 0 {
                    let piece = s.take(i);
                    if contains_text(piece, sep) {
                        let j = choose|j: int| occurs_at(piece, sep, j);
                        assert(s.subrange(j, j + sep.len()) == piece.subrange(j, j + sep.len()));
                        assert(occurs_at(s, sep, j));
                    }
                } else {
                    assert(parts[k] == split_on(rest, sep)[k - 1]);
                }
            }
        },
        None => {},
    }
}

/// Unless the text ends in a bare carriage return, none of its lines does so
/// where lines end with a line feed.
pub proof fn lemma_lines_no_bare_return(text: Seq<char>)
    requires
        newline_of(text) == "\n"@,
        !ends_in_bare_return(text),
    ensures
        no_bare_return(lines_of(text)),
{
    lemma_newlines();
    assert(!contains_text(text, "\r\n"@)) by {
        assert("\r\n"@.len() == 2);
        assert("\n"@.len() == 1);
    }
    lemma_split_no_bare_return(text);
    let parts = split_on(text, "\n"@);
    if text.len() > 0 {
        assert forall|i: int| 0 <= i < lines_of(text).len() implies (
        #[trigger] lines_of(text)[i]).len() == 0 || lines_of(text)[i].last() != '\r' by {
            assert(lines_of(text)[i] == parts[i]);
        }
    }
}

proof fn lemma_split_no_bare_return(s: Seq<char>)
    requires
        !contains_text(s, "\r\n"@),
        s.len() == 0 || s.last() != '\r',
    ensures
        no_bare_return(split_on(s, "\n"@)),
    decreases s.len(),
{
    lemma_newlines();
    let sep = "\n"@;
    lemma_find(s, sep);
    match find_spec(s, sep) {
        Some(i) => {
            let rest = s.skip(i + 1);
            assert(s.subrange(i, i + 1)[0] == '\n');
            assert(!contains_text(rest, "\r\n"@)) by {
                if contains_text(rest, "\r\n"@) {
                    let j = choose|j: int| occurs_at(rest, "\r\n"@, j);
                    assert(s.subrange(i + 1 + j, i + 1 + j + 2) == rest.subrange(j, j + 2));
                    assert(occurs_at(s, "\r\n"@, i + 1 + j));
                }
            }
            lemma_split_no_bare_return(rest);
            let parts = split_on(s, sep);
            assert forall|k: int| 0 <= k < parts.len() implies (#[trigger] parts[k]).len() == 0
                || parts[k].last() != '\r' by {
                if k == 0 {
                    if i > 0 && s[i - 1] == '\r' {
                        assert(s.subrange(i - 1, i + 1) =~= seq!['\r', '\n']);
                        assert(occurs_at(s, "\r\n"@, i - 1));
                    }
                } else {
                    assert(parts[k] == split_on(rest, sep)[k - 1]);
                }
            }
        },
        None => {},
    }
}

/// Lines joined by line feeds hold no carriage return before a line feed, where
/// no line ends with a carriage return.
proof fn lemma_joined_no_pair(lines: Seq<Seq<char>>)
    requires
        lines.len() > 0,
        unbroken(lines, "\n"@),
        no_bare_return(lines),
    ensures
        ({
            let all = joined(lines, "\n"@);
            &&& forall|i: int|
                0 < i < all.len() && #[trigger] all[i] == '\n' ==> all[i - 1] != '\r'
            &&& all.len() > 0 ==> all.last() != '\r'
        }),
    decreases lines.len(),
{
    lemma_newlines();
    let all = joined(lines, "\n"@);
    let head = lines[0];
    assert(!contains_text(head, "\n"@));
    assert forall|i: int| 0 <= i < head.len() implies head[i] != '\n' by {
        if head[i] == '\n' {
            assert(head.subrange(i, i + 1) =~= seq!['\n']);
            assert(occurs_at(head, "\n"@, i));
        }
    }
    if lines.len() > 1 {
        let rest = lines.skip(1);
        assert forall|i: int| 0 <= i < rest.len() implies !contains_text(#[trigger] rest[i], "\n"@)
            && (rest[i].len() == 0 || rest[i].last() != '\r') by {
            assert(rest[i] == lines[i + 1]);
        }
        lemma_joined_no_pair(rest);
        let tail = joined(rest, "\n"@);
        assert(all == head + "\n"@ + tail);
        assert forall|i: int| 0 < i < all.len() && #[trigger] all[i] == '\n' implies all[i - 1]
            != '\r' by {
            if i < head.len() {
            } else if i == head.len() {
                assert(all[i - 1] == head.last());
            } else {
                let j = i - head.len() - 1;
                assert(all[i] == tail[j]);
                if j > 0 {
                    assert(all[i - 1] == tail[j - 1]);
                }
            }
        }
        if tail.len() > 0 {
            assert(all.last() == tail.last());
        }
    }
}

/// Reading the lines of a text that was made of lines gives those lines back,
/// but for one empty line at the end.
pub proof fn lemma_lines_of_text(lines: Seq<Seq<char>>, newline: Seq<char>)
    requires
        is_newline(newline),
        lines.len() > 0,
        unbroken(lines, newline),
        newline == "\n"@ ==> no_bare_return(lines),
    ensures
        lines_of(text_of_lines(lines, newline)) == (if lines.last().len() == 0 {
            lines.drop_last()
        } else {
            lines
        }),
        lines.last().len() > 0 || lines.len() > 1 ==> newline_of(text_of_lines(lines, newline))
            == newline,
{
    lemma_newlines();
    let body = joined(lines, newline);
    let text = text_of_lines(lines, newline);
    lemma_split_joined(lines, newline);
    lemma_joined_ends(lines, newline);
    if text.len() == 0 {
        assert(body.len() == 0);
        assert(lines.len() == 1);
        assert(lines.drop_last() =~= Seq::<Seq<char>>::empty());
    } else {
        assert(ends_in(text, newline)) by {
            if !ends_in(body, newline) {
                assert(text.subrange(text.len() - newline.len(), text.len() as int) == newline);
            }
        }
        // the text uses the same line break
        assert(newline_of(text) == newline) by {
            if newline == "\r\n"@ {
                assert(occurs_at(text, "\r\n"@, text.len() - 2));
            } else {
                lemma_joined_no_pair(lines);
                if contains_text(text, "\r\n"@) {
                    let i = choose|i: int| occurs_at(text, "\r\n"@, i);
                    assert(text.subrange(i, i + 2)[0] == '\r');
                    assert(text.subrange(i, i + 2)[1] == '\n');
                    assert(text[i] == '\r' && text[i + 1] == '\n');
                    if i + 1 < body.len() {
                        assert(body[i + 1] == '\n');
                    } else {
                        assert(body.last() == '\r');
                    }
                }
            }
        }
        if ends_in(body, newline) {
            assert(text == body);
        } else {
            // one more break at the end opens one more, empty, piece
            let longer = lines.push(Seq::<char>::empty());
            lemma_joined_push_empty(lines, newline);
            assert(joined(longer, newline) == text);
            assert forall|i: int| 0 <= i < longer.len() implies !contains_text(
                #[trigger] longer[i],
                newline,
            ) by {
                if i < lines.len() {
                    assert(longer[i] == lines[i]);
                } else if contains_text(longer[i], newline) {
                    let j = choose|j: int| occurs_at(longer[i], newline, j);
                    assert(newline.len() > 0);
                }
            }
            lemma_split_joined(longer, newline);
            assert(longer.drop_last() == lines);
            assert(lines.last().len() > 0) by {
                if lines.last().len() == 0 {
                    assert(lines.len() == 1);
                    assert(body == lines[0]);
                }
            }
        }
    }
}

pub proof fn lemma_joined_push_empty(lines: Seq<Seq<char>>, sep: Seq<char>)
    requires
        lines.len() > 0,
    ensures
        joined(lines.push(Seq::<char>::empty()), sep) == joined(lines, sep) + sep,
    decreases lines.len(),
{
    let longer = lines.push(Seq::<char>::empty());
    if lines.len() == 1 {
        assert(longer.skip(1) == seq![Seq::<char>::empty()]);
        assert(joined(longer.skip(1), sep) == Seq::<char>::empty());
        assert(joined(longer, sep) =~= lines[0] + sep + Seq::<char>::empty());
    } else {
        lemma_joined_push_empty(lines.skip(1), sep);
        assert(longer.skip(1) == lines.skip(1).push(Seq::<char>::empty()));
        assert(joined(longer, sep) =~= lines[0] + sep + (joined(lines.skip(1), sep) + sep));
    }
}

} // verus!
