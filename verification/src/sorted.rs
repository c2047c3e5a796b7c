//! Lists of texts in ascending order, without repetition.

use vstd::prelude::*;
use crate::lines::views;
use crate::text::same;

verus! {

/// Whether `a` comes before `b` in the order of code points, character by
/// character; a proper beginning of a text comes before it.
pub open spec fn before(a: Seq<char>, b: Seq<char>) -> bool
    decreases a.len(),
{
    if b.len() == 0 {
        false
    } else if a.len() == 0 {
        true
    } else if a[0] != b[0] {
        a[0] < b[0]
    } else {
        before(a.skip(1), b.skip(1))
    }
}

/// Each text comes before every later one.
pub open spec fn ascending(texts: Seq<Seq<char>>) -> bool {
    forall|i: int, j: int| 0 <= i < j < texts.len() ==> before(#[trigger] texts[i], #[trigger] texts[j])
}

/// No text comes before itself.
pub proof fn lemma_before_irreflexive(a: Seq<char>)
    ensures
        !before(a, a),
    decreases a.len(),
{
    if a.len() > 0 {
        lemma_before_irreflexive(a.skip(1));
    }
}

/// The order is transitive.
pub proof fn lemma_before_transitive(a: Seq<char>, b: Seq<char>, c: Seq<char>)
    requires
        before(a, b),
        before(b, c),
    ensures
        before(a, c),
    decreases a.len(),
{
    if a.len() > 0 && a[0] == b[0] && b[0] == c[0] {
        lemma_before_transitive(a.skip(1), b.skip(1), c.skip(1));
    }
}

/// Of two different texts one comes before the other.
pub proof fn lemma_before_total(a: Seq<char>, b: Seq<char>)
    ensures
        a == b || before(a, b) || before(b, a),
    decreases a.len(),
{
    if a.len() == 0 || b.len() == 0 {
        if a.len() == 0 && b.len() == 0 {
            assert(a =~= b);
        }
    } else if a[0] == b[0] {
        lemma_before_total(a.skip(1), b.skip(1));
        if a.skip(1) == b.skip(1) {
            assert(a =~= seq![a[0]] + a.skip(1));
            assert(b =~= seq![b[0]] + b.skip(1));
        }
    }
}

/// A set of texts has one ascending list.
pub proof fn law_ascending_list_is_unique(a: Seq<Seq<char>>, b: Seq<Seq<char>>)
    requires
        ascending(a),
        ascending(b),
        forall|t: Seq<char>| #[trigger] a.contains(t) <==> b.contains(t),
    ensures
        a == b,
    decreases a.len(),
{
    if a.len() == 0 {
        if b.len() > 0 {
            assert(b.contains(b[0]));
            assert(a.contains(b[0]));
        }
        assert(a =~= b);
    } else {
        assert(a.contains(a[0]));
        assert(b.contains(a[0]));
        let j = choose|j: int| 0 <= j < b.len() && b[j] == a[0];
        assert(b.contains(b[0]));
        assert(a.contains(b[0]));
        let i = choose|i: int| 0 <= i < a.len() && a[i] == b[0];
        if j > 0 {
            assert(before(b[0], b[j]));
            if i > 0 {
                assert(before(a[0], a[i]));
                lemma_before_transitive(a[0], b[0], a[0]);
            }
            lemma_before_irreflexive(a[0]);
        }
        assert(a[0] == b[0]);
        let ta = a.skip(1);
        let tb = b.skip(1);
        assert(ascending(ta)) by {
            assert forall|x: int, y: int| 0 <= x < y < ta.len() implies before(
                #[trigger] ta[x],
                #[trigger] ta[y],
            ) by {
                assert(ta[x] == a[x + 1] && ta[y] == a[y + 1]);
            }
        }
        assert(ascending(tb)) by {
            assert forall|x: int, y: int| 0 <= x < y < tb.len() implies before(
                #[trigger] tb[x],
                #[trigger] tb[y],
            ) by {
                assert(tb[x] == b[x + 1] && tb[y] == b[y + 1]);
            }
        }
        assert forall|t: Seq<char>| #[trigger] ta.contains(t) <==> tb.contains(t) by {
            if ta.contains(t) {
                let x = choose|x: int| 0 <= x < ta.len() && ta[x] == t;
                assert(a[x + 1] == t);
                assert(before(a[0], a[x + 1]));
                assert(a.contains(t));
                assert(b.contains(t));
                let y = choose|y: int| 0 <= y < b.len() && b[y] == t;
                lemma_before_irreflexive(t);
                assert(y > 0);
                assert(tb[y - 1] == t);
            }
            if tb.contains(t) {
                let x = choose|x: int| 0 <= x < tb.len() && tb[x] == t;
                assert(b[x + 1] == t);
                assert(before(b[0], b[x + 1]));
                assert(b.contains(t));
                assert(a.contains(t));
                let y = choose|y: int| 0 <= y < a.len() && a[y] == t;
                lemma_before_irreflexive(t);
                assert(y > 0);
                assert(ta[y - 1] == t);
            }
        }
        law_ascending_list_is_unique(ta, tb);
        assert(a =~= seq![a[0]] + ta);
        assert(b =~= seq![b[0]] + tb);
    }
}

/// Whether `a` comes before `b`.
pub fn comes_before(a: &[char], b: &[char]) -> (r: bool)
    ensures
        r == before(a@, b@),
{
    let mut i: usize = 0;
    assert(a@.skip(0) == a@);
    assert(b@.skip(0) == b@);
    while i < a.len() && i < b.len() && a[i] == b[i]
        invariant
            i <= a@.len(),
            i <= b@.len(),
            before(a@, b@) == before(a@.skip(i as int), b@.skip(i as int)),
        decreases a@.len() - i,
    {
        assert(a@.skip(i as int).skip(1) == a@.skip(i + 1));
        assert(b@.skip(i as int).skip(1) == b@.skip(i + 1));
        i += 1;
    }
    if i == b.len() {
        false
    } else if i == a.len() {
        true
    } else {
        a[i] < b[i]
    }
}

/// Puts a text in its place, unless it is there.
pub fn insert_text(list: &mut Vec<Vec<char>>, text: Vec<char>)
    requires
        ascending(views(old(list)@)),
    ensures
        ascending(views(final(list)@)),
        forall|t: Seq<char>| #[trigger]
            views(final(list)@).contains(t) <==> views(old(list)@).contains(t) || t == text@,
{
    let ghost was = views(list@);
    let mut i: usize = 0;
    while i < list.len() && comes_before(list[i].as_slice(), text.as_slice())
        invariant
            views(list@) == was,
            i <= list@.len(),
            forall|j: int| 0 <= j < i ==> before(#[trigger] was[j], text@),
        decreases list@.len() - i,
    {
        assert(was[i as int] == list@[i as int]@);
        i += 1;
    }
    if i < list.len() {
        assert(was[i as int] == list@[i as int]@);
        if same(list[i].as_slice(), text.as_slice()) {
            assert(was.contains(text@));
            return;
        }
    }
    let ghost t = text@;
    list.insert(i, text);
    let ghost now = views(list@);
    assert(now =~= was.insert(i as int, t));
    proof {
        if i < was.len() {
            lemma_before_total(was[i as int], t);
        }
        assert forall|x: int, y: int| 0 <= x < y < now.len() implies before(
            #[trigger] now[x],
            #[trigger] now[y],
        ) by {
            if x < i && y < i {
                assert(now[x] == was[x] && now[y] == was[y]);
            } else if x < i && y == i {
                assert(now[x] == was[x]);
            } else if x < i {
                assert(now[x] == was[x] && now[y] == was[y - 1]);
            } else if x == i {
                assert(now[y] == was[y - 1]);
                if y - 1 > i {
                    assert(before(was[i as int], was[y - 1]));
                    lemma_before_transitive(t, was[i as int], was[y - 1]);
                }
            } else {
                assert(now[x] == was[x - 1] && now[y] == was[y - 1]);
            }
        }
        assert forall|s: Seq<char>| #[trigger] now.contains(s) <==> was.contains(s) || s == t by {
            if now.contains(s) {
                let k = choose|k: int| 0 <= k < now.len() && now[k] == s;
                if k < i {
                    assert(was[k] == s);
                } else if k > i {
                    assert(was[k - 1] == s);
                }
            }
            if was.contains(s) {
                let k = choose|k: int| 0 <= k < was.len() && was[k] == s;
                if k < i {
                    assert(now[k] == s);
                } else {
                    assert(now[k + 1] == s);
                }
            }
            assert(now[i as int] == t);
        }
    }
}

} // verus!
