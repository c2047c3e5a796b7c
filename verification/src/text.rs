//! Text as sequences of characters: trimming, searching, splitting and joining.
//!
//! The functions work on `&[char]`, so a piece of a line is a subslice of it.

use vstd::prelude::*;

verus! {

/// Appending one character to a `String` (`String::push`) adds exactly that
/// character at the end.
pub assume_specification[ String::push ](s: &mut String, c: char)
    ensures
        final(s)@ == old(s)@.push(c),
;

// ---------------------------------------------------------------------------
// Characters
// ---------------------------------------------------------------------------

/// The characters with the Unicode property `White_Space`.
pub open spec fn is_white(c: char) -> bool {
    let n = c as u32;
    ||| 0x9 <= n <= 0xd
    ||| n == 0x20
    ||| n == 0x85
    ||| n == 0xa0
    ||| n == 0x1680
    ||| 0x2000 <= n <= 0x200a
    ||| n == 0x2028
    ||| n == 0x2029
    ||| n == 0x202f
    ||| n == 0x205f
    ||| n == 0x3000
}

/// The characters of the Unicode category `Cc`.
pub open spec fn is_control(c: char) -> bool {
    let n = c as u32;
    n <= 0x1f || 0x7f <= n <= 0x9f
}

/// Whether `c` is white space.
pub fn char_is_white(c: char) -> (r: bool)
    ensures
        r == is_white(c),
{
    let n: u32 = c as u32;
    (0x9 <= n && n <= 0xd) || n == 0x20 || n == 0x85 || n == 0xa0 || n == 0x1680 || (0x2000 <= n
        && n <= 0x200a) || n == 0x2028 || n == 0x2029 || n == 0x202f || n == 0x205f || n == 0x3000
}

/// Whether `c` is a control character.
pub fn char_is_control(c: char) -> (r: bool)
    ensures
        r == is_control(c),
{
    let n: u32 = c as u32;
    n <= 0x1f || (0x7f <= n && n <= 0x9f)
}

/// ASCII letters and digits.
pub open spec fn is_ascii_alnum(c: char) -> bool {
    ||| 'a' <= c <= 'z'
    ||| 'A' <= c <= 'Z'
    ||| '0' <= c <= '9'
}

/// Whether `c` is an ASCII letter or digit.
pub fn char_is_ascii_alnum(c: char) -> (r: bool)
    ensures
        r == is_ascii_alnum(c),
{
    ('a' <= c && c <= 'z') || ('A' <= c && c <= 'Z') || ('0' <= c && c <= '9')
}

// ---------------------------------------------------------------------------
// Between strings and character vectors
// ---------------------------------------------------------------------------

/// The lower-case letter of an ASCII capital; every other character is its own.
pub open spec fn ascii_lower(c: char) -> char {
    if 'A' <= c <= 'Z' {
        ((c as u8) + 32) as char
    } else {
        c
    }
}

/// The lower-case letter of an ASCII capital.
pub fn char_ascii_lower(c: char) -> (r: char)
    ensures
        r == ascii_lower(c),
{
    if 'A' <= c && c <= 'Z' {
        let n: u8 = c as u8;
        (n + 32) as char
    } else {
        c
    }
}

/// `s` with ASCII capitals in lower case.
pub open spec fn lowered(s: Seq<char>) -> Seq<char> {
    s.map_values(|c: char| ascii_lower(c))
}

/// `s` with ASCII capitals in lower case.
pub fn lower(s: &[char]) -> (r: Vec<char>)
    ensures
        r@ == lowered(s@),
{
    let mut out: Vec<char> = Vec::new();
    let mut i: usize = 0;
    while i < s.len()
        invariant
            i <= s@.len(),
            out@ == lowered(s@.take(i as int)),
        decreases s@.len() - i,
    {
        out.push(char_ascii_lower(s[i]));
        assert(lowered(s@.take(i + 1)) == lowered(s@.take(i as int)).push(ascii_lower(s@[i as int])));
        i += 1;
    }
    assert(s@.take(s@.len() as int) == s@);
    out
}

/// Whether two texts differ at most in the case of ASCII letters.
pub fn same_ignoring_case(a: &[char], b: &[char]) -> (r: bool)
    ensures
        r == (lowered(a@) == lowered(b@)),
{
    let la = lower(a);
    let lb = lower(b);
    same(la.as_slice(), lb.as_slice())
}

/// The characters of `s`.
pub fn chars_of(s: &str) -> (r: Vec<char>)
    ensures
        r@ == s@,
{
    let mut out: Vec<char> = Vec::new();
    for c in it: s.chars()
        invariant
            it.seq() == s@,
            out@ == s@.take(it.index() as int),
    {
        out.push(c);
    }
    assert(s@.take(s@.len() as int) == s@);
    out
}

/// The string made of the characters of `s`.
pub fn string_of(s: &[char]) -> (r: String)
    ensures
        r@ == s@,
{
    let mut out = String::new();
    let mut i: usize = 0;
    while i < s.len()
        invariant
            i <= s@.len(),
            out@ == s@.take(i as int),
        decreases s@.len() - i,
    {
        out.push(s[i]);
        assert(s@.take(i as int).push(s@[i as int]) == s@.take(i + 1));
        i += 1;
    }
    assert(s@.take(s@.len() as int) == s@);
    out
}

/// A copy of `s`.
pub fn copy_of(s: &[char]) -> (r: Vec<char>)
    ensures
        r@ == s@,
{
    let mut out: Vec<char> = Vec::new();
    push_all(&mut out, s);
    assert(Seq::<char>::empty() + s@ == s@);
    out
}

/// Appends `s` to `out`.
pub fn push_all(out: &mut Vec<char>, s: &[char])
    ensures
        final(out)@ == old(out)@ + s@,
{
    let ghost before = out@;
    let mut i: usize = 0;
    while i < s.len()
        invariant
            i <= s@.len(),
            out@ == before + s@.take(i as int),
        decreases s@.len() - i,
    {
        out.push(s[i]);
        assert((before + s@.take(i as int)).push(s@[i as int]) == before + s@.take(i + 1));
        i += 1;
    }
    assert(s@.take(s@.len() as int) == s@);
}

/// Appends the text `s` to `out`.
pub fn push_str(out: &mut Vec<char>, s: &str)
    ensures
        final(out)@ == old(out)@ + s@,
{
    let cs = chars_of(s);
    push_all(out, cs.as_slice());
}

/// Whether `a` and `b` hold the same characters.
pub fn same(a: &[char], b: &[char]) -> (r: bool)
    ensures
        r == (a@ == b@),
{
    if a.len() != b.len() {
        return false;
    }
    let mut i: usize = 0;
    while i < a.len()
        invariant
            a@.len() == b@.len(),
            i <= a@.len(),
            forall|j: int| 0 <= j < i ==> a@[j] == b@[j],
        decreases a@.len() - i,
    {
        if a[i] != b[i] {
            return false;
        }
        i += 1;
    }
    assert(a@ == b@);
    true
}

/// Whether `a` holds the text `b`.
pub fn same_str(a: &[char], b: &str) -> (r: bool)
    ensures
        r == (a@ == b@),
{
    let cs = chars_of(b);
    same(a, cs.as_slice())
}

/// Whether two strings hold the same text.
pub fn str_eq(a: &str, b: &str) -> (r: bool)
    ensures
        r == (a@ == b@),
{
    let ca = chars_of(a);
    same_str(ca.as_slice(), b)
}

/// A string with the text of `s`.
pub fn text_of(s: &str) -> (r: String)
    ensures
        r@ == s@,
{
    s.to_owned()
}

/// The decimal digits of a number.
pub open spec fn decimal(n: nat) -> Seq<char>
    decreases n,
{
    if n < 10 {
        seq![((48 + n) as u8) as char]
    } else {
        decimal(n / 10).push(((48 + n % 10) as u8) as char)
    }
}

/// The decimal digits of a number.
pub fn decimal_of(n: u64) -> (r: Vec<char>)
    ensures
        r@ == decimal(n as nat),
    decreases n,
{
    if n < 10 {
        let mut out: Vec<char> = Vec::new();
        out.push((48 + n as u8) as char);
        assert(out@ =~= decimal(n as nat));
        out
    } else {
        let mut out = decimal_of(n / 10);
        let last: u8 = (n % 10) as u8;
        out.push((48 + last) as char);
        out
    }
}

// ---------------------------------------------------------------------------
// Trimming
// ---------------------------------------------------------------------------

/// `s` without its longest prefix of characters in `p`.
pub open spec fn strip_front(s: Seq<char>, p: spec_fn(char) -> bool) -> Seq<char>
    decreases s.len(),
{
    if s.len() > 0 && p(s[0]) {
        strip_front(s.skip(1), p)
    } else {
        s
    }
}

/// `s` without its longest suffix of characters in `p`.
pub open spec fn strip_back(s: Seq<char>, p: spec_fn(char) -> bool) -> Seq<char>
    decreases s.len(),
{
    if s.len() > 0 && p(s.last()) {
        strip_back(s.drop_last(), p)
    } else {
        s
    }
}

/// The set of white space characters, as a predicate.
pub open spec fn white() -> spec_fn(char) -> bool {
    |c: char| is_white(c)
}

/// The set that holds `x` alone, as a predicate.
pub open spec fn only(x: char) -> spec_fn(char) -> bool {
    |c: char| c == x
}

/// `s` without leading white space.
pub open spec fn trimmed_start(s: Seq<char>) -> Seq<char> {
    strip_front(s, white())
}

/// `s` without leading and trailing white space.
pub open spec fn trimmed(s: Seq<char>) -> Seq<char> {
    strip_back(strip_front(s, white()), white())
}

/// `s` without leading and trailing occurrences of `x`.
pub open spec fn trimmed_of(s: Seq<char>, x: char) -> Seq<char> {
    strip_back(strip_front(s, only(x)), only(x))
}

/// Text that neither begins nor ends with a character in `p` is left alone by
/// both strippings.
pub proof fn lemma_strip_nothing(s: Seq<char>, p: spec_fn(char) -> bool)
    requires
        s.len() == 0 || (!p(s[0]) && !p(s.last())),
    ensures
        strip_front(s, p) == s,
        strip_back(s, p) == s,
{
}

/// What is left after stripping both ends is a subrange whose ends are not in `p`.
pub proof fn lemma_strip_both(s: Seq<char>, p: spec_fn(char) -> bool)
    ensures
        ({
            let r = strip_back(strip_front(s, p), p);
            &&& r.len() <= s.len()
            &&& r.len() > 0 ==> !p(r[0]) && !p(r.last())
            &&& exists|a: int, b: int| 0 <= a <= b <= s.len() && r == #[trigger] s.subrange(a, b)
        }),
{
    let f = strip_front(s, p);
    lemma_strip_front_subrange(s, p);
    lemma_strip_back_subrange(f, p);
    let a = choose|a: int| 0 <= a <= s.len() && f == #[trigger] s.skip(a);
    let r = strip_back(f, p);
    assert(r == s.subrange(a, a + r.len()));
    if r.len() > 0 {
        assert(r[0] == f[0]);
    }
}

proof fn lemma_strip_front_subrange(s: Seq<char>, p: spec_fn(char) -> bool)
    ensures
        exists|a: int| 0 <= a <= s.len() && strip_front(s, p) == #[trigger] s.skip(a),
        strip_front(s, p).len() > 0 ==> !p(strip_front(s, p)[0]),
    decreases s.len(),
{
    if s.len() > 0 && p(s[0]) {
        lemma_strip_front_subrange(s.skip(1), p);
        let t = s.skip(1);
        let a = choose|a: int| 0 <= a <= t.len() && strip_front(t, p) == #[trigger] t.skip(a);
        assert(t.skip(a) == s.skip(a + 1));
    } else {
        assert(s.skip(0) == s);
    }
}

proof fn lemma_strip_back_subrange(s: Seq<char>, p: spec_fn(char) -> bool)
    ensures
        strip_back(s, p).len() <= s.len(),
        strip_back(s, p) == s.take(strip_back(s, p).len() as int),
        strip_back(s, p).len() > 0 ==> !p(strip_back(s, p).last()),
    decreases s.len(),
{
    if s.len() > 0 && p(s.last()) {
        lemma_strip_back_subrange(s.drop_last(), p);
        let r = strip_back(s.drop_last(), p);
        assert(s.drop_last().take(r.len() as int) == s.take(r.len() as int));
    } else {
        assert(s.take(s.len() as int) == s);
    }
}

/// Stripping the end goes no further than a character that is not in `p`.
pub proof fn lemma_strip_back_keeps(s: Seq<char>, p: spec_fn(char) -> bool, k: int)
    requires
        0 <= k < s.len(),
        !p(s[k]),
    ensures
        k < strip_back(s, p).len() <= s.len(),
        strip_back(s, p) == s.take(strip_back(s, p).len() as int),
    decreases s.len(),
{
    lemma_strip_back_subrange(s, p);
    if p(s.last()) {
        assert(s.drop_last()[k] == s[k]);
        lemma_strip_back_keeps(s.drop_last(), p, k);
    }
}

/// Text without white space anywhere is left alone by trimming.
pub proof fn lemma_trim_plain(s: Seq<char>)
    requires
        forall|i: int| 0 <= i < s.len() ==> !is_white(#[trigger] s[i]),
    ensures
        trimmed(s) == s,
        trimmed_start(s) == s,
{
    if s.len() > 0 {
        assert(!is_white(s[0]));
        assert(!is_white(s.last()));
    }
}

/// `s` without leading white space.
pub fn trim_start(s: &[char]) -> (r: &[char])
    ensures
        r@ == trimmed_start(s@),
{
    let mut i: usize = 0;
    assert(s@.skip(0) == s@);
    while i < s.len() && char_is_white(s[i])
        invariant
            i <= s@.len(),
            trimmed_start(s@) == trimmed_start(s@.skip(i as int)),
        decreases s@.len() - i,
    {
        assert(s@.skip(i as int).skip(1) == s@.skip(i + 1));
        i += 1;
    }
    let r = &s[i..s.len()];
    assert(r@ == s@.skip(i as int));
    r
}

fn trim_end(s: &[char]) -> (r: &[char])
    ensures
        r@ == strip_back(s@, white()),
{
    let mut n: usize = s.len();
    assert(s@.take(n as int) == s@);
    while n > 0 && char_is_white(s[n - 1])
        invariant
            n <= s@.len(),
            strip_back(s@, white()) == strip_back(s@.take(n as int), white()),
        decreases n,
    {
        assert(s@.take(n as int).drop_last() == s@.take(n - 1));
        n -= 1;
    }
    let r = &s[0..n];
    assert(r@ == s@.take(n as int));
    r
}

/// `s` without leading and trailing white space.
pub fn trim(s: &[char]) -> (r: &[char])
    ensures
        r@ == trimmed(s@),
{
    trim_end(trim_start(s))
}

/// `s` without leading occurrences of `x`.
pub fn trim_start_of(s: &[char], x: char) -> (r: &[char])
    ensures
        r@ == strip_front(s@, only(x)),
{
    let mut i: usize = 0;
    assert(s@.skip(0) == s@);
    while i < s.len() && s[i] == x
        invariant
            i <= s@.len(),
            strip_front(s@, only(x)) == strip_front(s@.skip(i as int), only(x)),
        decreases s@.len() - i,
    {
        assert(s@.skip(i as int).skip(1) == s@.skip(i + 1));
        i += 1;
    }
    let r = &s[i..s.len()];
    assert(r@ == s@.skip(i as int));
    r
}

/// `s` without trailing occurrences of `x`.
pub fn trim_end_of(s: &[char], x: char) -> (r: &[char])
    ensures
        r@ == strip_back(s@, only(x)),
{
    let mut n: usize = s.len();
    assert(s@.take(n as int) == s@);
    while n > 0 && s[n - 1] == x
        invariant
            n <= s@.len(),
            strip_back(s@, only(x)) == strip_back(s@.take(n as int), only(x)),
        decreases n,
    {
        assert(s@.take(n as int).drop_last() == s@.take(n - 1));
        n -= 1;
    }
    let r = &s[0..n];
    assert(r@ == s@.take(n as int));
    r
}

/// `s` without leading and trailing occurrences of `x`.
pub fn trim_of(s: &[char], x: char) -> (r: &[char])
    ensures
        r@ == trimmed_of(s@, x),
{
    trim_end_of(trim_start_of(s, x), x)
}

// ---------------------------------------------------------------------------
// Searching
// ---------------------------------------------------------------------------

/// Whether `p` stands in `s` at index `i`.
pub open spec fn occurs_at(s: Seq<char>, p: Seq<char>, i: int) -> bool {
    0 <= i && i + p.len() <= s.len() && s.subrange(i, i + p.len()) == p
}

/// Whether `p` stands somewhere in `s`.
pub open spec fn contains_text(s: Seq<char>, p: Seq<char>) -> bool {
    exists|i: int| occurs_at(s, p, i)
}

/// Whether `s` begins with `p`.
pub open spec fn begins_with(s: Seq<char>, p: Seq<char>) -> bool {
    occurs_at(s, p, 0)
}

/// Whether `s` ends with `p`.
pub open spec fn ends_in(s: Seq<char>, p: Seq<char>) -> bool {
    occurs_at(s, p, s.len() - p.len())
}

/// The least index at which `p` stands in `s`.
pub open spec fn first_at(s: Seq<char>, p: Seq<char>, i: int) -> bool {
    &&& occurs_at(s, p, i)
    &&& forall|j: int| 0 <= j < i ==> !occurs_at(s, p, j)
}

/// The least index at which `p` stands in `s`, if there is one.
pub open spec fn find_spec(s: Seq<char>, p: Seq<char>) -> Option<int> {
    if contains_text(s, p) {
        Some(choose|i: int| first_at(s, p, i))
    } else {
        None
    }
}

proof fn lemma_least(s: Seq<char>, p: Seq<char>, k: int)
    requires
        occurs_at(s, p, k),
    ensures
        exists|i: int| first_at(s, p, i),
    decreases k,
{
    if exists|j: int| 0 <= j < k && occurs_at(s, p, j) {
        let j = choose|j: int| 0 <= j < k && occurs_at(s, p, j);
        lemma_least(s, p, j);
    } else {
        assert(first_at(s, p, k));
    }
}

/// `find_spec` gives the first occurrence.
pub proof fn lemma_find(s: Seq<char>, p: Seq<char>)
    ensures
        match find_spec(s, p) {
            Some(i) => first_at(s, p, i),
            None => forall|i: int| !occurs_at(s, p, i),
        },
{
    if contains_text(s, p) {
        let k = choose|i: int| occurs_at(s, p, i);
        lemma_least(s, p, k);
    }
}

/// There is one first occurrence at most.
pub proof fn lemma_find_is(s: Seq<char>, p: Seq<char>, i: int)
    requires
        first_at(s, p, i),
    ensures
        find_spec(s, p) == Some(i),
{
    lemma_find(s, p);
    let k = find_spec(s, p)->0;
    if k < i {
        assert(!occurs_at(s, p, k));
    }
    if i < k {
        assert(!occurs_at(s, p, i));
    }
}

/// Whether `p` stands in `s` at `i`.
fn stands_at(s: &[char], p: &[char], i: usize) -> (r: bool)
    ensures
        r == occurs_at(s@, p@, i as int),
{
    if i > s.len() || s.len() - i < p.len() {
        return false;
    }
    let piece = &s[i..i + p.len()];
    same(piece, p)
}

/// Whether `s` begins with `p`.
pub fn starts_with(s: &[char], p: &str) -> (r: bool)
    ensures
        r == begins_with(s@, p@),
{
    let cs = chars_of(p);
    stands_at(s, cs.as_slice(), 0)
}

/// Whether `s` begins with the characters `p`.
pub fn begins(s: &[char], p: &[char]) -> (r: bool)
    ensures
        r == begins_with(s@, p@),
{
    stands_at(s, p, 0)
}

/// Whether `s` ends with `p`.
pub fn ends_with(s: &[char], p: &str) -> (r: bool)
    ensures
        r == ends_in(s@, p@),
{
    let cs = chars_of(p);
    if cs.len() > s.len() {
        return false;
    }
    stands_at(s, cs.as_slice(), s.len() - cs.len())
}

/// The first index at which `p` stands in `s`.
pub fn find(s: &[char], p: &[char]) -> (r: Option<usize>)
    ensures
        match r {
            Some(i) => find_spec(s@, p@) == Some(i as int) && first_at(s@, p@, i as int),
            None => find_spec(s@, p@) is None && !contains_text(s@, p@),
        },
{
    let mut i: usize = 0;
    loop
        invariant
            i <= s@.len(),
            forall|j: int| 0 <= j < i ==> !occurs_at(s@, p@, j),
        decreases s@.len() - i,
    {
        if stands_at(s, p, i) {
            proof {
                lemma_find_is(s@, p@, i as int);
            }
            return Some(i);
        }
        if i == s.len() {
            return None;
        }
        i += 1;
    }
}

/// Whether `p` stands somewhere in `s`.
pub fn contains(s: &[char], p: &str) -> (r: bool)
    ensures
        r == contains_text(s@, p@),
{
    let cs = chars_of(p);
    match find(s, cs.as_slice()) {
        Some(_) => true,
        None => false,
    }
}

/// The first index of the character `x` in `s`, if there is one.
pub open spec fn index_spec(s: Seq<char>, x: char) -> Option<int>
    decreases s.len(),
{
    if s.len() == 0 {
        None
    } else if s[0] == x {
        Some(0int)
    } else {
        match index_spec(s.skip(1), x) {
            Some(i) => Some(i + 1),
            None => None,
        }
    }
}

/// What `index_spec` says of the characters up to the index.
pub proof fn lemma_index(s: Seq<char>, x: char)
    ensures
        match index_spec(s, x) {
            Some(i) => 0 <= i < s.len() && s[i] == x && forall|j: int|
                0 <= j < i ==> s[j] != x,
            None => forall|j: int| 0 <= j < s.len() ==> s[j] != x,
        },
    decreases s.len(),
{
    if s.len() > 0 && s[0] != x {
        lemma_index(s.skip(1), x);
        let t = s.skip(1);
        match index_spec(t, x) {
            Some(i) => {
                assert forall|j: int| 0 <= j < i + 1 implies s[j] != x by {
                    if j > 0 {
                        assert(t[j - 1] == s[j]);
                    }
                }
            },
            None => {
                assert forall|j: int| 0 <= j < s.len() implies s[j] != x by {
                    if j > 0 {
                        assert(t[j - 1] == s[j]);
                    }
                }
            },
        }
    }
}

/// The first index of `x` is the one before which `x` does not stand.
pub proof fn lemma_index_is(s: Seq<char>, x: char, i: int)
    requires
        0 <= i < s.len(),
        s[i] == x,
        forall|j: int| 0 <= j < i ==> s[j] != x,
    ensures
        index_spec(s, x) == Some(i),
{
    lemma_index(s, x);
    let k = index_spec(s, x);
    if k is Some && k->0 < i {
        assert(s[k->0] != x);
    }
}

/// The first index of `x` in `s`.
pub fn index_of(s: &[char], x: char) -> (r: Option<usize>)
    ensures
        match r {
            Some(i) => i < s@.len() && index_spec(s@, x) == Some(i as int),
            None => index_spec(s@, x) is None,
        },
{
    let mut i: usize = 0;
    while i < s.len()
        invariant
            i <= s@.len(),
            forall|j: int| 0 <= j < i ==> s@[j] != x,
        decreases s@.len() - i,
    {
        if s[i] == x {
            proof {
                lemma_index_is(s@, x, i as int);
            }
            return Some(i);
        }
        i += 1;
    }
    proof {
        lemma_index(s@, x);
    }
    None
}

} // verus!
