//! Character-level primitives: whitespace, word boundaries, word spans and
//! trimming, all over sequences of Unicode scalar values.

use vstd::prelude::*;

verus! {

/// Whether a character has the Unicode `White_Space` property.
pub uninterp spec fn is_ws(c: char) -> bool;

/// Relies on `char::is_whitespace`: the answer depends on the character alone.
#[verifier::external_body]
pub(crate) fn char_is_whitespace(c: char) -> (r: bool)
    ensures
        r == is_ws(c),
{
    c.is_whitespace()
}

/// Relies on `String: FromIterator<&char>`: the string holds the given
/// characters, in order.
#[verifier::external_body]
pub(crate) fn string_of(v: &[char]) -> (r: String)
    ensures
        r@ == v@,
{
    v.iter().collect()
}

/// The characters of a string slice, in order.
pub fn chars_of(s: &str) -> (r: Vec<char>)
    ensures
        r@ == s@,
{
    let mut r: Vec<char> = Vec::new();
    for c in it: s.chars()
        invariant
            it.seq() == s@,
            r@ == s@.take(it.index() as int),
    {
        r.push(c);
    }
    r
}

/// `j` is a word boundary of `s`: the start of the text, or the index just
/// after a run of whitespace (a whole run counts once).
pub open spec fn is_boundary(s: Seq<char>, j: int) -> bool {
    j == 0 || (0 < j <= s.len() && is_ws(s[j - 1]) && (j == s.len() || !is_ws(s[j])))
}

/// The last word boundary of `s` at or before `p`.
pub open spec fn boundary_at_or_before(s: Seq<char>, p: int) -> int
    decreases p,
{
    if p <= 0 {
        0
    } else if is_boundary(s, p) {
        p
    } else {
        boundary_at_or_before(s, p - 1)
    }
}

/// Where the word being typed at the end of `s` starts.
pub open spec fn current_word_start(s: Seq<char>) -> int {
    boundary_at_or_before(s, s.len() as int)
}

pub proof fn lemma_boundary_bounds(s: Seq<char>, p: int)
    requires
        0 <= p <= s.len(),
    ensures
        0 <= boundary_at_or_before(s, p) <= p,
        is_boundary(s, boundary_at_or_before(s, p)),
        forall|j: int| boundary_at_or_before(s, p) < j <= p ==> !is_boundary(s, j),
    decreases p,
{
    if p > 0 && !is_boundary(s, p) {
        lemma_boundary_bounds(s, p - 1);
    }
}

/// Whether `j` is a word boundary of `s`.
pub fn boundary_check(s: &[char], j: usize) -> (r: bool)
    requires
        j <= s@.len(),
    ensures
        r == is_boundary(s@, j as int),
{
    if j == 0 {
        true
    } else if !char_is_whitespace(s[j - 1]) {
        false
    } else if j == s.len() {
        true
    } else {
        !char_is_whitespace(s[j])
    }
}

/// The last word boundary of `s` at or before `p`.
pub fn boundary_before(s: &[char], p: usize) -> (r: usize)
    requires
        p <= s@.len(),
    ensures
        r == boundary_at_or_before(s@, p as int),
        r <= p,
{
    proof {
        lemma_boundary_bounds(s@, p as int);
    }
    let mut j: usize = p;
    while j > 0 && !boundary_check(s, j)
        invariant
            j <= p,
            p <= s@.len(),
            boundary_at_or_before(s@, j as int) == boundary_at_or_before(s@, p as int),
        decreases j,
    {
        j = j - 1;
    }
    j
}

/// Where the word being typed at the end of `s` starts.
pub fn word_start(s: &[char]) -> (r: usize)
    ensures
        r == current_word_start(s@),
        r <= s@.len(),
{
    boundary_before(s, s.len())
}

/// The index of the first non-whitespace character of `s` at or after `i`,
/// or the length of `s` if there is none.
pub open spec fn first_non_ws_from(s: Seq<char>, i: int) -> int
    decreases s.len() - i,
{
    if i >= s.len() {
        s.len() as int
    } else if !is_ws(s[i]) {
        i
    } else {
        first_non_ws_from(s, i + 1)
    }
}

/// The end of the last non-whitespace character of `s` at or before `j`,
/// or 0 if there is none.
pub open spec fn last_non_ws_until(s: Seq<char>, j: int) -> int
    decreases j,
{
    if j <= 0 {
        0
    } else if !is_ws(s[j - 1]) {
        j
    } else {
        last_non_ws_until(s, j - 1)
    }
}

/// `s` without its leading and trailing whitespace.
pub open spec fn trimmed(s: Seq<char>) -> Seq<char> {
    let a = first_non_ws_from(s, 0);
    let b = last_non_ws_until(s, s.len() as int);
    if a >= b {
        Seq::empty()
    } else {
        s.subrange(a, b)
    }
}

proof fn lemma_first_non_ws_bounds(s: Seq<char>, i: int)
    requires
        0 <= i <= s.len(),
    ensures
        i <= first_non_ws_from(s, i) <= s.len(),
    decreases s.len() - i,
{
    if i < s.len() && is_ws(s[i]) {
        lemma_first_non_ws_bounds(s, i + 1);
    }
}

proof fn lemma_last_non_ws_bounds(s: Seq<char>, j: int)
    requires
        0 <= j <= s.len(),
    ensures
        0 <= last_non_ws_until(s, j) <= j,
    decreases j,
{
    if j > 0 && is_ws(s[j - 1]) {
        lemma_last_non_ws_bounds(s, j - 1);
    }
}

/// The span `(a, b)` of `s` that remains once leading and trailing
/// whitespace is removed; `a == b` when nothing remains.
pub fn trim_span(s: &[char]) -> (r: (usize, usize))
    ensures
        r.0 <= r.1 <= s@.len(),
        s@.subrange(r.0 as int, r.1 as int) == trimmed(s@),
{
    proof {
        lemma_first_non_ws_bounds(s@, 0);
        lemma_last_non_ws_bounds(s@, s@.len() as int);
    }
    let mut a: usize = 0;
    while a < s.len() && char_is_whitespace(s[a])
        invariant
            a <= s@.len(),
            first_non_ws_from(s@, a as int) == first_non_ws_from(s@, 0),
        decreases s@.len() - a,
    {
        a = a + 1;
    }
    let mut b: usize = s.len();
    while b > 0 && char_is_whitespace(s[b - 1])
        invariant
            b <= s@.len(),
            last_non_ws_until(s@, b as int) == last_non_ws_until(s@, s@.len() as int),
        decreases b,
    {
        b = b - 1;
    }
    if a >= b {
        proof {
            assert(s@.subrange(a as int, a as int) =~= Seq::<char>::empty());
        }
        (a, a)
    } else {
        (a, b)
    }
}

/// Whether `a` and `b` hold the same characters.
pub fn same_chars(a: &[char], b: &[char]) -> (r: bool)
    ensures
        r == (a@ == b@),
{
    if a.len() != b.len() {
        return false;
    }
    let mut i: usize = 0;
    while i < a.len()
        invariant
            a@.len() == b@.len(),
            i <= a@.len(),
            forall|k: int| 0 <= k < i ==> a@[k] == b@[k],
        decreases a@.len() - i,
    {
        if a[i] != b[i] {
            return false;
        }
        i = i + 1;
    }
    proof {
        assert(a@ =~= b@);
    }
    true
}

/// Whether the span `[a0, a1)` of `a` holds the same characters as the span
/// `[b0, b1)` of `b`.
pub fn same_span(a: &[char], a0: usize, a1: usize, b: &[char], b0: usize, b1: usize) -> (r: bool)
    requires
        a0 <= a1 <= a@.len(),
        b0 <= b1 <= b@.len(),
    ensures
        r == (a@.subrange(a0 as int, a1 as int) == b@.subrange(b0 as int, b1 as int)),
{
    if a1 - a0 != b1 - b0 {
        proof {
            assert(a@.subrange(a0 as int, a1 as int).len() != b@.subrange(b0 as int, b1 as int).len());
        }
        return false;
    }
    let n: usize = a1 - a0;
    let ghost sa = a@.subrange(a0 as int, a1 as int);
    let ghost sb = b@.subrange(b0 as int, b1 as int);
    let mut i: usize = 0;
    while i < n
        invariant
            n == a1 - a0,
            n == b1 - b0,
            a0 <= a1 <= a@.len(),
            b0 <= b1 <= b@.len(),
            sa == a@.subrange(a0 as int, a1 as int),
            sb == b@.subrange(b0 as int, b1 as int),
            i <= n,
            forall|k: int| 0 <= k < i ==> sa[k] == sb[k],
        decreases n - i,
    {
        if a[a0 + i] != b[b0 + i] {
            proof {
                assert(sa[i as int] != sb[i as int]);
            }
            return false;
        }
        i = i + 1;
    }
    proof {
        assert(sa =~= sb);
    }
    true
}

/// Whether `a` and `b` are equal once leading and trailing whitespace is
/// removed from both.
pub fn same_trimmed(a: &[char], b: &[char]) -> (r: bool)
    ensures
        r == (trimmed(a@) == trimmed(b@)),
{
    let (a0, a1) = trim_span(a);
    let (b0, b1) = trim_span(b);
    same_span(a, a0, a1, b, b0, b1)
}

/// The spans `(start, end)` of the whitespace-separated words among the first
/// `i` characters of `s`, in order.
pub open spec fn spans_upto(s: Seq<char>, i: int) -> Seq<(int, int)>
    decreases i,
{
    if i <= 0 {
        Seq::empty()
    } else {
        let p = spans_upto(s, i - 1);
        if is_ws(s[i - 1]) {
            p
        } else if i >= 2 && !is_ws(s[i - 2]) && p.len() > 0 {
            p.update(p.len() - 1, (p.last().0, i))
        } else {
            p.push((i - 1, i))
        }
    }
}

/// The spans of the whitespace-separated words of `s`, in order.
pub open spec fn word_spans(s: Seq<char>) -> Seq<(int, int)> {
    spans_upto(s, s.len() as int)
}

/// The whitespace-separated words of `s`, in order.
pub open spec fn words_of(s: Seq<char>) -> Seq<Seq<char>> {
    word_spans(s).map_values(|sp: (int, int)| s.subrange(sp.0, sp.1))
}

pub proof fn lemma_spans_bounds(s: Seq<char>, i: int)
    requires
        0 <= i <= s.len(),
    ensures
        forall|k: int|
            0 <= k < spans_upto(s, i).len() ==> 0 <= #[trigger] spans_upto(s, i)[k].0
                <= spans_upto(s, i)[k].1 <= i,
    decreases i,
{
    if i > 0 {
        lemma_spans_bounds(s, i - 1);
        let p = spans_upto(s, i - 1);
        if p.len() > 0 {
            assert(0 <= p[p.len() - 1].0 <= p[p.len() - 1].1 <= i - 1);
        }
    }
}

/// The spans of the whitespace-separated words of `s`, in order.
pub fn word_spans_of(s: &[char]) -> (r: Vec<(usize, usize)>)
    ensures
        r@.len() == word_spans(s@).len(),
        forall|k: int|
            0 <= k < r@.len() ==> (#[trigger] r@[k]).0 as int == word_spans(s@)[k].0 && r@[k].1
                as int == word_spans(s@)[k].1,
        forall|k: int| 0 <= k < r@.len() ==> (#[trigger] r@[k]).0 <= r@[k].1 <= s@.len(),
{
    let mut r: Vec<(usize, usize)> = Vec::new();
    let mut i: usize = 0;
    while i < s.len()
        invariant
            i <= s@.len(),
            r@.len() == spans_upto(s@, i as int).len(),
            forall|k: int|
                0 <= k < r@.len() ==> (#[trigger] r@[k]).0 as int == spans_upto(s@, i as int)[k].0
                    && r@[k].1 as int == spans_upto(s@, i as int)[k].1,
        decreases s@.len() - i,
    {
        let ghost prev = spans_upto(s@, i as int);
        if char_is_whitespace(s[i]) {
        } else if i >= 1 && !char_is_whitespace(s[i - 1]) && r.len() > 0 {
            let last = r.len() - 1;
            let start = r[last].0;
            r.set(last, (start, i + 1));
        } else {
            r.push((i, i + 1));
        }
        i = i + 1;
        proof {
            assert(spans_upto(s@, i as int) == (if is_ws(s@[i - 1]) {
                prev
            } else if i >= 2 && !is_ws(s@[i - 2]) && prev.len() > 0 {
                prev.update(prev.len() - 1, (prev.last().0, i as int))
            } else {
                prev.push((i - 1, i as int))
            }));
        }
    }
    proof {
        lemma_spans_bounds(s@, s@.len() as int);
    }
    r
}

/// The whitespace-separated words of `s`, in order.
pub fn words_in(s: &[char]) -> (r: Vec<String>)
    ensures
        r@.len() == words_of(s@).len(),
        forall|k: int| 0 <= k < r@.len() ==> (#[trigger] r@[k])@ == words_of(s@)[k],
{
    let spans = word_spans_of(s);
    let mut r: Vec<String> = Vec::new();
    for k in 0..spans.len()
        invariant
            spans@.len() == word_spans(s@).len(),
            forall|j: int|
                0 <= j < spans@.len() ==> (#[trigger] spans@[j]).0 as int == word_spans(s@)[j].0
                    && spans@[j].1 as int == word_spans(s@)[j].1,
            forall|j: int| 0 <= j < spans@.len() ==> (#[trigger] spans@[j]).0 <= spans@[j].1 <= s@.len(),
            r@.len() == k,
            forall|j: int| 0 <= j < k ==> (#[trigger] r@[j])@ == words_of(s@)[j],
    {
        let (a, b) = spans[k];
        r.push(string_of(&s[a..b]));
    }
    r
}

} // verus!
