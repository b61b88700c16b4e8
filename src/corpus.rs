//! The corpus of passages: the category list offered in the main menu.

use vstd::prelude::*;
use crate::chars::{chars_of, same_chars};
use crate::text::Text;

verus! {

/// `a` sorts before `b` when both are compared from position `i` on, code
/// point by code point (the order of `String`, since UTF-8 keeps it).
pub open spec fn lex_lt_from(a: Seq<char>, b: Seq<char>, i: int) -> bool
    decreases a.len() - i,
{
    if i >= a.len() {
        i < b.len()
    } else if i >= b.len() {
        false
    } else if a[i] != b[i] {
        a[i] < b[i]
    } else {
        lex_lt_from(a, b, i + 1)
    }
}

/// `a` sorts strictly before `b`.
pub open spec fn lex_lt(a: Seq<char>, b: Seq<char>) -> bool {
    lex_lt_from(a, b, 0)
}

/// The names are in strictly increasing order, hence distinct.
pub open spec fn strictly_sorted(names: Seq<String>) -> bool {
    forall|i: int, j: int| 0 <= i < j < names.len() ==> lex_lt(#[trigger] names[i]@, #[trigger] names[j]@)
}

proof fn lemma_lex_trans(a: Seq<char>, b: Seq<char>, c: Seq<char>, i: int)
    requires
        0 <= i,
        lex_lt_from(a, b, i),
        lex_lt_from(b, c, i),
    ensures
        lex_lt_from(a, c, i),
    decreases a.len() - i,
{
    if i < a.len() && i < b.len() && i < c.len() && a[i] == b[i] && b[i] == c[i] {
        lemma_lex_trans(a, b, c, i + 1);
    }
}

proof fn lemma_lex_total(a: Seq<char>, b: Seq<char>, i: int)
    requires
        0 <= i <= a.len(),
        0 <= i <= b.len(),
    ensures
        a.subrange(i, a.len() as int) == b.subrange(i, b.len() as int) || lex_lt_from(a, b, i)
            || lex_lt_from(b, a, i),
    decreases a.len() - i,
{
    if i < a.len() && i < b.len() {
        if a[i] == b[i] {
            lemma_lex_total(a, b, i + 1);
            if a.subrange(i + 1, a.len() as int) == b.subrange(i + 1, b.len() as int) {
                assert(a.subrange(i, a.len() as int) =~= seq![a[i]] + a.subrange(i + 1, a.len() as int));
                assert(b.subrange(i, b.len() as int) =~= seq![b[i]] + b.subrange(i + 1, b.len() as int));
            }
        }
    } else if i >= a.len() && i >= b.len() {
        assert(a.subrange(i, a.len() as int) =~= b.subrange(i, b.len() as int));
    }
}

/// Some text of `texts` has category `name`.
pub open spec fn is_category_of(texts: Seq<Text>, name: Seq<char>) -> bool {
    exists|k: int| 0 <= k < texts.len() && (#[trigger] texts[k]).category@ == name
}

/// `names` lists `name`.
pub open spec fn lists(names: Seq<String>, name: Seq<char>) -> bool {
    exists|i: int| 0 <= i < names.len() && (#[trigger] names[i])@ == name
}

/// Whether `a` sorts strictly before `b`.
pub fn lex_less(a: &[char], b: &[char]) -> (r: bool)
    ensures
        r == lex_lt(a@, b@),
{
    let mut i: usize = 0;
    while i < a.len() && i < b.len()
        invariant
            i <= a@.len(),
            i <= b@.len(),
            lex_lt_from(a@, b@, i as int) == lex_lt(a@, b@),
        decreases a@.len() - i,
    {
        if a[i] != b[i] {
            return a[i] < b[i];
        }
        i = i + 1;
    }
    i >= a.len() && i < b.len()
}

/// Whether `name` sorts strictly before `c`.
fn name_before(name: &String, c: &[char]) -> (r: bool)
    ensures
        r == lex_lt(name@, c@),
{
    let n = chars_of(name.as_str());
    lex_less(n.as_slice(), c)
}

/// The distinct non-empty categories of `texts`, in increasing order. Texts
/// with an empty category are uncategorized and add nothing.
pub fn categories_of(texts: &Vec<Text>) -> (r: Vec<String>)
    ensures
        strictly_sorted(r@),
        forall|i: int| 0 <= i < r@.len() ==> (#[trigger] r@[i])@.len() > 0,
        forall|i: int| 0 <= i < r@.len() ==> is_category_of(texts@, (#[trigger] r@[i])@),
        forall|k: int|
            0 <= k < texts@.len() && (#[trigger] texts@[k]).category@.len() > 0 ==> lists(
                r@,
                texts@[k].category@,
            ),
{
    let mut r: Vec<String> = Vec::new();
    for k in 0..texts.len()
        invariant
            strictly_sorted(r@),
            forall|i: int| 0 <= i < r@.len() ==> (#[trigger] r@[i])@.len() > 0,
            forall|i: int| 0 <= i < r@.len() ==> is_category_of(texts@, (#[trigger] r@[i])@),
            forall|j: int|
                0 <= j < k && (#[trigger] texts@[j]).category@.len() > 0 ==> lists(
                    r@,
                    texts@[j].category@,
                ),
    {
        let cat = &texts[k].category;
        let c = chars_of(cat.as_str());
        if c.len() > 0 {
            let mut p: usize = 0;
            while p < r.len() && name_before(&r[p], c.as_slice())
                invariant
                    p <= r@.len(),
                    c@ == cat@,
                    forall|i: int| 0 <= i < p ==> lex_lt(#[trigger] r@[i]@, c@),
                decreases r@.len() - p,
            {
                p = p + 1;
            }
            let found = p < r.len() && same_chars(chars_of(r[p].as_str()).as_slice(), c.as_slice());
            let ghost before = r@;
            if !found {
                proof {
                    if p < before.len() {
                        lemma_lex_total(before[p as int]@, c@, 0);
                        assert(before[p as int]@.subrange(0, before[p as int]@.len() as int)
                            =~= before[p as int]@);
                        assert(c@.subrange(0, c@.len() as int) =~= c@);
                        assert(lex_lt(c@, before[p as int]@));
                    }
                }
                r.insert(p, cat.clone());
                proof {
                    assert forall|i: int, j: int| 0 <= i < j < r@.len() implies lex_lt(
                        #[trigger] r@[i]@,
                        #[trigger] r@[j]@,
                    ) by {
                        if j < p {
                            assert(r@[i] == before[i] && r@[j] == before[j]);
                        } else if j == p {
                            assert(r@[i] == before[i]);
                        } else if i == p {
                            assert(r@[j] == before[j - 1]);
                            assert(r@[i]@ == c@);
                            if j - 1 > p {
                                assert(lex_lt(before[p as int]@, before[j - 1]@));
                                lemma_lex_trans(c@, before[p as int]@, before[j - 1]@, 0);
                            }
                        } else if i < p {
                            assert(r@[i] == before[i] && r@[j] == before[j - 1]);
                            assert(lex_lt(before[i]@, before[j - 1]@));
                        } else {
                            assert(r@[i] == before[i - 1] && r@[j] == before[j - 1]);
                        }
                    }
                    assert forall|i: int| 0 <= i < r@.len() implies is_category_of(
                        texts@,
                        (#[trigger] r@[i])@,
                    ) by {
                        if i < p {
                            assert(r@[i] == before[i]);
                        } else if i == p {
                            assert(texts@[k as int].category@ == r@[i]@);
                        } else {
                            assert(r@[i] == before[i - 1]);
                        }
                    }
                    assert forall|j: int|
                        0 <= j < k + 1 && (#[trigger] texts@[j]).category@.len() > 0 implies lists(
                        r@,
                        texts@[j].category@,
                    ) by {
                        if j < k {
                            let i0 = choose|i: int|
                                0 <= i < before.len() && (#[trigger] before[i])@
                                    == texts@[j].category@;
                            if i0 < p {
                                assert(r@[i0] == before[i0]);
                            } else {
                                assert(r@[i0 + 1] == before[i0]);
                            }
                        } else {
                            assert(r@[p as int]@ == texts@[j].category@);
                        }
                    }
                }
            } else {
                proof {
                    assert(r@[p as int]@ == texts@[k as int].category@);
                }
            }
        }
    }
    r
}

} // verus!
