//! The backspace policy: which deletions a typist may make, and how far a
//! word-delete reaches.

use vstd::prelude::*;
use crate::chars::{
    boundary_at_or_before, boundary_before, current_word_start, lemma_boundary_bounds, word_start,
};
use crate::diff::compared_len;

verus! {

/// Some position below `p`, inside both texts, holds a mismatch.
pub open spec fn has_error_before(input: Seq<char>, target: Seq<char>, p: int) -> bool {
    exists|i: int| 0 <= i < p && i < compared_len(input, target) && input[i] != target[i]
}

/// The last position below `p`, inside both texts, that holds a mismatch;
/// -1 if there is none.
pub open spec fn last_error_before(input: Seq<char>, target: Seq<char>, p: int) -> int
    decreases p,
{
    if p <= 0 {
        -1
    } else if p - 1 < compared_len(input, target) && input[p - 1] != target[p - 1] {
        p - 1
    } else {
        last_error_before(input, target, p - 1)
    }
}

pub proof fn lemma_last_error_before(input: Seq<char>, target: Seq<char>, p: int)
    requires
        p >= 0,
    ensures
        -1 <= last_error_before(input, target, p) < p,
        last_error_before(input, target, p) >= 0 <==> has_error_before(input, target, p),
        last_error_before(input, target, p) >= 0 ==> {
            let e = last_error_before(input, target, p);
            &&& e < compared_len(input, target)
            &&& input[e] != target[e]
        },
    decreases p,
{
    if p > 0 {
        lemma_last_error_before(input, target, p - 1);
        if p - 1 < compared_len(input, target) && input[p - 1] != target[p - 1] {
            assert(has_error_before(input, target, p));
        }
        if !(p - 1 < compared_len(input, target) && input[p - 1] != target[p - 1]) {
            if has_error_before(input, target, p) {
                let i = choose|i: int|
                    0 <= i < p && i < compared_len(input, target) && input[i] != target[i];
                assert(has_error_before(input, target, p - 1)) by {
                    assert(i < p - 1);
                }
            }
        }
    } else {
        assert(!has_error_before(input, target, p));
    }
}

/// A plain backspace may remove the last character: always inside the word
/// being typed, and across a word boundary only when some earlier position
/// is wrong.
pub open spec fn backspace_allowed(input: Seq<char>, target: Seq<char>) -> bool {
    &&& input.len() > 0
    &&& (current_word_start(input) < input.len() || has_error_before(
        input,
        target,
        current_word_start(input),
    ))
}

/// The length a word-delete cuts the input back to, if it does anything: the
/// start of the word being typed; or, when that word is empty, the start of
/// the word holding the nearest earlier error.
pub open spec fn word_delete_target(input: Seq<char>, target: Seq<char>) -> Option<int> {
    let ws = current_word_start(input);
    if input.len() == 0 {
        None
    } else if ws < input.len() {
        Some(ws)
    } else {
        let e = last_error_before(input, target, ws);
        if e >= 0 {
            Some(boundary_at_or_before(input, e))
        } else {
            None
        }
    }
}

/// The length a deletion request leaves the input at, or `None` when the
/// policy turns it down.
pub open spec fn deletion_target(input: Seq<char>, target: Seq<char>, word: bool) -> Option<int> {
    if word {
        word_delete_target(input, target)
    } else if backspace_allowed(input, target) {
        Some(input.len() - 1)
    } else {
        None
    }
}

/// Whether some position below `position`, inside both texts, holds a
/// mismatch.
pub fn has_errors_before_position(input: &[char], target: &[char], position: usize) -> (r: bool)
    ensures
        r == has_error_before(input@, target@, position as int),
{
    match last_error_index_before(input, target, position) {
        Some(_) => true,
        None => false,
    }
}

/// The last position below `p`, inside both texts, that holds a mismatch.
pub fn last_error_index_before(input: &[char], target: &[char], p: usize) -> (r: Option<usize>)
    ensures
        r == (if last_error_before(input@, target@, p as int) >= 0 {
            Some(last_error_before(input@, target@, p as int) as usize)
        } else {
            None::<usize>
        }),
        r is Some ==> has_error_before(input@, target@, p as int),
        r is None ==> !has_error_before(input@, target@, p as int),
{
    proof {
        lemma_last_error_before(input@, target@, p as int);
    }
    let n: usize = if input.len() < target.len() {
        input.len()
    } else {
        target.len()
    };
    let mut j: usize = p;
    while j > 0
        invariant
            j <= p,
            n == compared_len(input@, target@),
            n <= input@.len(),
            n <= target@.len(),
            last_error_before(input@, target@, j as int) == last_error_before(
                input@,
                target@,
                p as int,
            ),
        decreases j,
    {
        if j - 1 < n && input[j - 1] != target[j - 1] {
            return Some(j - 1);
        }
        j = j - 1;
    }
    None
}

/// Whether a plain backspace may remove the last character of `input`.
pub fn plain_backspace_allowed(input: &[char], target: &[char]) -> (r: bool)
    ensures
        r == backspace_allowed(input@, target@),
{
    if input.len() == 0 {
        return false;
    }
    let ws = word_start(input);
    if ws < input.len() {
        true
    } else {
        has_errors_before_position(input, target, ws)
    }
}

/// The length a word-delete cuts `input` back to, or `None` when it does
/// nothing.
pub fn word_delete_length(input: &[char], target: &[char]) -> (r: Option<usize>)
    ensures
        r matches Some(n) ==> n < input@.len() && word_delete_target(input@, target@) == Some(
            n as int,
        ),
        r is None <==> word_delete_target(input@, target@) is None,
{
    if input.len() == 0 {
        return None;
    }
    let ws = word_start(input);
    if ws < input.len() {
        return Some(ws);
    }
    proof {
        lemma_last_error_before(input@, target@, ws as int);
    }
    match last_error_index_before(input, target, ws) {
        Some(e) => {
            proof {
                lemma_boundary_bounds(input@, e as int);
            }
            Some(boundary_before(input, e))
        },
        None => None,
    }
}

/// The length a deletion request leaves `input` at: a word-delete when
/// `word` holds, a plain backspace otherwise; `None` when the policy turns
/// the request down.
pub fn deletion_length(input: &[char], target: &[char], word: bool) -> (r: Option<usize>)
    ensures
        r matches Some(n) ==> n < input@.len() && deletion_target(input@, target@, word) == Some(
            n as int,
        ),
        r is None <==> deletion_target(input@, target@, word) is None,
{
    if word {
        word_delete_length(input, target)
    } else if plain_backspace_allowed(input, target) {
        Some(input.len() - 1)
    } else {
        None
    }
}

} // verus!
