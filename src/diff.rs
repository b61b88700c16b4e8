//! The diff of a typed input against a passage, recomputed from scratch:
//! error positions, correct and incorrect counts, and streaks.

use vstd::prelude::*;

verus! {

/// How many positions hold a character in both texts.
pub open spec fn compared_len(input: Seq<char>, target: Seq<char>) -> int {
    if input.len() < target.len() {
        input.len() as int
    } else {
        target.len() as int
    }
}

/// How many characters of `input` lie past the end of `target`.
pub open spec fn extra_len(input: Seq<char>, target: Seq<char>) -> int {
    if input.len() > target.len() {
        input.len() - target.len()
    } else {
        0
    }
}

/// The positions below `k` at which `input` and `target` differ, in order.
pub open spec fn errors_upto(input: Seq<char>, target: Seq<char>, k: int) -> Seq<usize>
    decreases k,
{
    if k <= 0 {
        Seq::empty()
    } else if input[k - 1] != target[k - 1] {
        errors_upto(input, target, k - 1).push((k - 1) as usize)
    } else {
        errors_upto(input, target, k - 1)
    }
}

/// How many positions below `k` hold the same character in both texts.
pub open spec fn correct_upto(input: Seq<char>, target: Seq<char>, k: int) -> int
    decreases k,
{
    if k <= 0 {
        0
    } else if input[k - 1] == target[k - 1] {
        correct_upto(input, target, k - 1) + 1
    } else {
        correct_upto(input, target, k - 1)
    }
}

/// The run of matching positions that ends just before `k`.
pub open spec fn streak_upto(input: Seq<char>, target: Seq<char>, k: int) -> int
    decreases k,
{
    if k <= 0 {
        0
    } else if input[k - 1] == target[k - 1] {
        streak_upto(input, target, k - 1) + 1
    } else {
        0
    }
}

/// The longest run of matching positions below `k`.
pub open spec fn best_upto(input: Seq<char>, target: Seq<char>, k: int) -> int
    decreases k,
{
    if k <= 0 {
        0
    } else {
        let b = best_upto(input, target, k - 1);
        let s = streak_upto(input, target, k);
        if s > b {
            s
        } else {
            b
        }
    }
}

/// Positions where the input differs from the passage; positions past the end
/// of either text are not listed.
pub open spec fn error_positions(input: Seq<char>, target: Seq<char>) -> Seq<usize> {
    errors_upto(input, target, compared_len(input, target))
}

/// Positions where the input matches the passage.
pub open spec fn correct_count(input: Seq<char>, target: Seq<char>) -> int {
    correct_upto(input, target, compared_len(input, target))
}

/// Mismatched positions plus every character typed past the passage's end.
pub open spec fn incorrect_count(input: Seq<char>, target: Seq<char>) -> int {
    error_positions(input, target).len() + extra_len(input, target)
}

/// The run of matches that ends at the last compared position.
pub open spec fn current_streak(input: Seq<char>, target: Seq<char>) -> int {
    streak_upto(input, target, compared_len(input, target))
}

/// The longest run of matches anywhere in the compared positions.
pub open spec fn best_streak(input: Seq<char>, target: Seq<char>) -> int {
    best_upto(input, target, compared_len(input, target))
}

/// Counting facts about the prefix of length `k`: every compared position is
/// either an error or a match, and streaks never exceed the prefix.
pub proof fn lemma_counts_upto(input: Seq<char>, target: Seq<char>, k: int)
    requires
        0 <= k <= compared_len(input, target),
    ensures
        errors_upto(input, target, k).len() + correct_upto(input, target, k) == k,
        0 <= correct_upto(input, target, k) <= k,
        0 <= streak_upto(input, target, k) <= best_upto(input, target, k) <= k,
        forall|j: int|
            0 <= j < errors_upto(input, target, k).len() ==> #[trigger] errors_upto(
                input,
                target,
                k,
            )[j] < k,
    decreases k,
{
    if k > 0 {
        lemma_counts_upto(input, target, k - 1);
    }
}

/// Counts of errors and matches only grow with the prefix.
pub proof fn lemma_counts_monotone(input: Seq<char>, target: Seq<char>, lo: int, hi: int)
    requires
        0 <= lo <= hi <= compared_len(input, target),
    ensures
        errors_upto(input, target, lo).len() <= errors_upto(input, target, hi).len(),
        correct_upto(input, target, lo) <= correct_upto(input, target, hi),
    decreases hi - lo,
{
    if lo < hi {
        lemma_counts_monotone(input, target, lo, hi - 1);
    }
}

/// Every compared position is counted once: as an error position or as a
/// correct character.
pub proof fn lemma_errors_plus_correct(input: Seq<char>, target: Seq<char>)
    ensures
        error_positions(input, target).len() + correct_count(input, target) == compared_len(
            input,
            target,
        ),
        forall|j: int|
            0 <= j < error_positions(input, target).len() ==> #[trigger] error_positions(
                input,
                target,
            )[j] < compared_len(input, target),
{
    lemma_counts_upto(input, target, compared_len(input, target));
}

/// The per-position comparison of an input against a passage.
pub struct DiffState {
    pub error_positions: Vec<usize>,
    pub current_streak: usize,
    pub best_streak: usize,
    pub correct_count: usize,
    pub incorrect_count: usize,
}

impl DiffState {
    /// This state is the comparison of `input` against `target`.
    pub open spec fn describes(&self, input: Seq<char>, target: Seq<char>) -> bool {
        &&& self.error_positions@ == error_positions(input, target)
        &&& self.current_streak == current_streak(input, target)
        &&& self.best_streak == best_streak(input, target)
        &&& self.correct_count == correct_count(input, target)
        &&& self.incorrect_count == incorrect_count(input, target)
    }

    /// Compares `input` against `target` position by position.
    pub fn compute(input: &[char], target: &[char]) -> (r: DiffState)
        ensures
            r.describes(input@, target@),
    {
        let n: usize = if input.len() < target.len() {
            input.len()
        } else {
            target.len()
        };
        let mut errors: Vec<usize> = Vec::new();
        let mut correct: usize = 0;
        let mut streak: usize = 0;
        let mut best: usize = 0;
        for i in 0..n
            invariant
                n == compared_len(input@, target@),
                n <= input@.len(),
                n <= target@.len(),
                errors@ == errors_upto(input@, target@, i as int),
                correct == correct_upto(input@, target@, i as int),
                streak == streak_upto(input@, target@, i as int),
                best == best_upto(input@, target@, i as int),
        {
            proof {
                lemma_counts_upto(input@, target@, i as int);
                lemma_counts_upto(input@, target@, i + 1);
            }
            if input[i] == target[i] {
                correct = correct + 1;
                streak = streak + 1;
                if streak > best {
                    best = streak;
                }
            } else {
                errors.push(i);
                streak = 0;
            }
        }
        proof {
            lemma_counts_upto(input@, target@, n as int);
        }
        let extra: usize = if input.len() > target.len() {
            input.len() - target.len()
        } else {
            0
        };
        let incorrect: usize = errors.len() + extra;
        DiffState {
            error_positions: errors,
            current_streak: streak,
            best_streak: best,
            correct_count: correct,
            incorrect_count: incorrect,
        }
    }
}

} // verus!
