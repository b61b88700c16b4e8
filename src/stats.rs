//! Session statistics: the diff-derived counters, the cumulative keystroke
//! ledger, and the timing from which words per minute follow.
//!
//! Times are clock readings in milliseconds, handed in by the caller.

use vstd::prelude::*;
use crate::chars::{chars_of, same_span, word_spans, word_spans_of, words_of};
use crate::diff::{
    best_streak, correct_count, current_streak, error_positions, incorrect_count, DiffState,
};

verus! {

/// How many of the first `k` word pairs of `a` and `b` are equal.
pub open spec fn matching_words_upto(a: Seq<Seq<char>>, b: Seq<Seq<char>>, k: int) -> int
    decreases k,
{
    if k <= 0 {
        0
    } else if a[k - 1] == b[k - 1] {
        matching_words_upto(a, b, k - 1) + 1
    } else {
        matching_words_upto(a, b, k - 1)
    }
}

/// How many words of `input` equal the word at the same place in `target`.
pub open spec fn matching_words(input: Seq<char>, target: Seq<char>) -> int {
    let a = words_of(input);
    let b = words_of(target);
    matching_words_upto(a, b, if a.len() < b.len() { a.len() as int } else { b.len() as int })
}

proof fn lemma_matching_words_bound(a: Seq<Seq<char>>, b: Seq<Seq<char>>, k: int)
    requires
        k >= 0,
    ensures
        0 <= matching_words_upto(a, b, k) <= k,
    decreases k,
{
    if k > 0 {
        lemma_matching_words_bound(a, b, k - 1);
    }
}

/// Words per minute, in hundredths, for `correct` characters typed in `ms`
/// milliseconds (a word is five characters); 0 when no time has passed.
pub open spec fn wpm_hundredths_of(correct: int, ms: int) -> int {
    if ms <= 0 {
        0
    } else {
        correct * 1_200_000 / ms
    }
}

/// The share of good keystrokes, in hundredths of a percent; a session with
/// no keystrokes counts as fully accurate.
pub open spec fn accuracy_hundredths_of(total: int, incorrect: int) -> int {
    if total <= 0 {
        10000
    } else {
        (total - incorrect) * 10000 / total
    }
}

/// Cumulative accuracy never rises when more keystrokes of the same total
/// are counted as incorrect.
pub proof fn lemma_accuracy_monotone(total: int, fewer: int, more: int)
    requires
        0 <= fewer <= more <= total,
    ensures
        accuracy_hundredths_of(total, more) <= accuracy_hundredths_of(total, fewer),
{
    if total > 0 {
        assert((total - more) * 10000 <= (total - fewer) * 10000) by (nonlinear_arith)
            requires
                more >= fewer,
        ;
        vstd::arithmetic::div_mod::lemma_div_is_ordered(
            (total - more) * 10000,
            (total - fewer) * 10000,
            total,
        );
    }
}

#[derive(Debug, Clone)]
pub struct Stats {
    pub start_time: Option<u64>,
    pub end_time: Option<u64>,
    pub error_positions: Vec<usize>,
    pub current_streak: usize,
    pub best_streak: usize,
    pub total_chars: usize,
    pub correct_chars: usize,
    pub incorrect_chars: usize,
    pub total_words: usize,
    pub correct_words: usize,
    pub errors: usize,
    /// Every typed character, counted at the moment it was typed.
    pub keystrokes_total: usize,
    /// Typed characters that were wrong at the moment they were typed; later
    /// corrections never lower this.
    pub keystrokes_incorrect: usize,
}

impl Stats {
    /// The ledger of keystrokes is consistent.
    pub open spec fn wf(&self) -> bool {
        self.keystrokes_incorrect <= self.keystrokes_total
    }

    /// Nothing has been timed, typed or counted.
    pub open spec fn is_fresh(&self) -> bool {
        &&& self.start_time is None
        &&& self.end_time is None
        &&& self.error_positions@.len() == 0
        &&& self.current_streak == 0
        &&& self.best_streak == 0
        &&& self.total_chars == 0
        &&& self.correct_chars == 0
        &&& self.incorrect_chars == 0
        &&& self.total_words == 0
        &&& self.correct_words == 0
        &&& self.errors == 0
        &&& self.keystrokes_total == 0
        &&& self.keystrokes_incorrect == 0
    }

    /// The timer and the keystroke ledger of `self` and `other` agree.
    pub open spec fn same_ledger_and_times(&self, other: &Stats) -> bool {
        &&& self.start_time == other.start_time
        &&& self.end_time == other.end_time
        &&& self.keystrokes_total == other.keystrokes_total
        &&& self.keystrokes_incorrect == other.keystrokes_incorrect
    }

    /// `self` is `old` with every diff-derived counter recomputed for `input`
    /// typed against `target`; the best streak keeps the largest seen.
    pub open spec fn updated_from(&self, old: &Stats, input: Seq<char>, target: Seq<char>) -> bool {
        &&& self.same_ledger_and_times(old)
        &&& self.error_positions@ == error_positions(input, target)
        &&& self.current_streak == current_streak(input, target)
        &&& self.best_streak == (if best_streak(input, target) > old.best_streak {
            best_streak(input, target)
        } else {
            old.best_streak as int
        })
        &&& self.total_chars == input.len()
        &&& self.correct_chars == correct_count(input, target)
        &&& self.incorrect_chars == incorrect_count(input, target)
        &&& self.total_words == words_of(input).len()
        &&& self.correct_words == matching_words(input, target)
        &&& self.errors == error_positions(input, target).len()
    }

    /// Milliseconds from the start of typing to its end, or to `now` while it
    /// runs; 0 before it starts. A clock reading earlier than the start
    /// counts as no time.
    pub open spec fn elapsed_spec(&self, now: u64) -> int {
        match (self.start_time, self.end_time) {
            (Some(s), Some(e)) => if e >= s { e - s } else { 0 },
            (Some(s), None) => if now >= s { now - s } else { 0 },
            _ => 0,
        }
    }

    pub fn new() -> (r: Stats)
        ensures
            r.is_fresh(),
            r.wf(),
    {
        Stats {
            start_time: None,
            end_time: None,
            error_positions: Vec::new(),
            current_streak: 0,
            best_streak: 0,
            total_chars: 0,
            correct_chars: 0,
            incorrect_chars: 0,
            total_words: 0,
            correct_words: 0,
            errors: 0,
            keystrokes_total: 0,
            keystrokes_incorrect: 0,
        }
    }

    pub fn reset(&mut self)
        ensures
            final(self).is_fresh(),
            final(self).wf(),
    {
        self.start_time = None;
        self.end_time = None;
        self.error_positions.clear();
        self.current_streak = 0;
        self.best_streak = 0;
        self.total_chars = 0;
        self.correct_chars = 0;
        self.incorrect_chars = 0;
        self.total_words = 0;
        self.correct_words = 0;
        self.errors = 0;
        self.keystrokes_total = 0;
        self.keystrokes_incorrect = 0;
    }

    /// Starts the timer at clock reading `now`.
    pub fn start(&mut self, now: u64)
        ensures
            *final(self) == (Stats { start_time: Some(now), ..*old(self) }),
    {
        self.start_time = Some(now);
    }

    /// Recomputes every diff-derived counter for `input` typed against
    /// `target`.
    pub fn update(&mut self, input: &str, target: &str)
        ensures
            final(self).updated_from(old(self), input@, target@),
    {
        let a = chars_of(input);
        let b = chars_of(target);
        let diff = DiffState::compute(a.as_slice(), b.as_slice());
        let wa = word_spans_of(a.as_slice());
        let wb = word_spans_of(b.as_slice());
        let m: usize = if wa.len() < wb.len() {
            wa.len()
        } else {
            wb.len()
        };
        let ghost sa = words_of(a@);
        let ghost sb = words_of(b@);
        let mut correct_words: usize = 0;
        for k in 0..m
            invariant
                m <= wa@.len(),
                m <= wb@.len(),
                m == (if sa.len() < sb.len() {
                    sa.len() as int
                } else {
                    sb.len() as int
                }),
                sa == words_of(a@),
                sb == words_of(b@),
                wa@.len() == word_spans(a@).len(),
                wb@.len() == word_spans(b@).len(),
                forall|j: int|
                    0 <= j < wa@.len() ==> (#[trigger] wa@[j]).0 as int == word_spans(a@)[j].0
                        && wa@[j].1 as int == word_spans(a@)[j].1,
                forall|j: int| 0 <= j < wa@.len() ==> (#[trigger] wa@[j]).0 <= wa@[j].1 <= a@.len(),
                forall|j: int|
                    0 <= j < wb@.len() ==> (#[trigger] wb@[j]).0 as int == word_spans(b@)[j].0
                        && wb@[j].1 as int == word_spans(b@)[j].1,
                forall|j: int| 0 <= j < wb@.len() ==> (#[trigger] wb@[j]).0 <= wb@[j].1 <= b@.len(),
                correct_words == matching_words_upto(sa, sb, k as int),
        {
            proof {
                lemma_matching_words_bound(sa, sb, k as int);
            }
            let (a0, a1) = wa[k];
            let (b0, b1) = wb[k];
            if same_span(a.as_slice(), a0, a1, b.as_slice(), b0, b1) {
                correct_words = correct_words + 1;
            }
        }
        self.total_chars = a.len();
        self.correct_chars = diff.correct_count;
        self.incorrect_chars = diff.incorrect_count;
        self.total_words = wa.len();
        self.correct_words = correct_words;
        self.errors = diff.error_positions.len();
        self.current_streak = diff.current_streak;
        if diff.best_streak > self.best_streak {
            self.best_streak = diff.best_streak;
        }
        self.error_positions = diff.error_positions;
    }

    /// Records one typed character in the ledger, as wrong unless
    /// `was_correct`; the counts stop at the largest value they can hold.
    pub fn note_keypress(&mut self, was_correct: bool)
        requires
            old(self).wf(),
        ensures
            final(self).wf(),
            final(self).keystrokes_total == (if old(self).keystrokes_total < usize::MAX {
                old(self).keystrokes_total + 1
            } else {
                old(self).keystrokes_total as int
            }),
            final(self).keystrokes_incorrect == (if !was_correct && old(self).keystrokes_incorrect
                < usize::MAX {
                old(self).keystrokes_incorrect + 1
            } else {
                old(self).keystrokes_incorrect as int
            }),
            *final(self) == (Stats {
                keystrokes_total: final(self).keystrokes_total,
                keystrokes_incorrect: final(self).keystrokes_incorrect,
                ..*old(self)
            }),
    {
        self.keystrokes_total = self.keystrokes_total.saturating_add(1);
        if !was_correct {
            self.keystrokes_incorrect = self.keystrokes_incorrect.saturating_add(1);
        }
    }

    /// Stops the timer at clock reading `now`.
    pub fn finish(&mut self, now: u64)
        ensures
            *final(self) == (Stats { end_time: Some(now), ..*old(self) }),
    {
        self.end_time = Some(now);
    }

    pub fn get_error_positions(&self) -> (r: Vec<usize>)
        ensures
            r@ == self.error_positions@,
    {
        self.error_positions.clone()
    }

    pub fn get_current_streak(&self) -> (r: usize)
        ensures
            r == self.current_streak,
    {
        self.current_streak
    }

    pub fn get_best_streak(&self) -> (r: usize)
        ensures
            r == self.best_streak,
    {
        self.best_streak
    }

    /// Milliseconds typed so far, with `now` the current clock reading.
    pub fn get_time_elapsed(&self, now: u64) -> (r: u64)
        ensures
            r == self.elapsed_spec(now),
    {
        match (self.start_time, self.end_time) {
            (Some(s), Some(e)) => e.saturating_sub(s),
            (Some(s), None) => now.saturating_sub(s),
            _ => 0,
        }
    }

    /// Milliseconds typed so far, with `now` the current clock reading.
    pub fn elapsed_time(&self, now: u64) -> (r: u64)
        ensures
            r == self.elapsed_spec(now),
    {
        self.get_time_elapsed(now)
    }

    /// Words per minute so far, in hundredths, counting the characters that
    /// currently match the passage.
    pub fn wpm_hundredths(&self, now: u64) -> (r: u128)
        ensures
            r == wpm_hundredths_of(self.correct_chars as int, self.elapsed_spec(now)),
    {
        let ms = self.get_time_elapsed(now);
        if ms == 0 {
            0
        } else {
            (self.correct_chars as u128) * 1_200_000 / (ms as u128)
        }
    }

    /// Cumulative accuracy over every keystroke of the session, in hundredths
    /// of a percent.
    pub fn accuracy_hundredths(&self) -> (r: u64)
        requires
            self.wf(),
        ensures
            r == accuracy_hundredths_of(
                self.keystrokes_total as int,
                self.keystrokes_incorrect as int,
            ),
            r <= 10000,
    {
        if self.keystrokes_total == 0 {
            10000
        } else {
            let good: u128 = (self.keystrokes_total - self.keystrokes_incorrect) as u128;
            let total: u128 = self.keystrokes_total as u128;
            proof {
                assert(good * 10000 <= total * 10000) by (nonlinear_arith)
                    requires
                        good <= total,
                ;
                vstd::arithmetic::div_mod::lemma_div_is_ordered(
                    (good * 10000) as int,
                    (total * 10000) as int,
                    total as int,
                );
                vstd::arithmetic::div_mod::lemma_div_multiples_vanish(10000, total as int);
            }
            (good * 10000 / total) as u64
        }
    }

    /// Accuracy of the input as it stands, in hundredths of a percent: the
    /// share of typed characters that match the passage; 100% when nothing is
    /// typed.
    pub fn live_accuracy_hundredths(&self) -> (r: u128)
        ensures
            r == (if self.total_chars == 0 {
                10000
            } else {
                self.correct_chars as int * 10000 / self.total_chars as int
            }),
    {
        if self.total_chars == 0 {
            10000
        } else {
            (self.correct_chars as u128) * 10000 / (self.total_chars as u128)
        }
    }

    pub fn is_running(&self) -> (r: bool)
        ensures
            r == (self.start_time is Some && self.end_time is None),
    {
        self.start_time.is_some() && self.end_time.is_none()
    }

    /// Stops the timer at clock reading `now`.
    pub fn stop(&mut self, now: u64)
        ensures
            *final(self) == (Stats { end_time: Some(now), ..*old(self) }),
    {
        self.end_time = Some(now);
    }
}

} // verus!
