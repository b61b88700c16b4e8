//! A session driven by a host that hands over the whole input at once (a
//! web page, say), with its own running tally of characters and errors.

use vstd::prelude::*;
use crate::backspace::{deletion_length, deletion_target};
use crate::chars::{chars_of, same_trimmed, string_of, trimmed};
use crate::stats::wpm_hundredths_of;
use crate::diff::{
    best_streak, compared_len, correct_upto, current_streak, error_positions, errors_upto,
    incorrect_count, lemma_counts_monotone, lemma_counts_upto, DiffState,
};
pub use crate::types::{Difficulty, GameConfig, GameMode, GameModeTrait, Platform, Theme, Topic};

verus! {

/// `x` as a `u32`, stopping at the largest value.
pub open spec fn sat_u32(x: int) -> u32 {
    if x > u32::MAX {
        u32::MAX
    } else {
        x as u32
    }
}

/// Converts `x` to a `u32`, stopping at the largest value.
fn to_u32_saturating(x: usize) -> (r: u32)
    ensures
        r == sat_u32(x as int),
{
    if x > u32::MAX as usize {
        u32::MAX
    } else {
        x as u32
    }
}

/// How many mismatches lie at positions in `[lo, hi)`.
pub open spec fn errors_between(input: Seq<char>, target: Seq<char>, lo: int, hi: int) -> int {
    errors_upto(input, target, hi).len() - errors_upto(input, target, lo).len()
}

/// How many matches lie at positions in `[lo, hi)`.
pub open spec fn correct_between(input: Seq<char>, target: Seq<char>, lo: int, hi: int) -> int {
    correct_upto(input, target, hi) - correct_upto(input, target, lo)
}

/// Characters past the end of `target` among the first `len` typed.
pub open spec fn extra_at(len: int, target: Seq<char>) -> int {
    if len > target.len() {
        len - target.len()
    } else {
        0
    }
}

#[derive(Debug, Clone)]
pub struct Game {
    pub text: String,
    pub input: String,
    pub start_time: Option<u64>,
    pub is_started: bool,
    pub is_finished: bool,
    pub error_positions: Vec<usize>,
    pub current_streak: u32,
    pub best_streak: u32,
    pub theme: Theme,
    pub correct_positions: Vec<bool>,
    /// Mistakes in the input as it stands.
    pub total_mistakes: u32,
    /// Mistakes ever made: each newly typed wrong position counts once, and
    /// corrections never lower it.
    pub total_errors_made: u32,
    pub last_input_length: usize,
    pub total_characters_typed: u32,
    pub total_correct_characters: u32,
}

impl Game {
    /// The input is complete: something is typed, at least as long as the
    /// passage, and equal to it once surrounding whitespace is ignored.
    pub open spec fn complete(input: Seq<char>, text: Seq<char>) -> bool {
        &&& input.len() > 0
        &&& input.len() >= text.len()
        &&& trimmed(input) == trimmed(text)
    }

    /// `self` is `old` with its input replaced by `self.input` and every
    /// count brought up to date: the running tallies count only positions
    /// beyond the previous input's length.
    pub open spec fn recomputed(&self, old: &Game) -> bool {
        let a = self.input@;
        let t = self.text@;
        let n = compared_len(a, t);
        let last = old.last_input_length as int;
        let seen = if last < n {
            last
        } else {
            n
        };
        let new_extra = if a.len() > last && extra_at(a.len() as int, t) > extra_at(last, t) {
            extra_at(a.len() as int, t) - extra_at(last, t)
        } else {
            0
        };
        &&& self.text == old.text
        &&& self.start_time == old.start_time
        &&& self.is_started == old.is_started
        &&& self.theme == old.theme
        &&& self.correct_positions == old.correct_positions
        &&& self.error_positions@ == error_positions(a, t)
        &&& self.current_streak == sat_u32(current_streak(a, t))
        &&& self.best_streak == sat_u32(best_streak(a, t))
        &&& self.total_mistakes == sat_u32(incorrect_count(a, t))
        &&& self.total_characters_typed == sat_u32(
            old.total_characters_typed + (if a.len() > last {
                a.len() - last
            } else {
                0
            }),
        )
        &&& self.total_correct_characters == sat_u32(
            old.total_correct_characters + correct_between(a, t, seen, n),
        )
        &&& self.total_errors_made == sat_u32(
            old.total_errors_made + errors_between(a, t, seen, n) + new_extra,
        )
        &&& self.last_input_length == a.len()
        &&& self.is_finished == Game::complete(a, t)
    }

    /// Nothing typed, counted or timed, for the passage `text`.
    pub open spec fn is_fresh(&self) -> bool {
        &&& self.input@.len() == 0
        &&& self.start_time is None
        &&& !self.is_started
        &&& !self.is_finished
        &&& self.error_positions@.len() == 0
        &&& self.current_streak == 0
        &&& self.best_streak == 0
        &&& self.correct_positions@ == Seq::new(self.text@.len(), |i: int| false)
        &&& self.total_mistakes == 0
        &&& self.total_errors_made == 0
        &&& self.last_input_length == 0
        &&& self.total_characters_typed == 0
        &&& self.total_correct_characters == 0
    }

    pub fn new() -> (r: Game)
        ensures
            r.text@.len() == 0,
            r.theme == Theme::Dark,
            r.is_fresh(),
    {
        proof {
            assert(Seq::<bool>::empty() =~= Seq::new(0, |i: int| false));
        }
        Game {
            text: String::new(),
            input: String::new(),
            start_time: None,
            is_started: false,
            is_finished: false,
            error_positions: Vec::new(),
            current_streak: 0,
            best_streak: 0,
            theme: Theme::Dark,
            correct_positions: Vec::new(),
            total_mistakes: 0,
            total_errors_made: 0,
            last_input_length: 0,
            total_characters_typed: 0,
            total_correct_characters: 0,
        }
    }

    /// Sets the passage and starts over.
    pub fn set_text(&mut self, text: String)
        ensures
            final(self).text == text,
            final(self).theme == old(self).theme,
            final(self).is_fresh(),
    {
        self.text = text;
        self.reset();
    }

    pub fn get_text(&self) -> (r: String)
        ensures
            r@ == self.text@,
    {
        self.text.clone()
    }

    pub fn get_input(&self) -> (r: String)
        ensures
            r@ == self.input@,
    {
        self.input.clone()
    }

    /// Starts the clock at reading `now`.
    pub fn start(&mut self, now: u64)
        ensures
            *final(self) == (Game { is_started: true, start_time: Some(now), ..*old(self) }),
    {
        self.is_started = true;
        self.start_time = Some(now);
    }

    /// Replaces the input with `input` and brings every count up to date;
    /// a finished game keeps its input.
    pub fn handle_input(&mut self, input: &str) -> (r: Result<(), String>)
        ensures
            r is Ok,
            old(self).is_finished ==> *final(self) == *old(self),
            !old(self).is_finished ==> final(self).input@ == input@ && final(self).recomputed(
                old(self),
            ),
    {
        if self.is_finished {
            return Ok(());
        }
        self.input = String::from_str(input);
        self.update_game_state();
        Ok(())
    }

    pub fn is_finished(&self) -> (r: bool)
        ensures
            r == self.is_finished,
    {
        self.is_finished
    }

    pub fn get_error_positions(&self) -> (r: Vec<usize>)
        ensures
            r@ == self.error_positions@,
    {
        self.error_positions.clone()
    }

    pub fn get_current_streak(&self) -> (r: u32)
        ensures
            r == self.current_streak,
    {
        self.current_streak
    }

    pub fn get_best_streak(&self) -> (r: u32)
        ensures
            r == self.best_streak,
    {
        self.best_streak
    }

    pub fn get_theme(&self) -> (r: Theme)
        ensures
            r == self.theme,
    {
        self.theme
    }

    pub fn set_theme(&mut self, theme: Theme)
        ensures
            *final(self) == (Game { theme, ..*old(self) }),
    {
        self.theme = theme;
    }

    /// The share of typed characters that were right when typed, in
    /// hundredths of a percent, at most 100%; 100% before anything is typed.
    pub fn get_accuracy_hundredths(&self) -> (r: u64)
        ensures
            r == (if self.total_characters_typed == 0 {
                10000
            } else if self.total_correct_characters * 10000 / self.total_characters_typed as int
                > 10000 {
                10000
            } else {
                self.total_correct_characters * 10000 / self.total_characters_typed as int
            }),
    {
        if self.total_characters_typed == 0 {
            return 10000;
        }
        let a: u64 = (self.total_correct_characters as u64) * 10000 / (
        self.total_characters_typed as u64);
        if a > 10000 {
            10000
        } else {
            a
        }
    }

    /// Mistakes ever made in this game.
    pub fn get_total_mistakes(&self) -> (r: u32)
        ensures
            r == self.total_errors_made,
    {
        self.total_errors_made
    }

    /// Milliseconds since the start, with `now` the current clock reading.
    pub fn get_time_elapsed(&self, now: u64) -> (r: u64)
        ensures
            r == (match self.start_time {
                Some(s) => if now >= s {
                    now - s
                } else {
                    0
                },
                None => 0,
            }),
    {
        match self.start_time {
            Some(s) => now.saturating_sub(s),
            None => 0,
        }
    }

    /// Words per minute so far, in hundredths, counting every character of
    /// the input, with `now` the current clock reading.
    pub fn wpm_hundredths(&self, now: u64) -> (r: u128)
        ensures
            r == wpm_hundredths_of(
                self.input@.len() as int,
                match self.start_time {
                    Some(s) => if now >= s {
                        now - s
                    } else {
                        0
                    },
                    None => 0,
                },
            ),
    {
        let ms = self.get_time_elapsed(now);
        let typed = chars_of(self.input.as_str()).len();
        if ms == 0 {
            0
        } else {
            (typed as u128) * 1_200_000 / (ms as u128)
        }
    }

    /// Starts over on the same passage.
    fn reset(&mut self)
        ensures
            final(self).text == old(self).text,
            final(self).theme == old(self).theme,
            final(self).is_fresh(),
    {
        self.input = String::new();
        self.start_time = None;
        self.is_started = false;
        self.is_finished = false;
        self.error_positions.clear();
        self.current_streak = 0;
        self.best_streak = 0;
        let n = chars_of(self.text.as_str()).len();
        let mut flags: Vec<bool> = Vec::new();
        for i in 0..n
            invariant
                flags@ == Seq::new(i as nat, |j: int| false),
        {
            flags.push(false);
            proof {
                assert(flags@ =~= Seq::new((i + 1) as nat, |j: int| false));
            }
        }
        self.correct_positions = flags;
        self.total_mistakes = 0;
        self.total_errors_made = 0;
        self.last_input_length = 0;
        self.total_characters_typed = 0;
        self.total_correct_characters = 0;
    }

    pub fn can_backspace(&self) -> (r: bool)
        ensures
            r == (!self.is_finished && self.input@.len() > 0),
    {
        !self.is_finished && chars_of(self.input.as_str()).len() > 0
    }

    pub fn can_ctrl_backspace(&self) -> (r: bool)
        ensures
            r == (!self.is_finished && self.input@.len() > 0),
    {
        self.can_backspace()
    }

    /// A plain backspace, or a word-delete when `ctrl` holds, as far as the
    /// backspace policy allows; `Ok(true)` when the input changed.
    pub fn handle_backspace(&mut self, ctrl: bool) -> (r: Result<bool, String>)
        ensures
            r is Ok,
            !old(self).is_finished && old(self).input@.len() > 0 ==> match deletion_target(
                old(self).input@,
                old(self).text@,
                ctrl,
            ) {
                Some(n) => {
                    &&& r == Ok::<bool, String>(true)
                    &&& final(self).input@ == old(self).input@.take(n)
                    &&& final(self).recomputed(old(self))
                },
                None => r == Ok::<bool, String>(false) && *final(self) == *old(self),
            },
            old(self).is_finished || old(self).input@.len() == 0 ==> r == Ok::<bool, String>(false)
                && *final(self) == *old(self),
    {
        if !self.can_backspace() {
            return Ok(false);
        }
        let typed = chars_of(self.input.as_str());
        let text = chars_of(self.text.as_str());
        match deletion_length(typed.as_slice(), text.as_slice(), ctrl) {
            Some(n) => {
                self.input = string_of(&typed.as_slice()[0..n]);
                proof {
                    assert(self.input@ =~= typed@.take(n as int));
                }
                self.update_game_state();
                Ok(true)
            },
            None => Ok(false),
        }
    }

    /// Recomputes the diff for the current input and advances the running
    /// tallies over the positions typed since the last update.
    fn update_game_state(&mut self)
        ensures
            final(self).input == old(self).input,
            final(self).recomputed(old(self)),
    {
        let a = chars_of(self.input.as_str());
        let t = chars_of(self.text.as_str());
        let diff = DiffState::compute(a.as_slice(), t.as_slice());
        let n: usize = if a.len() < t.len() {
            a.len()
        } else {
            t.len()
        };
        let last = self.last_input_length;
        let seen: usize = if last < n {
            last
        } else {
            n
        };
        proof {
            lemma_counts_upto(a@, t@, seen as int);
        }
        let mut typed = self.total_characters_typed;
        let mut good = self.total_correct_characters;
        let mut bad = self.total_errors_made;
        if a.len() > last {
            typed = typed.saturating_add(to_u32_saturating(a.len() - last));
        }
        let ghost good0 = good;
        let ghost bad0 = bad;
        for i in seen..n
            invariant
                n == compared_len(a@, t@),
                n <= a@.len(),
                n <= t@.len(),
                seen <= n,
                good == sat_u32(good0 + correct_between(a@, t@, seen as int, i as int)),
                bad == sat_u32(bad0 + errors_between(a@, t@, seen as int, i as int)),
        {
            proof {
                lemma_counts_upto(a@, t@, i as int);
                lemma_counts_upto(a@, t@, i + 1);
                lemma_counts_monotone(a@, t@, seen as int, i as int);
            }
            if a[i] == t[i] {
                good = good.saturating_add(1);
            } else {
                bad = bad.saturating_add(1);
            }
        }
        proof {
            lemma_counts_monotone(a@, t@, seen as int, n as int);
        }
        if a.len() > t.len() && a.len() > last {
            let prev_extra: usize = if last > t.len() {
                last - t.len()
            } else {
                0
            };
            let curr_extra: usize = a.len() - t.len();
            if curr_extra > prev_extra {
                bad = bad.saturating_add(to_u32_saturating(curr_extra - prev_extra));
            }
        }
        self.total_characters_typed = typed;
        self.total_correct_characters = good;
        self.total_errors_made = bad;
        self.total_mistakes = to_u32_saturating(diff.incorrect_count);
        self.current_streak = to_u32_saturating(diff.current_streak);
        self.best_streak = to_u32_saturating(diff.best_streak);
        self.error_positions = diff.error_positions;
        self.last_input_length = a.len();
        self.is_finished = a.len() > 0 && a.len() >= t.len() && same_trimmed(
            a.as_slice(),
            t.as_slice(),
        );
    }
}

} // verus!
