//! The typing session: main menu, typing and end screen, driven by commands.

use rand::Rng;
use vstd::prelude::*;
use crate::backspace::{
    deletion_length, deletion_target, has_error_before, lemma_last_error_before, word_delete_target,
};
use crate::chars::{chars_of, current_word_start, same_trimmed, string_of, trimmed};
use crate::config::Config;
use crate::corpus::{categories_of, is_category_of, lists, strictly_sorted};
use crate::keys::{classify, command_of, Command, Key};
use crate::stats::{wpm_hundredths_of, Stats};
use crate::text::Text;

verus! {

#[derive(Debug, Clone, Copy, PartialEq, Eq, Structural)]
pub enum State {
    MainMenu,
    TypingGame,
    EndScreen,
}

/// Relies on rand's `thread_rng().gen_range`: a number below `n`. It panics
/// on an empty range, which `requires` leaves out.
#[verifier::external_body]
fn random_below(n: usize) -> (r: usize)
    requires
        n > 0,
    ensures
        r < n,
{
    rand::thread_rng().gen_range(0..n)
}

/// The view of an optional string.
pub open spec fn opt_view(o: Option<String>) -> Option<Seq<char>> {
    match o {
        Some(s) => Some(s@),
        None => None,
    }
}

/// The first index at or after `i` whose category is `c`; the length of
/// `cats` when there is none.
pub open spec fn find_from(cats: Seq<String>, c: Seq<char>, i: int) -> int
    decreases cats.len() - i,
{
    if i >= cats.len() {
        cats.len() as int
    } else if cats[i]@ == c {
        i
    } else {
        find_from(cats, c, i + 1)
    }
}

/// Where `c` stands in `cats`, counting an absent category as the first.
pub open spec fn position_of(cats: Seq<String>, c: Seq<char>) -> int {
    let p = find_from(cats, c, 0);
    if p < cats.len() {
        p
    } else {
        0
    }
}

/// The category after `sel`: "random" (None) leads to the first, the last
/// leads back to "random".
pub open spec fn category_after(cats: Seq<String>, sel: Option<Seq<char>>) -> Option<Seq<char>> {
    if cats.len() == 0 {
        None
    } else {
        match sel {
            None => Some(cats[0]@),
            Some(cur) => {
                let p = position_of(cats, cur);
                if p + 1 >= cats.len() {
                    None
                } else {
                    Some(cats[p + 1]@)
                }
            },
        }
    }
}

/// The category before `sel`: "random" (None) leads to the last, the first
/// leads back to "random".
pub open spec fn category_before(cats: Seq<String>, sel: Option<Seq<char>>) -> Option<
    Seq<char>,
> {
    if cats.len() == 0 {
        None
    } else {
        match sel {
            None => Some(cats[cats.len() - 1]@),
            Some(cur) => {
                let p = position_of(cats, cur);
                if p == 0 {
                    None
                } else {
                    Some(cats[p - 1]@)
                }
            },
        }
    }
}

proof fn lemma_find_from_bounds(cats: Seq<String>, c: Seq<char>, i: int)
    requires
        0 <= i <= cats.len(),
    ensures
        i <= find_from(cats, c, i) <= cats.len(),
        find_from(cats, c, i) < cats.len() ==> cats[find_from(cats, c, i)]@ == c,
    decreases cats.len() - i,
{
    if i < cats.len() && cats[i]@ != c {
        lemma_find_from_bounds(cats, c, i + 1);
    }
}

/// Whether the keystroke `c`, typed after `input`, matches the passage at
/// the position where it lands.
pub open spec fn typed_correctly(input: Seq<char>, passage: Seq<char>, c: char) -> bool {
    input.len() < passage.len() && passage[input.len() as int] == c
}

/// `old` with one keystroke noted at clock reading `now`: the timer starts if
/// it was not running, and the ledger counts the keystroke.
pub open spec fn keystroke_noted(old: Stats, correct: bool, now: u64) -> Stats {
    Stats {
        start_time: if old.start_time is Some && old.end_time is None {
            old.start_time
        } else {
            Some(now)
        },
        keystrokes_total: if old.keystrokes_total < usize::MAX {
            (old.keystrokes_total + 1) as usize
        } else {
            old.keystrokes_total
        },
        keystrokes_incorrect: if !correct && old.keystrokes_incorrect < usize::MAX {
            (old.keystrokes_incorrect + 1) as usize
        } else {
            old.keystrokes_incorrect
        },
        ..old
    }
}

/// The words per minute sampled for the history: rounded to a whole number,
/// and capped at the largest `u64`.
pub open spec fn rounded_wpm(hundredths: int) -> int {
    if (hundredths + 50) / 100 > u64::MAX {
        u64::MAX as int
    } else {
        (hundredths + 50) / 100
    }
}

/// Text `i` may be drawn next: it belongs to the selected category, or no
/// category is selected.
pub open spec fn in_pool(texts: Seq<Text>, sel: Option<String>, i: int) -> bool {
    &&& 0 <= i < texts.len()
    &&& match sel {
        Some(c) => texts[i].category@ == c@,
        None => true,
    }
}

/// The texts below `k` that may be drawn next, in order.
pub open spec fn pool_upto(texts: Seq<Text>, sel: Option<String>, k: int) -> Seq<usize>
    decreases k,
{
    if k <= 0 {
        Seq::empty()
    } else if in_pool(texts, sel, k - 1) {
        pool_upto(texts, sel, k - 1).push((k - 1) as usize)
    } else {
        pool_upto(texts, sel, k - 1)
    }
}

/// The texts that may be drawn next, in order.
pub open spec fn pool(texts: Seq<Text>, sel: Option<String>) -> Seq<usize> {
    pool_upto(texts, sel, texts.len() as int)
}

/// `i` is a fair outcome of drawing the next passage: a text of the pool, or
/// 0 when the pool is empty.
pub open spec fn fresh_pick(texts: Seq<Text>, sel: Option<String>, i: int) -> bool {
    if pool(texts, sel).len() > 0 {
        in_pool(texts, sel, i)
    } else {
        i == 0
    }
}

proof fn lemma_pool(texts: Seq<Text>, sel: Option<String>, k: int)
    requires
        0 <= k <= texts.len(),
        texts.len() <= usize::MAX,
    ensures
        forall|j: int|
            0 <= j < pool_upto(texts, sel, k).len() ==> in_pool(
                texts,
                sel,
                #[trigger] pool_upto(texts, sel, k)[j] as int,
            ),
        forall|i: int|
            0 <= i < k && in_pool(texts, sel, i) ==> pool_upto(texts, sel, k).contains(i as usize),
    decreases k,
{
    if k > 0 {
        lemma_pool(texts, sel, k - 1);
        let p = pool_upto(texts, sel, k - 1);
        if in_pool(texts, sel, k - 1) {
            let q = p.push((k - 1) as usize);
            assert forall|i: int| 0 <= i < k && in_pool(texts, sel, i) implies q.contains(
                i as usize,
            ) by {
                if i < k - 1 {
                    let j = choose|j: int| 0 <= j < p.len() && p[j] == i as usize;
                    assert(q[j] == i as usize);
                } else {
                    assert(q[p.len() as int] == i as usize);
                }
            }
        }
    }
}

pub struct App {
    pub config: Config,
    pub texts: Vec<Text>,
    pub categories: Vec<String>,
    /// `None` draws passages from the whole corpus.
    pub selected_category: Option<String>,
    pub stats: Stats,
    pub input: String,
    pub current_text_index: usize,
    pub should_exit: bool,
    pub state: State,
    /// Words per minute, sampled once per whole elapsed second.
    pub wpm_history: Vec<u64>,
}

impl App {
    /// A session in the main menu over the passages `texts`, offering their
    /// categories and with a first passage drawn from all of them.
    pub fn new_with_texts(config: Config, texts: Vec<Text>) -> (r: App)
        ensures
            r.wf(),
            r.state == State::MainMenu,
            r.config == config,
            r.texts == texts,
            r.selected_category is None,
            r.input@.len() == 0,
            r.stats.is_fresh(),
            !r.should_exit,
            r.wpm_history@.len() == 0,
            fresh_pick(texts@, None, r.current_text_index as int),
            strictly_sorted(r.categories@),
            forall|i: int| 0 <= i < r.categories@.len() ==> (#[trigger] r.categories@[i])@.len() > 0,
            forall|i: int|
                0 <= i < r.categories@.len() ==> is_category_of(texts@, (#[trigger] r.categories@[i])@),
            forall|k: int|
                0 <= k < texts@.len() && (#[trigger] texts@[k]).category@.len() > 0 ==> lists(
                    r.categories@,
                    texts@[k].category@,
                ),
    {
        let categories = categories_of(&texts);
        let mut app = App {
            config,
            texts,
            categories,
            selected_category: None,
            stats: Stats::new(),
            input: String::new(),
            current_text_index: 0,
            should_exit: false,
            state: State::MainMenu,
            wpm_history: Vec::new(),
        };
        app.current_text_index = app.pick_random_index();
        app
    }

    /// The session is consistent: a passage is chosen whenever the corpus
    /// has one, and only the main menu is reachable without one.
    pub open spec fn wf(&self) -> bool {
        &&& self.stats.wf()
        &&& (self.texts@.len() > 0 ==> self.current_text_index < self.texts@.len())
        &&& (self.state != State::MainMenu ==> self.texts@.len() > 0)
    }

    /// The passage being typed.
    pub open spec fn passage(&self) -> Seq<char> {
        self.texts@[self.current_text_index as int].content@
    }

    /// The input matches the passage once surrounding whitespace is ignored.
    pub open spec fn finished_spec(&self) -> bool {
        trimmed(self.input@) == trimmed(self.passage())
    }

    /// Text `i` may be drawn next (see `in_pool`).
    pub open spec fn fresh_pick(&self, i: int) -> bool {
        fresh_pick(self.texts@, self.selected_category, i)
    }

    /// Progress in hundredths of a percent: typed characters over passage
    /// characters, unclamped; 0 before anything is typed, and undefined when
    /// something is typed against an empty passage.
    pub open spec fn progress_spec(&self) -> Option<int> {
        if self.input@.len() == 0 {
            Some(0)
        } else if self.passage().len() == 0 {
            None
        } else {
            Some((self.input@.len() * 10000 / self.passage().len()) as int)
        }
    }

    /// `self` is `pre` after the completion check at clock reading `now`:
    /// a finished passage ends the session and stops the timer.
    pub open spec fn completion_checked(&self, pre: &App, now: u64) -> bool {
        if pre.finished_spec() {
            *self == (App {
                state: State::EndScreen,
                stats: Stats { end_time: Some(now), ..pre.stats },
                ..*pre
            })
        } else {
            *self == *pre
        }
    }

    /// `self` is `old` with a new session begun in state `state`: the input
    /// and history are empty, the statistics fresh, and a new passage drawn.
    pub open spec fn restarted(&self, old: &App, state: State) -> bool {
        &&& self.state == state
        &&& self.input@.len() == 0
        &&& self.wpm_history@.len() == 0
        &&& self.stats.is_fresh()
        &&& old.fresh_pick(self.current_text_index as int)
        &&& self.config == old.config
        &&& self.texts == old.texts
        &&& self.categories == old.categories
        &&& self.selected_category == old.selected_category
        &&& self.should_exit == old.should_exit
    }

    /// `self` is `old` after the input became `input` during typing, with the
    /// statistics `pre` recomputed for it and the completion check run.
    pub open spec fn edited(&self, old: &App, input: Seq<char>, pre: Stats, now: u64) -> bool {
        exists|mid: App|
            {
                &&& mid.input@ == input
                &&& mid.stats.updated_from(&pre, input, old.passage())
                &&& mid == (App { input: mid.input, stats: mid.stats, ..*old })
                &&& self.completion_checked(&mid, now)
            }
    }

    /// `self` follows from `old` by the command `cmd` at clock reading `now`.
    pub open spec fn command_effect(old: &App, new: &App, cmd: Command, now: u64) -> bool {
        match (old.state, cmd) {
            (State::MainMenu, Command::Confirm) | (State::EndScreen, Command::Confirm) => {
                if old.texts@.len() > 0 {
                    exists|mid: App|
                        mid.restarted(old, State::TypingGame) && #[trigger] new.completion_checked(
                            &mid,
                            now,
                        )
                } else {
                    *new == *old
                }
            },
            (State::TypingGame, Command::Cancel) | (State::EndScreen, Command::Cancel) => {
                new.restarted(old, State::MainMenu)
            },
            (State::MainMenu, Command::Cancel) => *new == (App { should_exit: true, ..*old }),
            (State::MainMenu, Command::CategoryRight) => {
                &&& opt_view(new.selected_category) == category_after(
                    old.categories@,
                    opt_view(old.selected_category),
                )
                &&& *new == (App { selected_category: new.selected_category, ..*old })
            },
            (State::MainMenu, Command::CategoryLeft) => {
                &&& opt_view(new.selected_category) == category_before(
                    old.categories@,
                    opt_view(old.selected_category),
                )
                &&& *new == (App { selected_category: new.selected_category, ..*old })
            },
            (State::TypingGame, Command::Insert(c)) => new.edited(
                old,
                old.input@.push(c),
                keystroke_noted(old.stats, typed_correctly(old.input@, old.passage(), c), now),
                now,
            ),
            (State::TypingGame, Command::Backspace) | (State::TypingGame, Command::WordDelete) => {
                match deletion_target(old.input@, old.passage(), cmd == Command::WordDelete) {
                    Some(n) => new.edited(old, old.input@.take(n), old.stats, now),
                    None => *new == *old,
                }
            },
            _ => *new == *old,
        }
    }

    /// The texts that may be drawn next, in order.
    pub fn candidate_indices(&self) -> (r: Vec<usize>)
        ensures
            r@ == pool(self.texts@, self.selected_category),
    {
        let mut r: Vec<usize> = Vec::new();
        let mut i: usize = 0;
        while i < self.texts.len()
            invariant
                i <= self.texts@.len(),
                r@ == pool_upto(self.texts@, self.selected_category, i as int),
            decreases self.texts@.len() - i,
        {
            let keep = match &self.selected_category {
                Some(cat) => self.texts[i].category == *cat,
                None => true,
            };
            if keep {
                r.push(i);
            }
            i = i + 1;
        }
        r
    }

    /// The passage a draw of `draw` picks: the pool's entry at `draw` modulo
    /// the pool's size, or 0 when the pool is empty.
    pub fn choose_text_index(&self, draw: usize) -> (r: usize)
        ensures
            r == (if pool(self.texts@, self.selected_category).len() > 0 {
                pool(self.texts@, self.selected_category)[draw as int % pool(
                    self.texts@,
                    self.selected_category,
                ).len() as int] as int
            } else {
                0
            }),
            self.fresh_pick(r as int),
    {
        proof {
            assert(self.texts@.len() == self.texts.len());
            lemma_pool(self.texts@, self.selected_category, self.texts@.len() as int);
        }
        let pool = self.candidate_indices();
        if pool.len() == 0 {
            0
        } else {
            pool[draw % pool.len()]
        }
    }

    /// Draws the next passage at random from the pool.
    fn pick_random_index(&self) -> (r: usize)
        ensures
            self.fresh_pick(r as int),
    {
        let n = self.candidate_indices().len();
        if n == 0 {
            self.choose_text_index(0)
        } else {
            self.choose_text_index(random_below(n))
        }
    }

    /// Begins a new session: clears the input, the statistics and the
    /// history, and draws a new passage.
    pub fn reset(&mut self)
        requires
            old(self).wf(),
        ensures
            final(self).wf(),
            final(self).restarted(old(self), old(self).state),
    {
        self.input = String::new();
        self.stats.reset();
        self.current_text_index = self.pick_random_index();
        self.wpm_history.clear();
        proof {
            assert(self.texts@.len() == self.texts.len());
            lemma_pool(self.texts@, self.selected_category, self.texts@.len() as int);
        }
    }

    /// Recomputes the statistics for the input while typing.
    pub fn update_stats(&mut self)
        requires
            old(self).wf(),
        ensures
            final(self).wf(),
            old(self).state == State::TypingGame ==> {
                &&& final(self).stats.updated_from(&old(self).stats, old(self).input@, old(self).passage())
                &&& *final(self) == (App { stats: final(self).stats, ..*old(self) })
            },
            old(self).state != State::TypingGame ==> *final(self) == *old(self),
    {
        if self.state == State::TypingGame {
            let idx = self.current_text_index;
            self.stats.update(self.input.as_str(), self.texts[idx].content.as_str());
        }
    }

    /// Whether the input matches the passage, ignoring surrounding whitespace.
    pub fn is_finished(&self) -> (r: bool)
        requires
            self.wf(),
            self.texts@.len() > 0,
        ensures
            r == self.finished_spec(),
    {
        let a = chars_of(self.input.as_str());
        let b = chars_of(self.texts[self.current_text_index].content.as_str());
        same_trimmed(a.as_slice(), b.as_slice())
    }

    /// The passage being typed.
    pub fn current_text(&self) -> (r: &Text)
        requires
            self.wf(),
            self.texts@.len() > 0,
        ensures
            *r == self.texts@[self.current_text_index as int],
    {
        &self.texts[self.current_text_index]
    }

    pub fn get_input(&self) -> (r: &str)
        ensures
            r@ == self.input@,
    {
        self.input.as_str()
    }

    /// Progress in hundredths of a percent (see `progress_spec`).
    pub fn get_progress(&self) -> (r: Option<u128>)
        requires
            self.wf(),
            self.texts@.len() > 0,
        ensures
            r == (match self.progress_spec() {
                Some(p) => Some(p as u128),
                None => None::<u128>,
            }),
    {
        let typed = chars_of(self.input.as_str()).len();
        let total = chars_of(self.texts[self.current_text_index].content.as_str()).len();
        if typed == 0 {
            Some(0)
        } else if total == 0 {
            None
        } else {
            Some((typed as u128) * 10000 / (total as u128))
        }
    }

    /// Ends the session if the passage is finished.
    fn check_completion(&mut self, now: u64)
        requires
            old(self).wf(),
            old(self).texts@.len() > 0,
        ensures
            final(self).wf(),
            final(self).completion_checked(old(self), now),
    {
        if self.is_finished() {
            self.state = State::EndScreen;
            self.stats.stop(now);
        }
    }

    /// Applies one command at clock reading `now`.
    pub fn handle_command(&mut self, cmd: Command, now: u64)
        requires
            old(self).wf(),
        ensures
            final(self).wf(),
            App::command_effect(old(self), final(self), cmd, now),
    {
        let ghost old_app = *self;
        match (self.state, cmd) {
            (State::MainMenu, Command::Confirm) | (State::EndScreen, Command::Confirm) => {
                if self.texts.len() > 0 {
                    self.state = State::TypingGame;
                    self.reset();
                    let ghost mid = *self;
                    self.check_completion(now);
                    proof {
                        assert(mid.restarted(&old_app, State::TypingGame));
                        assert(self.completion_checked(&mid, now));
                    }
                }
            },
            (State::TypingGame, Command::Cancel) | (State::EndScreen, Command::Cancel) => {
                self.state = State::MainMenu;
                self.reset();
            },
            (State::MainMenu, Command::Cancel) => {
                self.should_exit = true;
            },
            (State::MainMenu, Command::CategoryRight) => {
                self.cycle_category_right();
            },
            (State::MainMenu, Command::CategoryLeft) => {
                self.cycle_category_left();
            },
            (State::TypingGame, Command::Insert(c)) => {
                self.type_char(c, now);
            },
            (State::TypingGame, Command::Backspace) => {
                self.handle_backspace_with_rules(false, now);
            },
            (State::TypingGame, Command::WordDelete) => {
                self.handle_backspace_with_rules(true, now);
            },
            _ => {},
        }
    }

    /// Applies a key press at clock reading `now`.
    pub fn handle_input(&mut self, key: Key, now: u64)
        requires
            old(self).wf(),
        ensures
            final(self).wf(),
            App::command_effect(old(self), final(self), command_of(key), now),
    {
        let cmd = classify(key);
        self.handle_command(cmd, now);
    }

    /// Types `c` at the end of the input: notes the keystroke in the ledger,
    /// appends it, recomputes the statistics and checks for completion.
    fn type_char(&mut self, c: char, now: u64)
        requires
            old(self).wf(),
            old(self).state == State::TypingGame,
        ensures
            final(self).wf(),
            final(self).edited(
                old(self),
                old(self).input@.push(c),
                keystroke_noted(
                    old(self).stats,
                    typed_correctly(old(self).input@, old(self).passage(), c),
                    now,
                ),
                now,
            ),
    {
        let ghost old_app = *self;
        if !self.stats.is_running() {
            self.stats.start(now);
        }
        let mut typed = chars_of(self.input.as_str());
        let passage = chars_of(self.texts[self.current_text_index].content.as_str());
        let pos = typed.len();
        let was_correct = pos < passage.len() && passage[pos] == c;
        self.stats.note_keypress(was_correct);
        let ghost pre = self.stats;
        typed.push(c);
        self.input = string_of(typed.as_slice());
        self.update_stats();
        let ghost mid = *self;
        self.check_completion(now);
        proof {
            assert(pre == keystroke_noted(
                old_app.stats,
                typed_correctly(old_app.input@, old_app.passage(), c),
                now,
            ));
            assert(mid == (App { input: mid.input, stats: mid.stats, ..old_app }));
        }
    }

    /// Carries out a plain backspace, or a word-delete when `ctrl` holds, as
    /// far as the backspace policy allows.
    fn handle_backspace_with_rules(&mut self, ctrl: bool, now: u64)
        requires
            old(self).wf(),
            old(self).state == State::TypingGame,
        ensures
            final(self).wf(),
            match deletion_target(old(self).input@, old(self).passage(), ctrl) {
                Some(n) => final(self).edited(old(self), old(self).input@.take(n), old(self).stats, now),
                None => *final(self) == *old(self),
            },
    {
        let ghost old_app = *self;
        let typed = chars_of(self.input.as_str());
        let passage = chars_of(self.texts[self.current_text_index].content.as_str());
        match deletion_length(typed.as_slice(), passage.as_slice(), ctrl) {
            Some(n) => {
                self.input = string_of(&typed.as_slice()[0..n]);
                self.update_stats();
                let ghost mid = *self;
                self.check_completion(now);
                proof {
                    assert(mid.input@ =~= old_app.input@.take(n as int));
                    assert(mid == (App { input: mid.input, stats: mid.stats, ..old_app }));
                    assert(mid.stats.updated_from(&old_app.stats, old_app.input@.take(n as int), old_app.passage()));
                    assert(self.completion_checked(&mid, now));
                }
            },
            None => {},
        }
    }

    /// A plain backspace, as far as the backspace policy allows.
    pub fn handle_backspace(&mut self, now: u64)
        requires
            old(self).wf(),
        ensures
            final(self).wf(),
            App::command_effect(old(self), final(self), Command::Backspace, now),
    {
        self.handle_command(Command::Backspace, now);
    }

    /// Starts typing from the main menu or the end screen.
    pub fn handle_enter(&mut self, now: u64)
        requires
            old(self).wf(),
        ensures
            final(self).wf(),
            App::command_effect(old(self), final(self), Command::Confirm, now),
    {
        self.handle_command(Command::Confirm, now);
    }

    /// Leaves typing or the end screen for the main menu; in the main menu,
    /// asks the host to exit.
    pub fn handle_escape(&mut self, now: u64)
        requires
            old(self).wf(),
        ensures
            final(self).wf(),
            App::command_effect(old(self), final(self), Command::Cancel, now),
    {
        self.handle_command(Command::Cancel, now);
    }

    /// Selects the next category (see `category_after`).
    pub fn cycle_category_right(&mut self)
        ensures
            opt_view(final(self).selected_category) == category_after(
                old(self).categories@,
                opt_view(old(self).selected_category),
            ),
            *final(self) == (App { selected_category: final(self).selected_category, ..*old(self) }),
    {
        if self.categories.len() == 0 {
            self.selected_category = None;
        } else {
            let next = match &self.selected_category {
                None => Some(self.categories[0].clone()),
                Some(cur) => {
                    let pos = self.category_position(cur);
                    if pos + 1 >= self.categories.len() {
                        None
                    } else {
                        Some(self.categories[pos + 1].clone())
                    }
                },
            };
            self.selected_category = next;
        }
    }

    /// Selects the previous category (see `category_before`).
    pub fn cycle_category_left(&mut self)
        ensures
            opt_view(final(self).selected_category) == category_before(
                old(self).categories@,
                opt_view(old(self).selected_category),
            ),
            *final(self) == (App { selected_category: final(self).selected_category, ..*old(self) }),
    {
        if self.categories.len() == 0 {
            self.selected_category = None;
        } else {
            let next = match &self.selected_category {
                None => Some(self.categories[self.categories.len() - 1].clone()),
                Some(cur) => {
                    let pos = self.category_position(cur);
                    if pos == 0 {
                        None
                    } else {
                        Some(self.categories[pos - 1].clone())
                    }
                },
            };
            self.selected_category = next;
        }
    }

    /// Where `cur` stands among the categories, counting an absent one as
    /// the first.
    fn category_position(&self, cur: &String) -> (r: usize)
        ensures
            r == position_of(self.categories@, cur@),
            self.categories@.len() > 0 ==> r < self.categories@.len(),
    {
        proof {
            lemma_find_from_bounds(self.categories@, cur@, 0);
        }
        let mut i: usize = 0;
        while i < self.categories.len()
            invariant
                i <= self.categories@.len(),
                find_from(self.categories@, cur@, i as int) == find_from(self.categories@, cur@, 0),
            decreases self.categories@.len() - i,
        {
            if self.categories[i] == *cur {
                return i;
            }
            i = i + 1;
        }
        0
    }

    /// Refreshes the statistics while typing and samples words per minute
    /// once per whole elapsed second, up to clock reading `now`.
    pub fn update(&mut self, now: u64)
        requires
            old(self).wf(),
        ensures
            final(self).wf(),
            old(self).state != State::TypingGame ==> *final(self) == *old(self),
            old(self).state == State::TypingGame ==> {
                let st = final(self).stats;
                let secs = st.elapsed_spec(now) / 1000;
                let v = rounded_wpm(wpm_hundredths_of(st.correct_chars as int, st.elapsed_spec(now)));
                &&& st.updated_from(&old(self).stats, old(self).input@, old(self).passage())
                &&& final(self).wpm_history@ == (if old(self).wpm_history@.len() < secs {
                    old(self).wpm_history@ + Seq::new(
                        (secs - old(self).wpm_history@.len()) as nat,
                        |i: int| v as u64,
                    )
                } else {
                    old(self).wpm_history@
                })
                &&& *final(self) == (App {
                    stats: final(self).stats,
                    wpm_history: final(self).wpm_history,
                    ..*old(self)
                })
            },
    {
        if self.state == State::TypingGame {
            self.update_stats();
            let secs: u64 = self.stats.elapsed_time(now) / 1000;
            let h = self.stats.wpm_hundredths(now);
            let rounded: u128 = (h + 50) / 100;
            let v: u64 = if rounded > u64::MAX as u128 {
                u64::MAX
            } else {
                rounded as u64
            };
            let ghost start = self.wpm_history@;
            let ghost before = *self;
            while (self.wpm_history.len() as u64) < secs
                invariant
                    *self == (App { wpm_history: self.wpm_history, ..before }),
                    before.wpm_history@ == start,
                    start.len() <= self.wpm_history@.len(),
                    self.wpm_history@.len() <= secs || self.wpm_history@.len() == start.len(),
                    self.wpm_history@ == start + Seq::new(
                        (self.wpm_history@.len() - start.len()) as nat,
                        |i: int| v,
                    ),
                decreases secs - self.wpm_history@.len(),
            {
                self.wpm_history.push(v);
            }
        }
    }
}

/// Typing exactly the passage finishes it, at 100% progress (for a
/// non-empty passage; an empty one stays at 0%).
pub proof fn lemma_exact_input_finishes(app: App)
    requires
        app.wf(),
        app.texts@.len() > 0,
        app.input@ == app.passage(),
        app.passage().len() > 0,
    ensures
        app.finished_spec(),
        app.progress_spec() == Some(10000int),
{
    vstd::arithmetic::div_mod::lemma_div_by_multiple(10000, app.passage().len() as int);
    assert(app.input@.len() * 10000 == 10000 * app.passage().len()) by (nonlinear_arith)
        requires
            app.input@.len() == app.passage().len(),
    ;
}

/// A deletion while typing never touches the keystroke ledger.
pub proof fn lemma_deletion_keeps_ledger(a0: App, a1: App, cmd: Command, now: u64)
    requires
        a0.state == State::TypingGame,
        cmd == Command::Backspace || cmd == Command::WordDelete,
        App::command_effect(&a0, &a1, cmd, now),
    ensures
        a1.stats.keystrokes_total == a0.stats.keystrokes_total,
        a1.stats.keystrokes_incorrect == a0.stats.keystrokes_incorrect,
{
    match deletion_target(a0.input@, a0.passage(), cmd == Command::WordDelete) {
        Some(n) => {
            let mid = choose|mid: App|
                {
                    &&& mid.input@ == a0.input@.take(n)
                    &&& mid.stats.updated_from(&a0.stats, a0.input@.take(n), a0.passage())
                    &&& mid == (App { input: mid.input, stats: mid.stats, ..a0 })
                    &&& a1.completion_checked(&mid, now)
                };
        },
        None => {},
    }
}

/// Correcting a character never lowers the count of keystrokes that were
/// wrong when typed: deleting it and typing it again, right or wrong, leaves
/// at least as many counted as before.
pub proof fn lemma_correction_keeps_history(
    a0: App,
    a1: App,
    a2: App,
    cmd: Command,
    c: char,
    t1: u64,
    t2: u64,
)
    requires
        a0.state == State::TypingGame,
        cmd == Command::Backspace || cmd == Command::WordDelete,
        App::command_effect(&a0, &a1, cmd, t1),
        App::command_effect(&a1, &a2, Command::Insert(c), t2),
    ensures
        a2.stats.keystrokes_incorrect >= a0.stats.keystrokes_incorrect,
        a2.stats.keystrokes_total >= a0.stats.keystrokes_total,
{
    lemma_deletion_keeps_ledger(a0, a1, cmd, t1);
    if a1.state == State::TypingGame {
        let pre = keystroke_noted(a1.stats, typed_correctly(a1.input@, a1.passage(), c), t2);
        let mid = choose|mid: App|
            {
                &&& mid.input@ == a1.input@.push(c)
                &&& mid.stats.updated_from(&pre, a1.input@.push(c), a1.passage())
                &&& mid == (App { input: mid.input, stats: mid.stats, ..a1 })
                &&& a2.completion_checked(&mid, t2)
            };
    }
}

/// Backspace and word-delete on an empty input change nothing.
pub proof fn lemma_delete_on_empty_is_noop(a0: App, a1: App, cmd: Command, now: u64)
    requires
        a0.state == State::TypingGame,
        a0.input@.len() == 0,
        cmd == Command::Backspace || cmd == Command::WordDelete,
        App::command_effect(&a0, &a1, cmd, now),
    ensures
        a1 == a0,
{
}

/// At the start of an empty word with no error anywhere before it, a
/// word-delete changes nothing, and repeating it changes nothing either.
pub proof fn lemma_word_delete_without_error_repeats(
    a0: App,
    a1: App,
    a2: App,
    t1: u64,
    t2: u64,
)
    requires
        a0.state == State::TypingGame,
        current_word_start(a0.input@) == a0.input@.len(),
        !has_error_before(a0.input@, a0.passage(), a0.input@.len() as int),
        App::command_effect(&a0, &a1, Command::WordDelete, t1),
        App::command_effect(&a1, &a2, Command::WordDelete, t2),
    ensures
        a1 == a0,
        a2 == a0,
{
    lemma_last_error_before(a0.input@, a0.passage(), a0.input@.len() as int);
    assert(word_delete_target(a0.input@, a0.passage()) is None);
}

} // verus!
