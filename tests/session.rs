use typerpunk::app::{App, State};
use typerpunk::backspace::deletion_length;
use typerpunk::chars::{chars_of, word_start};
use typerpunk::config::Config;
use typerpunk::corpus::categories_of;
use typerpunk::diff::DiffState;
use typerpunk::keys::{classify, Command, Key, KeyCode};
use typerpunk::stats::Stats;
use typerpunk::text::Text;

fn session(passage: &str) -> App {
    let mut app = App::new_with_texts(Config::new(), vec![Text::from_str(passage)]);
    app.handle_input(Key::plain(KeyCode::Enter), 0);
    app
}

fn type_str(app: &mut App, s: &str, now: u64) {
    for c in s.chars() {
        app.handle_input(Key::plain(KeyCode::Char(c)), now);
    }
}

#[test]
fn typed_passage_finishes_at_full_progress() {
    let mut app = session("Hello world");
    assert_eq!(app.state, State::TypingGame);
    assert_eq!(app.get_progress(), Some(0));
    type_str(&mut app, "Hello", 1_000);
    assert!(!app.is_finished());
    assert_eq!(app.get_progress(), Some(4545));
    type_str(&mut app, " world", 2_000);
    assert!(app.is_finished());
    assert_eq!(app.get_progress(), Some(10000));
    assert_eq!(app.state, State::EndScreen);
    assert_eq!(app.stats.start_time, Some(1_000));
    assert_eq!(app.stats.end_time, Some(2_000));
    assert!(!app.stats.is_running());
}

#[test]
fn completion_ignores_surrounding_whitespace() {
    let mut app = session("  hi ");
    type_str(&mut app, "hi", 10);
    assert_eq!(app.state, State::EndScreen);
}

#[test]
fn overtyping_progress_is_unclamped() {
    let mut app = session("ab");
    app.input = "abcd".to_string();
    assert_eq!(app.get_progress(), Some(20000));
}

#[test]
fn errors_and_matches_cover_compared_positions() {
    let pairs = [
        ("cbt", "cat"),
        ("hello wrld", "hello world"),
        ("abc", "ab"),
        ("", "abc"),
        ("h\u{e9}llo", "hello"),
        ("\u{4e16}\u{754c}x", "\u{4e16}y"),
    ];
    for (input, target) in pairs {
        let a = chars_of(input);
        let b = chars_of(target);
        let d = DiffState::compute(&a, &b);
        assert_eq!(d.error_positions.len() + d.correct_count, a.len().min(b.len()));
    }
}

#[test]
fn multibyte_characters_compare_by_scalar_value() {
    let a = chars_of("\u{e9}t\u{e9}");
    let b = chars_of("\u{e9}t\u{e8}");
    let d = DiffState::compute(&a, &b);
    assert_eq!(d.error_positions, vec![2]);
    assert_eq!(d.correct_count, 2);
    assert_eq!(d.best_streak, 2);
    assert_eq!(d.current_streak, 0);
}

#[test]
fn correction_never_heals_the_ledger() {
    let mut app = session("cat");
    type_str(&mut app, "cb", 0);
    assert_eq!(app.stats.keystrokes_total, 2);
    assert_eq!(app.stats.keystrokes_incorrect, 1);
    assert_eq!(app.stats.accuracy_hundredths(), 5000);
    app.handle_input(Key::plain(KeyCode::Backspace), 0);
    assert_eq!(app.get_input(), "c");
    assert_eq!(app.stats.keystrokes_incorrect, 1);
    type_str(&mut app, "a", 0);
    assert_eq!(app.stats.error_positions, Vec::<usize>::new());
    assert_eq!(app.stats.keystrokes_total, 3);
    assert_eq!(app.stats.keystrokes_incorrect, 1);
    assert_eq!(app.stats.accuracy_hundredths(), 6666);
}

#[test]
fn deletions_on_empty_input_change_nothing() {
    let mut app = session("cat");
    app.handle_input(Key::plain(KeyCode::Backspace), 5);
    app.handle_input(Key::ctrl(KeyCode::Backspace), 5);
    app.handle_backspace(5);
    assert_eq!(app.get_input(), "");
    assert_eq!(app.state, State::TypingGame);
    assert!(app.stats.start_time.is_none());
    assert_eq!(app.stats.keystrokes_total, 0);
}

#[test]
fn repeated_word_deletes_without_error_do_nothing() {
    let mut app = session("foo bar baz");
    type_str(&mut app, "foo bar ", 0);
    for _ in 0..3 {
        app.handle_input(Key::ctrl(KeyCode::Char('w')), 0);
        assert_eq!(app.get_input(), "foo bar ");
    }
}

#[test]
fn scenario_cat_typed_cbt() {
    let mut app = session("cat");
    type_str(&mut app, "cbt", 0);
    assert_eq!(app.stats.get_error_positions(), vec![1]);
    assert_eq!(app.stats.correct_chars, 2);
    app.handle_input(Key::plain(KeyCode::Backspace), 0);
    assert_eq!(app.get_input(), "cb");
    app.handle_input(Key::plain(KeyCode::Backspace), 0);
    assert_eq!(app.get_input(), "c");
    app.handle_input(Key::plain(KeyCode::Backspace), 0);
    assert_eq!(app.get_input(), "");
}

#[test]
fn scenario_foo_bar_backspace_stops_at_clean_word() {
    let passage = chars_of("foo bar");
    let mut typed = chars_of("foo bar");
    let mut removed = Vec::new();
    while let Some(n) = deletion_length(&typed, &passage, false) {
        removed.push(typed[n]);
        typed.truncate(n);
    }
    assert_eq!(removed, vec!['r', 'a', 'b']);
    assert_eq!(typed, chars_of("foo "));

    let mut app = session("foo bar baz");
    type_str(&mut app, "foo bar", 0);
    for expected in ["foo ba", "foo b", "foo ", "foo ", "foo "] {
        app.handle_input(Key::plain(KeyCode::Backspace), 0);
        assert_eq!(app.get_input(), expected);
    }
}

#[test]
fn scenario_extra_character_counts_as_incorrect() {
    let d = DiffState::compute(&chars_of("abc"), &chars_of("ab"));
    assert_eq!(d.incorrect_count, 1);
    assert_eq!(d.error_positions, Vec::<usize>::new());
    let mut stats = Stats::new();
    stats.update("abc", "ab");
    assert_eq!(stats.incorrect_chars, 1);
    assert!(stats.error_positions.is_empty());
}

#[test]
fn scenario_category_cycling() {
    let texts = vec![
        Text::from_all("one", "", "en", "a"),
        Text::from_all("two", "", "en", "b"),
    ];
    let mut app = App::new_with_texts(Config::new(), texts);
    assert_eq!(app.categories, vec!["a".to_string(), "b".to_string()]);
    assert_eq!(app.selected_category, None);
    app.handle_input(Key::plain(KeyCode::Right), 0);
    assert_eq!(app.selected_category, Some("a".to_string()));
    app.handle_input(Key::plain(KeyCode::Right), 0);
    assert_eq!(app.selected_category, Some("b".to_string()));
    app.handle_input(Key::plain(KeyCode::Right), 0);
    assert_eq!(app.selected_category, None);
    app.handle_input(Key::plain(KeyCode::Left), 0);
    assert_eq!(app.selected_category, Some("b".to_string()));
    app.handle_input(Key::plain(KeyCode::Left), 0);
    assert_eq!(app.selected_category, Some("a".to_string()));
    app.handle_input(Key::plain(KeyCode::Left), 0);
    assert_eq!(app.selected_category, None);
    assert_eq!(app.state, State::MainMenu);
}

#[test]
fn categories_are_sorted_distinct_and_non_empty() {
    let texts = vec![
        Text::from_all("1", "", "", "zeta"),
        Text::from_all("2", "", "", ""),
        Text::from_all("3", "", "", "alpha"),
        Text::from_all("4", "", "", "zeta"),
        Text::from_all("5", "", "", "Beta"),
    ];
    let cats = categories_of(&texts);
    assert_eq!(cats, vec!["Beta".to_string(), "alpha".to_string(), "zeta".to_string()]);
}

#[test]
fn selected_category_decides_the_passage() {
    let texts = vec![
        Text::from_all("x", "", "", "a"),
        Text::from_all("y", "", "", "b"),
        Text::from_all("z", "", "", "a"),
    ];
    let mut app = App::new_with_texts(Config::new(), texts);
    assert!(app.current_text_index < 3);
    app.cycle_category_right();
    app.cycle_category_right();
    assert_eq!(app.selected_category, Some("b".to_string()));
    for _ in 0..5 {
        app.handle_enter(0);
        assert_eq!(app.current_text_index, 1);
        assert_eq!(app.current_text().content(), "y");
        app.handle_escape(0);
        assert_eq!(app.state, State::MainMenu);
    }
    assert_eq!(app.choose_text_index(7), 1);
    app.cycle_category_left();
    assert_eq!(app.selected_category, Some("a".to_string()));
    assert_eq!(app.candidate_indices(), vec![0, 2]);
    assert_eq!(app.choose_text_index(0), 0);
    assert_eq!(app.choose_text_index(3), 2);
}

#[test]
fn empty_corpus_stays_in_menu() {
    let mut app = App::new_with_texts(Config::new(), Vec::new());
    app.handle_input(Key::plain(KeyCode::Enter), 0);
    assert_eq!(app.state, State::MainMenu);
    app.handle_input(Key::plain(KeyCode::Esc), 0);
    assert!(app.should_exit);
}

#[test]
fn escape_and_enter_transitions() {
    let mut app = session("abc");
    type_str(&mut app, "ab", 0);
    app.handle_input(Key::plain(KeyCode::Esc), 0);
    assert_eq!(app.state, State::MainMenu);
    assert_eq!(app.get_input(), "");
    assert!(!app.should_exit);
    app.handle_input(Key::plain(KeyCode::Enter), 0);
    type_str(&mut app, "abc", 0);
    assert_eq!(app.state, State::EndScreen);
    // Keys other than Enter and Esc do nothing on the end screen.
    app.handle_input(Key::plain(KeyCode::Char('x')), 0);
    assert_eq!(app.get_input(), "abc");
    app.handle_input(Key::plain(KeyCode::Enter), 0);
    assert_eq!(app.state, State::TypingGame);
    assert_eq!(app.get_input(), "");
    app.handle_input(Key::plain(KeyCode::Esc), 0);
    app.handle_input(Key::plain(KeyCode::Esc), 0);
    assert!(app.should_exit);
}

#[test]
fn modifiers_decide_what_a_key_does() {
    assert_eq!(classify(Key::ctrl(KeyCode::Char('w'))), Command::WordDelete);
    assert_eq!(classify(Key::ctrl(KeyCode::Char('H'))), Command::WordDelete);
    assert_eq!(classify(Key::ctrl(KeyCode::Char('a'))), Command::Ignore);
    let alt_x = Key { code: KeyCode::Char('x'), ctrl: false, alt: true, shift: false };
    assert_eq!(classify(alt_x), Command::Ignore);
    let shift_x = Key { code: KeyCode::Char('X'), ctrl: false, alt: false, shift: true };
    assert_eq!(classify(shift_x), Command::Insert('X'));
    let alt_bs = Key { code: KeyCode::Backspace, ctrl: false, alt: true, shift: false };
    assert_eq!(classify(alt_bs), Command::WordDelete);
    assert_eq!(classify(Key::plain(KeyCode::Backspace)), Command::Backspace);
    assert_eq!(classify(Key::plain(KeyCode::Home)), Command::Ignore);

    let mut app = session("hello world");
    type_str(&mut app, "hello wo", 0);
    app.handle_input(Key::ctrl(KeyCode::Char('a')), 0);
    assert_eq!(app.get_input(), "hello wo");
    app.handle_input(shift_x, 0);
    assert_eq!(app.get_input(), "hello woX");
    app.handle_input(Key::ctrl(KeyCode::Char('h')), 0);
    assert_eq!(app.get_input(), "hello ");
}

#[test]
fn word_delete_goes_back_to_the_word_with_the_error() {
    let mut app = session("foo bar baz qux");
    type_str(&mut app, "fao bar bzz qux", 0);
    app.handle_input(Key::ctrl(KeyCode::Backspace), 0);
    assert_eq!(app.get_input(), "fao bar bzz ");
    app.handle_input(Key::ctrl(KeyCode::Backspace), 0);
    assert_eq!(app.get_input(), "fao bar ");
    app.handle_input(Key::ctrl(KeyCode::Backspace), 0);
    assert_eq!(app.get_input(), "");
}

#[test]
fn word_boundaries_treat_whitespace_runs_as_one() {
    assert_eq!(word_start(&chars_of("foo  ")), 5);
    assert_eq!(word_start(&chars_of("foo  ba")), 5);
    assert_eq!(word_start(&chars_of("  foo")), 2);
    assert_eq!(word_start(&chars_of("foo\tbar")), 4);
    assert_eq!(word_start(&chars_of("foo")), 0);
    assert_eq!(word_start(&chars_of("")), 0);
}

#[test]
fn wpm_history_samples_each_whole_second() {
    let mut app = session("abcdefghij");
    type_str(&mut app, "abcde", 0);
    app.update(3_500);
    assert_eq!(app.wpm_history.len(), 3);
    // 5 correct characters in 3.5 s: about 17.14 words per minute.
    assert_eq!(app.wpm_history, vec![17, 17, 17]);
    app.update(3_900);
    assert_eq!(app.wpm_history.len(), 3);
    app.update(5_000);
    assert_eq!(app.wpm_history.len(), 5);
    app.handle_escape(6_000);
    app.update(9_000);
    assert!(app.wpm_history.is_empty());
}

#[test]
fn update_stats_only_while_typing() {
    let mut app = App::new_with_texts(Config::new(), vec![Text::from_str("abc")]);
    app.input = "xyz".to_string();
    app.update_stats();
    assert_eq!(app.stats.total_chars, 0);
    app.state = State::TypingGame;
    app.current_text_index = 0;
    app.update_stats();
    assert_eq!(app.stats.total_chars, 3);
    assert_eq!(app.stats.error_positions, vec![0, 1, 2]);
}

#[test]
fn reset_starts_a_new_session() {
    let mut app = session("abc");
    type_str(&mut app, "ab", 0);
    app.update(2_000);
    app.reset();
    assert_eq!(app.get_input(), "");
    assert!(app.wpm_history.is_empty());
    assert_eq!(app.stats.keystrokes_total, 0);
    assert_eq!(app.current_text_index, 0);
    assert_eq!(app.state, State::TypingGame);
}

#[test]
fn config_defaults() {
    let c = Config::new();
    assert_eq!(c.get_theme(), "dark");
    assert_eq!(c.get_mode(), "time");
    assert_eq!(c.get_time(), 60);
    assert_eq!(c.get_words(), 50);
}

#[test]
fn random_draws_reach_every_passage_of_the_pool() {
    let texts = vec![Text::from_str("one"), Text::from_str("two")];
    let mut app = App::new_with_texts(Config::new(), texts);
    let mut seen = [false, false];
    for _ in 0..200 {
        app.handle_enter(0);
        seen[app.current_text_index] = true;
        app.handle_escape(0);
    }
    assert!(seen[0] && seen[1]);
}
