use typerpunk::stats::Stats;

#[test]
fn stats_test_stats_initialization() {
    let stats = Stats::new();
    assert_eq!(stats.start_time, None);
    assert_eq!(stats.end_time, None);
    assert_eq!(stats.error_positions, Vec::<usize>::new());
    assert_eq!(stats.current_streak, 0);
    assert_eq!(stats.best_streak, 0);
}

#[test]
fn stats_test_stats_update() {
    let now: u64 = 1_000;
    let mut stats = Stats::new();
    stats.start_time = Some(now);
    stats.update("hello", "hello");
    stats.end_time = Some(now);

    assert_eq!(stats.start_time, Some(now));
    assert_eq!(stats.end_time, Some(now));
    assert_eq!(stats.error_positions, Vec::<usize>::new());
    assert_eq!(stats.current_streak, 5);
    assert_eq!(stats.best_streak, 5);
}

#[test]
fn test_stats_word_counting() {
    let mut stats = Stats::new();
    stats.total_words = 2;
    stats.correct_words = 2;

    assert_eq!(stats.total_words, 2);
    assert_eq!(stats.correct_words, 2);
}

#[test]
fn stats_tests_test_stats_initialization() {
    let stats = Stats::new();
    assert_eq!(stats.wpm_hundredths(0) as f64 / 100.0, 0.0);
    assert_eq!(stats.accuracy_hundredths() as f64 / 100.0, 100.0);
    assert_eq!(stats.total_chars, 0);
    assert_eq!(stats.correct_chars, 0);
    assert_eq!(stats.incorrect_chars, 0);
    assert_eq!(stats.total_words, 0);
    assert_eq!(stats.correct_words, 0);
    assert_eq!(stats.errors, 0);
    assert_eq!(stats.get_time_elapsed(0), 0);
    assert!(stats.error_positions.is_empty());
    assert_eq!(stats.current_streak, 0);
    assert_eq!(stats.best_streak, 0);
}

#[test]
fn test_stats_start_stop() {
    let mut stats = Stats::new();
    assert!(!stats.is_running());

    stats.start(0);
    assert!(stats.is_running());

    stats.stop(0);
    assert!(!stats.is_running());
}

#[test]
fn stats_tests_test_stats_update() {
    let mut stats = Stats::new();
    stats.start(0);

    // Perfect typing
    stats.update("hello", "hello");
    assert_eq!(stats.correct_chars, 5);
    assert_eq!(stats.incorrect_chars, 0);
    assert_eq!(stats.total_chars, 5);
    assert_eq!(stats.current_streak, 5);
    assert_eq!(stats.best_streak, 5);

    // With errors
    stats.update("helo", "hello");
    assert_eq!(stats.correct_chars, 3);
    assert_eq!(stats.incorrect_chars, 1);
    assert_eq!(stats.total_chars, 4);
    assert_eq!(stats.current_streak, 0);
    assert_eq!(stats.best_streak, 5);
}

#[test]
fn test_stats_reset() {
    let mut stats = Stats::new();
    stats.start(0);
    stats.update("hello", "hello");
    stats.reset();

    assert_eq!(stats.wpm_hundredths(60_000) as f64 / 100.0, 0.0);
    assert_eq!(stats.accuracy_hundredths() as f64 / 100.0, 100.0);
    assert_eq!(stats.total_chars, 0);
    assert_eq!(stats.correct_chars, 0);
    assert_eq!(stats.incorrect_chars, 0);
    assert_eq!(stats.total_words, 0);
    assert_eq!(stats.correct_words, 0);
    assert_eq!(stats.errors, 0);
    assert_eq!(stats.get_time_elapsed(60_000), 0);
    assert!(stats.error_positions.is_empty());
    assert_eq!(stats.current_streak, 0);
    assert_eq!(stats.best_streak, 0);
}

#[test]
fn test_stats_wpm_calculation() {
    let mut stats = Stats::new();
    stats.start(0);

    // 35 correct characters (7 words) in 35 seconds
    stats.update(
        "hello world hello world hello world",
        "hello world hello world hello world",
    );
    assert_eq!(stats.wpm_hundredths(35_000) as f64 / 100.0, 12.0);
}

#[test]
fn test_stats_streak_tracking() {
    let mut stats = Stats::new();
    stats.start(0);

    stats.update("hello", "hello");
    assert_eq!(stats.current_streak, 5);
    assert_eq!(stats.best_streak, 5);

    stats.update("helo", "hello");
    assert_eq!(stats.current_streak, 0);
    assert_eq!(stats.best_streak, 5);

    stats.update("hello", "hello");
    assert_eq!(stats.current_streak, 5);
    assert_eq!(stats.best_streak, 5);
}

#[test]
fn stats_word_tallies() {
    let mut stats = Stats::new();
    stats.update("the quick brwn", "the quick brown fox");
    assert_eq!(stats.total_words, 3);
    assert_eq!(stats.correct_words, 2);
}

#[test]
fn stats_keystroke_ledger_and_accuracy() {
    let mut stats = Stats::new();
    for correct in [true, true, false, true, true, true, true, false, true, true] {
        stats.note_keypress(correct);
    }
    assert_eq!(stats.keystrokes_total, 10);
    assert_eq!(stats.keystrokes_incorrect, 2);
    assert_eq!(stats.accuracy_hundredths(), 8000);
    // A later correction of the input leaves the ledger alone.
    stats.update("hello", "hello");
    assert_eq!(stats.keystrokes_incorrect, 2);
    assert_eq!(stats.accuracy_hundredths(), 8000);
    // More wrong keystrokes never raise accuracy.
    stats.note_keypress(false);
    assert!(stats.accuracy_hundredths() < 8000);
}

#[test]
fn stats_live_accuracy() {
    let mut stats = Stats::new();
    assert_eq!(stats.live_accuracy_hundredths(), 10000);
    stats.update("hello wrld", "hello world");
    assert_eq!(stats.correct_chars, 7);
    assert_eq!(stats.live_accuracy_hundredths(), 7000);
}

#[test]
fn stats_elapsed_time_and_wpm() {
    let mut stats = Stats::new();
    assert_eq!(stats.elapsed_time(5_000), 0);
    stats.start(1_000);
    stats.update("hello world", "hello world");
    assert_eq!(stats.elapsed_time(61_000), 60_000);
    // 11 correct characters in one minute: 2.2 words per minute.
    assert_eq!(stats.wpm_hundredths(61_000), 220);
    stats.finish(31_000);
    assert_eq!(stats.get_time_elapsed(99_000), 30_000);
    assert_eq!(stats.wpm_hundredths(99_000), 440);
    // A clock reading before the start counts as no time.
    let mut early = Stats::new();
    early.start(5_000);
    assert_eq!(early.get_time_elapsed(1_000), 0);
    assert_eq!(early.wpm_hundredths(1_000), 0);
}
