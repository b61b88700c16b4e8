use typerpunk::game::{Game, Theme};

#[test]
fn test_backspace_within_current_word() {
    let mut game = Game::new();
    game.set_text("Hello world".to_string());
    game.handle_input("Hello").unwrap();

    // Backspace within the current word is allowed
    assert!(game.handle_backspace(false).unwrap());
    assert_eq!(game.get_input(), "Hell");
}

#[test]
fn test_backspace_to_previous_word_with_error() {
    let mut game = Game::new();
    game.set_text("Hello world".to_string());
    game.handle_input("Hallo world").unwrap(); // "Hallo" has an error

    assert!(game.handle_backspace(false).unwrap());
    assert_eq!(game.get_input(), "Hallo worl");

    assert!(game.handle_backspace(false).unwrap());
    assert_eq!(game.get_input(), "Hallo wor");
}

#[test]
fn test_backspace_to_previous_word_without_error() {
    let mut game = Game::new();
    game.set_text("Hello world".to_string());
    game.handle_input("Hello world").unwrap(); // No errors

    let initial_input = game.get_input();
    assert!(!game.handle_backspace(false).unwrap());
    assert_eq!(game.get_input(), initial_input);
}

#[test]
fn test_game_completion_detection() {
    let mut game = Game::new();
    game.set_text("Hello world".to_string());

    assert!(!game.is_finished());

    game.handle_input("Hello world").unwrap();
    assert!(game.is_finished());

    let mut game2 = Game::new();
    game2.set_text("Hello world".to_string());
    game2.handle_input("Hello world").unwrap();
    assert!(game2.is_finished());
}

#[test]
fn game_word_delete_reaches_back_to_error() {
    let mut game = Game::new();
    game.set_text("Hello world test".to_string());
    game.handle_input("Hallo world test").unwrap();
    assert!(game.can_ctrl_backspace());
    // The word being typed goes first.
    assert!(game.handle_backspace(true).unwrap());
    assert_eq!(game.get_input(), "Hallo world ");
    // At a word start, the delete reaches the word holding the error.
    assert!(game.handle_backspace(true).unwrap());
    assert_eq!(game.get_input(), "");
    // Nothing is left to delete.
    assert!(!game.handle_backspace(true).unwrap());
}

#[test]
fn game_word_delete_without_error_is_refused() {
    let mut game = Game::new();
    game.set_text("foo bar baz".to_string());
    game.handle_input("foo bar ").unwrap();
    assert!(!game.handle_backspace(true).unwrap());
    assert_eq!(game.get_input(), "foo bar ");
    assert!(!game.handle_backspace(true).unwrap());
    assert_eq!(game.get_input(), "foo bar ");
}

#[test]
fn game_running_tallies() {
    let mut game = Game::new();
    game.set_text("Hello world".to_string());
    game.handle_input("Hallo").unwrap();
    assert_eq!(game.get_total_mistakes(), 1);
    assert_eq!(game.get_error_positions(), vec![1]);
    assert_eq!(game.total_mistakes, 1);
    // Correcting the error leaves the tally of mistakes made.
    game.handle_input("H").unwrap();
    game.handle_input("Hello").unwrap();
    assert_eq!(game.get_total_mistakes(), 1);
    assert_eq!(game.total_mistakes, 0);
    assert_eq!(game.total_characters_typed, 9);
    assert_eq!(game.total_correct_characters, 8);
    assert_eq!(game.get_accuracy_hundredths(), 8888);
    // Characters past the end of the passage are mistakes.
    game.handle_input("Hello worldxy").unwrap();
    assert_eq!(game.total_mistakes, 2);
    assert_eq!(game.get_total_mistakes(), 3);
    assert_eq!(game.get_current_streak(), 11);
    assert_eq!(game.get_best_streak(), 11);
}

#[test]
fn game_theme_and_clock() {
    let mut game = Game::new();
    assert_eq!(game.get_theme(), Theme::Dark);
    game.set_theme(Theme::from_name("light"));
    assert_eq!(game.get_theme(), Theme::Light);
    assert_eq!(game.get_theme().name(), "light");
    assert_eq!(Theme::from_name("solarized"), Theme::Dark);
    assert_eq!(game.get_time_elapsed(10_000), 0);
    game.start(2_000);
    assert_eq!(game.get_time_elapsed(10_000), 8_000);
}

#[test]
fn game_finished_ignores_input() {
    let mut game = Game::new();
    game.set_text("ab".to_string());
    game.handle_input("ab").unwrap();
    assert!(game.is_finished());
    game.handle_input("abc").unwrap();
    assert_eq!(game.get_input(), "ab");
    assert!(!game.can_backspace());
}
