use typerpunk::app::App;
use typerpunk::config::Config;
use typerpunk::input::{Input, InputHandler};
use typerpunk::keys::{Key, KeyCode};
use typerpunk::text::Text;

#[test]
fn editor_inserts_and_deletes_at_the_cursor() {
    let mut input = Input::new();
    for c in "hllo".chars() {
        input.insert_char(c);
    }
    assert_eq!(input.content(), "hllo");
    assert_eq!(input.get_cursor_position(), 4);
    input.move_cursor_to_start();
    input.move_cursor_right();
    input.insert_char('\u{e9}');
    assert_eq!(input.content(), "h\u{e9}llo");
    assert_eq!(input.get_cursor_position(), 2);
    assert!(input.backspace());
    assert_eq!(input.content(), "hllo");
    assert!(input.delete_char());
    assert_eq!(input.content(), "hlo");
    input.move_cursor_to_end();
    assert!(!input.delete_char());
    input.move_cursor_right();
    assert_eq!(input.get_cursor_position(), 3);
    input.move_cursor_to_start();
    input.move_cursor_left();
    assert_eq!(input.get_cursor_position(), 0);
    assert!(!input.backspace());
}

#[test]
fn editor_handles_key_events() {
    let mut input = Input::default();
    assert!(input.handle_event(Key::plain(KeyCode::Char('a'))));
    assert!(input.handle_event(Key::plain(KeyCode::Char('b'))));
    assert!(!input.handle_event(Key::ctrl(KeyCode::Char('c'))));
    assert!(input.handle_event(Key::plain(KeyCode::Left)));
    assert!(input.handle_event(Key::plain(KeyCode::Backspace)));
    assert_eq!(input.content(), "b");
    assert!(input.handle_event(Key::plain(KeyCode::End)));
    assert_eq!(input.get_cursor_position(), 1);
    assert!(!input.handle_event(Key::plain(KeyCode::Enter)));
}

#[test]
fn editor_history_keeps_the_latest_lines() {
    let mut input = Input::new();
    input.clear();
    assert!(input.history.is_empty());
    for i in 0..105 {
        input.insert_char(char::from(b'a' + (i % 26) as u8));
        input.clear();
    }
    assert_eq!(input.history.len(), 100);
    assert_eq!(input.history_index, 100);
    assert_eq!(input.history[0], "f");
    assert_eq!(input.content(), "");
}

#[test]
fn input_handler_wraps_the_session() {
    let app = App::new_with_texts(Config::new(), vec![Text::from_str("abc")]);
    let handler = InputHandler::new(app, 42);
    assert_eq!(handler.tick_rate, 100);
    assert_eq!(handler.last_tick, 42);
    assert_eq!(handler.app.texts.len(), 1);
}
