use typerpunk::text::Text;

#[test]
fn test_text_creation() {
    let content = "Hello, world!";
    let text = Text::from_str(content);
    assert_eq!(text.content(), content);
    assert_eq!(text.words().len(), 2);
}

#[test]
fn test_text_word_count() {
    let text = Text::from_str("Hello world! This is a test.");
    assert_eq!(text.words().len(), 6);
}

#[test]
fn test_text_empty() {
    let text = Text::from_str("");
    assert_eq!(text.content(), "");
    assert_eq!(text.words().len(), 0);
}

#[test]
fn test_text_multiple_spaces() {
    let text = Text::from_str("Hello    world!    This   is   a   test.");
    assert_eq!(text.words().len(), 6);
}

#[test]
fn test_text_with_mixed_case() {
    let text = Text::from_str("Hello WORLD! This IS a TEST.");
    assert_eq!(text.words().len(), 6);
}

#[test]
fn test_text_with_unicode() {
    let text = Text::from_str("Hello ä¸–ç•Œ! This is a ãƒ†ã‚¹ãƒˆ.");
    assert_eq!(text.words().len(), 6);
}

#[test]
fn test_text_with_tabs() {
    let text = Text::from_str("Hello\tworld!\tThis\tis\ta\ttest.");
    assert_eq!(text.words().len(), 6);
}

#[test]
fn test_text_with_newlines() {
    let text = Text::from_str("Hello\nworld!\nThis\nis\na\ntest.");
    assert_eq!(text.words().len(), 6);
}
