use numerical_approximater::input::TextInput;

#[test]
fn new_places_cursor_at_end() {
    let input = TextInput::new("abc");
    assert_eq!(input.cursor, 3);
    assert_eq!(input.as_str(), "abc");
}

#[test]
fn insert_at_cursor() {
    let mut input = TextInput::new("ac");
    input.cursor = 1;
    input.insert('b');
    assert_eq!(input.as_str(), "abc");
    assert_eq!(input.cursor, 2);
}

#[test]
fn backspace_at_start_is_noop() {
    let mut input = TextInput::new("a");
    input.cursor = 0;
    input.backspace();
    assert_eq!(input.as_str(), "a");
    assert_eq!(input.cursor, 0);
}

#[test]
fn backspace_removes_previous_char() {
    let mut input = TextInput::new("ab");
    input.cursor = 2;
    input.backspace();
    assert_eq!(input.as_str(), "a");
    assert_eq!(input.cursor, 1);
}

#[test]
fn delete_at_end_is_noop() {
    let mut input = TextInput::new("ab");
    input.cursor = 2;
    input.delete();
    assert_eq!(input.as_str(), "ab");
}

#[test]
fn delete_removes_char_at_cursor() {
    let mut input = TextInput::new("abc");
    input.cursor = 1;
    input.delete();
    assert_eq!(input.as_str(), "ac");
    assert_eq!(input.cursor, 1);
}

#[test]
fn cursor_left_stops_at_start() {
    let mut input = TextInput::new("ab");
    input.cursor_left();
    input.cursor_left();
    assert_eq!(input.cursor, 0);
}

#[test]
fn cursor_right_stops_at_end() {
    let mut input = TextInput::new("ab");
    input.cursor_end();
    input.cursor_right();
    assert_eq!(input.cursor, 2);
}

#[test]
fn cursor_home_and_end() {
    let mut input = TextInput::new("hello");
    input.cursor_home();
    assert_eq!(input.cursor, 0);
    input.cursor_end();
    assert_eq!(input.cursor, 5);
}

#[test]
fn unicode_cursor_positions() {
    let mut input = TextInput::new("a\u{e9}b");
    assert_eq!(input.char_len(), 3);
    input.cursor = 1;
    input.insert('\u{f1}');
    assert_eq!(input.as_str(), "a\u{f1}\u{e9}b");
    assert_eq!(input.char_len(), 4);
    input.cursor = 2;
    input.backspace();
    assert_eq!(input.as_str(), "a\u{e9}b");
}

#[test]
fn backspace_undoes_insert_with_wide_characters() {
    let mut input = TextInput::new("x\u{1F600}y\u{2032}");
    for cur in 0..=4 {
        input.cursor = cur;
        input.insert('\u{3000}');
        input.backspace();
        assert_eq!(input.as_str(), "x\u{1F600}y\u{2032}");
        assert_eq!(input.cursor, cur);
    }
}

#[test]
fn cursor_past_end_types_at_end() {
    let mut input = TextInput::new("ab");
    input.cursor = 7;
    input.insert('c');
    assert_eq!(input.as_str(), "abc");
    assert_eq!(input.cursor, 8);
    input.backspace();
    assert_eq!(input.as_str(), "abc");
    assert_eq!(input.cursor, 7);
    input.delete();
    assert_eq!(input.as_str(), "abc");
}
