use curlrs::keys::{KeyCode, KeyInput};
use curlrs::text_input::TextInput;

fn key(code: KeyCode) -> KeyInput {
    KeyInput::plain(code)
}

fn shift(code: KeyCode) -> KeyInput {
    KeyInput::with_modifiers(code, true, false)
}

fn typed(t: &mut TextInput, s: &str) {
    for c in s.chars() {
        t.handle_key_event(key(KeyCode::Char(c)));
    }
}

#[test]
fn new_input_starts_empty_and_unfocused() {
    let t = TextInput::new(String::from("abc"));
    assert_eq!(t.value(), "abc");
    assert_eq!(t.cursor, 0);
    assert!(!t.focused);
    assert!(!t.multiline);
    assert_eq!(t.selection_range(), None);
    let m = TextInput::new_multiline(String::new());
    assert!(m.multiline);
}

#[test]
fn unfocused_input_ignores_keys() {
    let mut t = TextInput::new(String::from("abc"));
    assert!(!t.handle_key_event(key(KeyCode::Char('x'))));
    assert!(!t.handle_key_event(key(KeyCode::Enter)));
    assert_eq!(t.value(), "abc");
    assert_eq!(t.cursor, 0);
}

#[test]
fn typing_inserts_at_cursor() {
    let mut t = TextInput::new(String::new());
    t.focus();
    typed(&mut t, "hllo");
    assert_eq!(t.value(), "hllo");
    t.handle_key_event(key(KeyCode::Left));
    t.handle_key_event(key(KeyCode::Left));
    t.handle_key_event(key(KeyCode::Left));
    typed(&mut t, "e");
    assert_eq!(t.value(), "hello");
    assert_eq!(t.cursor, 2);
}

#[test]
fn backspace_and_delete() {
    let mut t = TextInput::new(String::from("abcd"));
    t.focus();
    t.cursor = 2;
    t.handle_key_event(key(KeyCode::Backspace));
    assert_eq!(t.value(), "acd");
    assert_eq!(t.cursor, 1);
    t.handle_key_event(key(KeyCode::Delete));
    assert_eq!(t.value(), "ad");
    assert_eq!(t.cursor, 1);
    t.cursor = 0;
    t.handle_key_event(key(KeyCode::Backspace));
    assert_eq!(t.value(), "ad");
    t.cursor = 2;
    t.handle_key_event(key(KeyCode::Delete));
    assert_eq!(t.value(), "ad");
}

#[test]
fn type_then_backspace_restores() {
    let mut t = TextInput::new(String::from("héllo"));
    t.focus();
    t.cursor = 3;
    t.handle_key_event(key(KeyCode::Char('ß')));
    assert_eq!(t.value(), "hélßlo");
    t.handle_key_event(key(KeyCode::Backspace));
    assert_eq!(t.value(), "héllo");
    assert_eq!(t.cursor, 3);
}

#[test]
fn enter_submits_single_line_only() {
    let mut t = TextInput::new(String::from("x"));
    t.focus();
    assert!(t.handle_key_event(key(KeyCode::Enter)));
    assert_eq!(t.value(), "x");
    let mut m = TextInput::new_multiline(String::from("ab"));
    m.focus();
    m.cursor = 1;
    assert!(!m.handle_key_event(key(KeyCode::Enter)));
    assert_eq!(m.value(), "a\nb");
    assert_eq!(m.cursor, 2);
    assert_eq!(m.cursor_row(), 1);
    assert_eq!(m.cursor_col(), 0);
}

#[test]
fn shift_selection_and_replace() {
    let mut t = TextInput::new(String::from("hello world"));
    t.focus();
    t.cursor = 5;
    t.handle_key_event(shift(KeyCode::Left));
    t.handle_key_event(shift(KeyCode::Left));
    assert_eq!(t.selection_anchor, Some(5));
    assert_eq!(t.selection_range(), Some((3, 5)));
    assert!(t.has_selection());
    typed(&mut t, "p");
    assert_eq!(t.value(), "help world");
    assert_eq!(t.cursor, 4);
    assert_eq!(t.selection_anchor, None);
}

#[test]
fn selection_deleted_by_backspace() {
    let mut t = TextInput::new(String::from("abcdef"));
    t.focus();
    t.cursor = 1;
    t.handle_key_event(shift(KeyCode::Right));
    t.handle_key_event(shift(KeyCode::Right));
    t.handle_key_event(shift(KeyCode::Right));
    assert_eq!(t.selection_range(), Some((1, 4)));
    t.handle_key_event(key(KeyCode::Backspace));
    assert_eq!(t.value(), "aef");
    assert_eq!(t.cursor, 1);
    assert!(!t.has_selection());
}

#[test]
fn plain_move_drops_selection() {
    let mut t = TextInput::new(String::from("abc"));
    t.focus();
    t.handle_key_event(shift(KeyCode::Right));
    assert!(t.has_selection());
    t.handle_key_event(key(KeyCode::Right));
    assert_eq!(t.selection_anchor, None);
    assert_eq!(t.cursor, 2);
    t.handle_key_event(key(KeyCode::Right));
    t.handle_key_event(key(KeyCode::Right));
    assert_eq!(t.cursor, 3);
    t.handle_key_event(key(KeyCode::Left));
    assert_eq!(t.cursor, 2);
}

#[test]
fn up_and_down_keep_column() {
    let mut t = TextInput::new_multiline(String::from("abcdef\nxy\n12345"));
    t.focus();
    t.cursor = 4;
    t.handle_key_event(key(KeyCode::Down));
    assert_eq!(t.cursor, 9);
    assert_eq!(t.cursor_row(), 1);
    assert_eq!(t.cursor_col(), 2);
    t.handle_key_event(key(KeyCode::Down));
    assert_eq!(t.cursor, 12);
    t.handle_key_event(key(KeyCode::Down));
    assert_eq!(t.cursor, 12);
    t.handle_key_event(key(KeyCode::Up));
    assert_eq!(t.cursor, 9);
    t.handle_key_event(key(KeyCode::Up));
    assert_eq!(t.cursor, 2);
    t.handle_key_event(key(KeyCode::Up));
    assert_eq!(t.cursor, 2);
}

#[test]
fn up_down_ignored_on_single_line() {
    let mut t = TextInput::new(String::from("ab"));
    t.focus();
    t.cursor = 1;
    t.handle_key_event(key(KeyCode::Up));
    t.handle_key_event(key(KeyCode::Down));
    assert_eq!(t.cursor, 1);
}

#[test]
fn styled_text_marks_selection() {
    let mut t = TextInput::new_multiline(String::from("ab\ncd"));
    t.cursor = 1;
    t.selection_anchor = Some(4);
    let lines = t.styled_text(0u8, 1u8);
    assert_eq!(lines.len(), 2);
    assert_eq!(lines[0], vec![(String::from("a"), 0u8), (String::from("b"), 1u8)]);
    assert_eq!(lines[1], vec![(String::from("c"), 1u8), (String::from("d"), 0u8)]);
}

#[test]
fn styled_text_without_selection() {
    let t = TextInput::new_multiline(String::from("one\n\ntwo"));
    let lines = t.styled_text('n', 's');
    assert_eq!(lines.len(), 3);
    assert_eq!(lines[0], vec![(String::from("one"), 'n')]);
    assert!(lines[1].is_empty());
    assert_eq!(lines[2], vec![(String::from("two"), 'n')]);
    let empty = TextInput::new(String::new()).styled_text(0u8, 1u8);
    assert_eq!(empty.len(), 1);
    assert!(empty[0].is_empty());
}

#[test]
fn cursor_row_and_col() {
    let mut t = TextInput::new_multiline(String::from("ab\ncde\nf"));
    t.cursor = 5;
    assert_eq!(t.cursor_row(), 1);
    assert_eq!(t.cursor_col(), 2);
    t.cursor = 0;
    assert_eq!(t.cursor_row(), 0);
    assert_eq!(t.cursor_col(), 0);
    t.cursor = 100;
    assert_eq!(t.cursor_row(), 2);
    assert_eq!(t.cursor_col(), 93);
}
