use quecto::cursor::RelativePosition;
use quecto::editor::EditorAction;
use quecto::editor::EditorMode;
use quecto::editor::EditorState;
use quecto::editor::InputKey;

const H: u16 = 10;

fn line(s: &str) -> Vec<char> {
    s.chars().collect()
}

fn doc(lines: &[&str]) -> Vec<Vec<char>> {
    lines.iter().map(|s| line(s)).collect()
}

fn feed(st: &mut EditorState, keys: &[InputKey]) {
    for k in keys {
        let action = st.update(*k, H);
        assert_eq!(action, EditorAction::Nothing);
    }
}

fn type_chars(st: &mut EditorState, s: &str) {
    for c in s.chars() {
        let action = st.update(InputKey::Char(c), H);
        assert_eq!(action, EditorAction::Nothing);
    }
}

#[test]
fn fresh_editor_is_normal_and_empty() {
    let st = EditorState::new();
    assert_eq!(st.mode, EditorMode::Normal);
    assert!(!st.exit);
    assert_eq!(st.buffer.serialize(), doc(&[""]));
    assert_eq!(st.cursor, RelativePosition { x: 0, y: 0 });
}

#[test]
fn mode_transitions() {
    let mut st = EditorState::new();
    feed(&mut st, &[InputKey::Char('i')]);
    assert_eq!(st.mode, EditorMode::Insert);
    feed(&mut st, &[InputKey::Esc]);
    assert_eq!(st.mode, EditorMode::Normal);
    feed(&mut st, &[InputKey::Char(':')]);
    assert_eq!(st.mode, EditorMode::Command);
    feed(&mut st, &[InputKey::Esc]);
    assert_eq!(st.mode, EditorMode::Normal);
}

#[test]
fn typing_inserts_characters() {
    let mut st = EditorState::new();
    feed(&mut st, &[InputKey::Char('i')]);
    type_chars(&mut st, "hi");
    assert_eq!(st.buffer.serialize(), doc(&["hi"]));
    assert_eq!(st.cursor.x, 2);
}

#[test]
fn enter_splits_the_line() {
    let mut st = EditorState::new();
    feed(&mut st, &[InputKey::Char('i')]);
    type_chars(&mut st, "abcd");
    feed(&mut st, &[InputKey::Left, InputKey::Left]);
    assert_eq!(st.cursor.x, 2);
    type_chars(&mut st, "\n");
    assert_eq!(st.buffer.serialize(), doc(&["ab", "cd"]));
    assert_eq!(st.cursor.x, 0);
    assert_eq!(st.mode, EditorMode::Insert);
}

#[test]
fn backspace_inside_a_line() {
    let mut st = EditorState::new();
    feed(&mut st, &[InputKey::Char('i')]);
    type_chars(&mut st, "abc");
    feed(&mut st, &[InputKey::Backspace]);
    assert_eq!(st.buffer.serialize(), doc(&["ab"]));
    assert_eq!(st.cursor.x, 2);
}

#[test]
fn backspace_at_column_zero_merges_lines() {
    let mut st = EditorState::new();
    feed(&mut st, &[InputKey::Char('i')]);
    type_chars(&mut st, "ab\ncd");
    assert_eq!(st.buffer.serialize(), doc(&["ab", "cd"]));
    feed(&mut st, &[InputKey::Left, InputKey::Left]);
    assert_eq!(st.cursor.x, 0);
    feed(&mut st, &[InputKey::Backspace]);
    assert_eq!(st.buffer.serialize(), doc(&["abcd"]));
    assert_eq!(st.cursor.x, 2);
}

#[test]
fn backspace_at_top_of_document_does_nothing() {
    let mut st = EditorState::new();
    feed(&mut st, &[InputKey::Char('i')]);
    type_chars(&mut st, "ab");
    feed(&mut st, &[InputKey::Left, InputKey::Left]);
    feed(&mut st, &[InputKey::Backspace]);
    assert_eq!(st.buffer.serialize(), doc(&["ab"]));
    assert_eq!(st.cursor.x, 0);
}

#[test]
fn forward_delete_removes_under_cursor() {
    let mut st = EditorState::new();
    feed(&mut st, &[InputKey::Char('i')]);
    type_chars(&mut st, "abc");
    feed(&mut st, &[InputKey::Left, InputKey::Left]);
    assert_eq!(st.cursor.x, 1);
    feed(&mut st, &[InputKey::Delete]);
    assert_eq!(st.buffer.serialize(), doc(&["ac"]));
    assert_eq!(st.cursor.x, 1);
}

#[test]
fn forward_delete_at_end_of_line_does_nothing() {
    let mut st = EditorState::new();
    feed(&mut st, &[InputKey::Char('i')]);
    type_chars(&mut st, "ab");
    assert_eq!(st.cursor.x, 2);
    feed(&mut st, &[InputKey::Delete]);
    assert_eq!(st.buffer.serialize(), doc(&["ab"]));
    assert_eq!(st.cursor.x, 2);
}

#[test]
fn escape_trims_cursor_to_last_character() {
    let mut st = EditorState::new();
    feed(&mut st, &[InputKey::Char('i')]);
    type_chars(&mut st, "ab");
    assert_eq!(st.cursor.x, 2);
    feed(&mut st, &[InputKey::Esc]);
    assert_eq!(st.cursor.x, 1);
}

#[test]
fn normal_navigation_moves_lines_and_rows() {
    let mut st = EditorState::new();
    st.load_lines(doc(&["one", "two", "three"]));
    feed(&mut st, &[InputKey::Char('j')]);
    assert_eq!(st.cursor.y, 1);
    assert_eq!(st.current_line_screen_pos, 1);
    feed(&mut st, &[InputKey::Char('j')]);
    assert_eq!(st.cursor.y, 2);
    feed(&mut st, &[InputKey::Char('k'), InputKey::Char('k')]);
    assert_eq!(st.cursor.y, 0);
    // At the top: another `k` is refused and changes nothing.
    feed(&mut st, &[InputKey::Char('k')]);
    assert_eq!(st.cursor.y, 0);
    assert_eq!(st.buffer.serialize(), doc(&["one", "two", "three"]));
}

#[test]
fn horizontal_keys_clamp_to_the_line() {
    let mut st = EditorState::new();
    st.load_lines(doc(&["abc"]));
    feed(&mut st, &[InputKey::Char('l'), InputKey::Char('l')]);
    assert_eq!(st.cursor.x, 2);
    // Normal mode may not pass the last character.
    feed(&mut st, &[InputKey::Char('l')]);
    assert_eq!(st.cursor.x, 2);
    feed(&mut st, &[InputKey::Char('h'), InputKey::Char('h'), InputKey::Char('h')]);
    assert_eq!(st.cursor.x, 0);
}

#[test]
fn open_line_keeps_current_above() {
    let mut st = EditorState::new();
    st.load_lines(doc(&["ab"]));
    feed(&mut st, &[InputKey::Char('o')]);
    assert_eq!(st.mode, EditorMode::Insert);
    assert_eq!(st.buffer.serialize(), doc(&["ab", ""]));
    assert_eq!(st.cursor.x, 0);
    assert_eq!(st.cursor.y, 1);
}

#[test]
fn append_enters_insert_one_step_right() {
    let mut st = EditorState::new();
    st.load_lines(doc(&["abc"]));
    feed(&mut st, &[InputKey::Char('a')]);
    assert_eq!(st.mode, EditorMode::Insert);
    assert_eq!(st.cursor.x, 1);
}

#[test]
fn quit_command_raises_exit() {
    let mut st = EditorState::new();
    feed(&mut st, &[InputKey::Char(':')]);
    type_chars(&mut st, "q");
    let action = st.update(InputKey::Char('\n'), H);
    assert_eq!(action, EditorAction::Nothing);
    assert!(st.exit);
    assert_eq!(st.mode, EditorMode::Normal);
}

#[test]
fn write_command_orders_a_write_and_remembers_the_name() {
    let mut st = EditorState::new();
    feed(&mut st, &[InputKey::Char(':')]);
    type_chars(&mut st, "w notes.txt");
    let action = st.update(InputKey::Char('\n'), H);
    assert_eq!(action, EditorAction::WriteFile(line("notes.txt")));
    assert!(!st.exit);

    // Without an argument the remembered name is used.
    feed(&mut st, &[InputKey::Char(':')]);
    type_chars(&mut st, "write");
    let action = st.update(InputKey::Char('\n'), H);
    assert_eq!(action, EditorAction::WriteFile(line("notes.txt")));
}

#[test]
fn write_without_any_name_does_nothing() {
    let mut st = EditorState::new();
    feed(&mut st, &[InputKey::Char(':')]);
    type_chars(&mut st, "w");
    let action = st.update(InputKey::Char('\n'), H);
    assert_eq!(action, EditorAction::Nothing);
}

#[test]
fn edit_command_orders_a_load() {
    let mut st = EditorState::new();
    feed(&mut st, &[InputKey::Char(':')]);
    type_chars(&mut st, "e other.txt");
    let action = st.update(InputKey::Char('\n'), H);
    assert_eq!(action, EditorAction::LoadFile(line("other.txt")));

    st.load_lines(doc(&["from", "disk"]));
    assert_eq!(st.buffer.serialize(), doc(&["from", "disk"]));
    assert_eq!(st.cursor, RelativePosition { x: 0, y: 0 });
}

#[test]
fn unknown_command_is_ignored() {
    let mut st = EditorState::new();
    feed(&mut st, &[InputKey::Char(':')]);
    type_chars(&mut st, "zz");
    let action = st.update(InputKey::Char('\n'), H);
    assert_eq!(action, EditorAction::Nothing);
    assert!(!st.exit);
    assert_eq!(st.buffer.serialize(), doc(&[""]));
}

#[test]
fn empty_command_is_ignored() {
    let mut st = EditorState::new();
    feed(&mut st, &[InputKey::Char(':')]);
    let action = st.update(InputKey::Char('\n'), H);
    assert_eq!(action, EditorAction::Nothing);
    assert!(!st.exit);
    assert_eq!(st.mode, EditorMode::Normal);
}

#[test]
fn command_line_edits() {
    let mut st = EditorState::new();
    feed(&mut st, &[InputKey::Char(':')]);
    type_chars(&mut st, "wq");
    assert_eq!(st.command_buffer, line("wq"));
    feed(&mut st, &[InputKey::Backspace]);
    assert_eq!(st.command_buffer, line("w"));
    feed(&mut st, &[InputKey::Delete]);
    assert_eq!(st.command_buffer, line("w"));
    feed(&mut st, &[InputKey::Backspace, InputKey::Backspace]);
    assert_eq!(st.command_buffer, line(""));
}

#[test]
fn loading_resets_cursor_but_keeps_mode() {
    let mut st = EditorState::new();
    st.load_lines(doc(&["a", "b", "c"]));
    feed(&mut st, &[InputKey::Char('j'), InputKey::Char('j')]);
    assert_eq!(st.cursor.y, 2);
    st.load_lines(doc(&["x"]));
    assert_eq!(st.cursor.y, 0);
    assert_eq!(st.current_line_screen_pos, 0);
    assert_eq!(st.mode, EditorMode::Normal);
    assert_eq!(st.buffer.serialize(), doc(&["x"]));
}

#[test]
fn insert_navigation_arrows_work() {
    let mut st = EditorState::new();
    st.load_lines(doc(&["abc", "de"]));
    feed(&mut st, &[InputKey::Char('i')]);
    feed(&mut st, &[InputKey::Right, InputKey::Right, InputKey::Right]);
    assert_eq!(st.cursor.x, 3);
    feed(&mut st, &[InputKey::Down]);
    // The shorter line clamps the column (insert mode: one past the end).
    assert_eq!(st.cursor.x, 2);
    feed(&mut st, &[InputKey::Up]);
    assert_eq!(st.cursor.x, 2);
    assert_eq!(st.buffer.serialize(), doc(&["abc", "de"]));
}
