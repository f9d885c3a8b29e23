use quecto::buffer::Buffer;

fn line(s: &str) -> Vec<char> {
    s.chars().collect()
}

fn doc(lines: &[&str]) -> Vec<Vec<char>> {
    lines.iter().map(|s| line(s)).collect()
}

#[test]
fn new_buffer_is_one_empty_line() {
    let buf = Buffer::new();
    assert_eq!(buf.current_line_len(), 0);
    assert_eq!(buf.serialize(), doc(&[""]));
}

#[test]
fn load_zero_lines_yields_one_empty_line() {
    let buf = Buffer::from_lines(Vec::new());
    assert_eq!(buf.current_line_len(), 0);
    assert_eq!(buf.serialize(), doc(&[""]));
}

#[test]
fn load_two_lines_scenario() {
    let mut buf = Buffer::from_lines(doc(&["abc", "def"]));
    assert_eq!(buf.current_line_len(), 3);
    assert_eq!(buf.serialize(), doc(&["abc", "def"]));

    buf.insert(3, 'X');
    assert_eq!(buf.serialize(), doc(&["abcX", "def"]));
    assert_eq!(buf.current_line_len(), 4);

    buf.new_line(2);
    assert_eq!(buf.serialize(), doc(&["ab", "cX", "def"]));
    assert_eq!(buf.current_line_len(), 2);

    let seam = buf.merge_line_to_prev();
    assert_eq!(seam, Some(2));
    assert_eq!(buf.serialize(), doc(&["abcX", "def"]));
    assert_eq!(buf.current_line_len(), 4);
}

#[test]
fn navigation_round_trip_preserves_lines() {
    let mut buf = Buffer::from_lines(doc(&["one", "two", "three"]));
    assert!(buf.down());
    assert!(buf.down());
    assert!(buf.up());
    assert!(buf.up());
    assert!(buf.down());
    assert_eq!(buf.serialize(), doc(&["one", "two", "three"]));
}

#[test]
fn up_at_top_is_a_refused_no_op() {
    let mut buf = Buffer::from_lines(doc(&["a", "b"]));
    assert!(!buf.up());
    assert_eq!(buf.serialize(), doc(&["a", "b"]));
    assert_eq!(buf.current_line_len(), 1);
}

#[test]
fn down_at_bottom_is_a_refused_no_op() {
    let mut buf = Buffer::from_lines(doc(&["a", "b"]));
    assert!(buf.down());
    assert!(!buf.down());
    assert_eq!(buf.serialize(), doc(&["a", "b"]));
}

#[test]
fn split_invariant_matches_naive_editing() {
    // The same column arithmetic on a plain string:
    // "hello" -> insert 'X' at 0 -> "Xhello" -> insert 'Y' at 6 ->
    // "XhelloY" -> delete at 3 -> "XheloY" -> delete at 0 -> "heloY".
    let mut buf = Buffer::from_lines(doc(&["hello"]));
    buf.insert(0, 'X');
    assert_eq!(buf.serialize(), doc(&["Xhello"]));
    buf.insert(6, 'Y');
    assert_eq!(buf.serialize(), doc(&["XhelloY"]));
    buf.delete(3);
    assert_eq!(buf.serialize(), doc(&["XheloY"]));
    buf.delete(0);
    assert_eq!(buf.serialize(), doc(&["heloY"]));
    assert_eq!(buf.current_line_len(), 5);
}

#[test]
fn delete_before_cursor_pattern() {
    // Backspace at column 3 of "abcd": delete the character at column 2.
    let mut buf = Buffer::from_lines(doc(&["abcd"]));
    buf.delete(3 - 1);
    assert_eq!(buf.serialize(), doc(&["abd"]));
}

#[test]
fn line_count_conservation() {
    let mut buf = Buffer::from_lines(doc(&["abcd"]));
    assert_eq!(buf.serialize().len(), 1);

    buf.new_line(2);
    assert_eq!(buf.serialize().len(), 2);

    let seam = buf.merge_line_to_prev();
    assert_eq!(seam, Some(2));
    assert_eq!(buf.serialize().len(), 1);

    buf.insert(0, 'x');
    assert_eq!(buf.serialize().len(), 1);

    buf.delete(0);
    assert_eq!(buf.serialize().len(), 1);
}

#[test]
fn merge_undoes_split_and_reports_the_column() {
    let mut buf = Buffer::from_lines(doc(&["abcdef"]));
    buf.new_line(3);
    assert_eq!(buf.serialize(), doc(&["abc", "def"]));
    let seam = buf.merge_line_to_prev();
    assert_eq!(seam, Some(3));
    assert_eq!(buf.serialize(), doc(&["abcdef"]));
    assert_eq!(buf.current_line_len(), 6);
}

#[test]
fn merge_at_top_reports_nothing() {
    let mut buf = Buffer::from_lines(doc(&["abc", "def"]));
    assert_eq!(buf.merge_line_to_prev(), None);
    assert_eq!(buf.serialize(), doc(&["abc", "def"]));
}

#[test]
fn new_empty_line_keeps_old_line_above() {
    let mut buf = Buffer::from_lines(doc(&["ab"]));
    buf.new_empty_line();
    assert_eq!(buf.serialize(), doc(&["ab", ""]));
    assert_eq!(buf.current_line_len(), 0);
    assert_eq!(buf.prev_line_len(), Some(2));
}

#[test]
fn prev_line_len_at_top_is_nothing() {
    let buf = Buffer::from_lines(doc(&["ab", "cd"]));
    assert_eq!(buf.prev_line_len(), None);
}

#[test]
fn viewport_interior_window() {
    let mut buf = Buffer::from_lines(doc(&["l0", "l1", "l2", "l3", "l4"]));
    assert!(buf.down());
    assert!(buf.down());
    // Current line is "l2"; one row above on screen, one below.
    let win = buf.visible_lines(3, 1);
    assert_eq!(win, doc(&["l1", "l2", "l3"]));
    assert_eq!(win[1], line("l2"));
}

#[test]
fn viewport_top_of_document() {
    let buf = Buffer::from_lines(doc(&["l0", "l1", "l2"]));
    let win = buf.visible_lines(2, 0);
    assert_eq!(win, doc(&["l0", "l1"]));
    assert_eq!(win[0], line("l0"));
}

#[test]
fn viewport_bottom_shortfall_yields_fewer_rows() {
    let mut buf = Buffer::from_lines(doc(&["l0", "l1"]));
    assert!(buf.down());
    // Ten drawable rows, current drawn at row 1, but nothing below.
    let win = buf.visible_lines(10, 1);
    assert_eq!(win, doc(&["l0", "l1"]));
    assert!(win.len() <= 10);
    assert_eq!(win[1], line("l1"));
}

#[test]
fn viewport_never_exceeds_drawable_height() {
    let mut buf = Buffer::from_lines(doc(&["a", "b", "c", "d", "e", "f"]));
    for _ in 0..3 {
        assert!(buf.down());
    }
    for h in 1..6usize {
        for row in 0..h.min(4) {
            let win = buf.visible_lines(h, row);
            assert!(win.len() <= h);
            if row <= 3 {
                assert_eq!(win[row], line("d"));
            }
        }
    }
}

#[test]
fn serialize_round_trip_after_load() {
    let original = doc(&["alpha", "", "gamma"]);
    let buf = Buffer::from_lines(original.clone());
    assert_eq!(buf.serialize(), original);
}
