use editor_core::document::{Action, Direction, Document, Pos};

fn doc_with(text: &str) -> Document {
    let mut d = Document::new();
    d.replace_all(text);
    d
}

fn move_to(d: &mut Document, line: usize, col: usize) {
    let p = Pos { line, col };
    d.apply(Action::SetSelection(p, p));
}

#[test]
fn new_document_is_empty() {
    let d = Document::new();
    assert_eq!(d.text(), "");
    assert_eq!(d.cursor_position(), (0, 0));
    assert!(d.selection().is_none());
}

#[test]
fn insert_two_chars() {
    let mut d = Document::new();
    d.apply(Action::Insert('a'));
    d.apply(Action::Insert('b'));
    assert_eq!(d.text(), "ab");
    assert_eq!(d.cursor_position(), (0, 2));
}

#[test]
fn backward_delete_at_start_is_noop() {
    let mut d = doc_with("ab\ncd");
    d.apply(Action::DeleteBackward);
    assert_eq!(d.text(), "ab\ncd");
    assert_eq!(d.cursor_position(), (0, 0));
}

#[test]
fn forward_delete_at_end_is_noop() {
    let mut d = doc_with("ab\ncd");
    d.apply(Action::Move(Direction::DocumentEnd));
    d.apply(Action::DeleteForward);
    assert_eq!(d.text(), "ab\ncd");
    assert_eq!(d.cursor_position(), (1, 2));
}

#[test]
fn replace_all_round_trip() {
    let samples = ["", "a", "ab", "a\nb", "line one\nline two\n", "a\n\nb", "\n", "\n\n"];
    for s in samples {
        let mut d = Document::new();
        d.replace_all(s);
        assert_eq!(d.text(), s);
        assert_eq!(d.cursor_position(), (0, 0));
        assert!(d.selection().is_none());
    }
}

#[test]
fn insert_replaces_selection() {
    let mut d = doc_with("hello world");
    d.apply(Action::SetSelection(Pos { line: 0, col: 0 }, Pos { line: 0, col: 5 }));
    d.apply(Action::Insert('X'));
    assert_eq!(d.text(), "X world");
    assert_eq!(d.cursor_position(), (0, 1));
    assert!(d.selection().is_none());
}

#[test]
fn newline_splits_line() {
    let mut d = doc_with("abcd");
    move_to(&mut d, 0, 2);
    d.apply(Action::InsertNewline);
    assert_eq!(d.text(), "ab\ncd");
    assert_eq!(d.cursor_position(), (1, 0));
}

#[test]
fn inserted_newline_char_splits_line() {
    let mut d = doc_with("abcd");
    move_to(&mut d, 0, 2);
    d.apply(Action::Insert('\n'));
    assert_eq!(d.text(), "ab\ncd");
    assert_eq!(d.cursor_position(), (1, 0));
}

#[test]
fn backspace_merges_lines() {
    let mut d = doc_with("ab\ncd");
    move_to(&mut d, 1, 0);
    d.apply(Action::DeleteBackward);
    assert_eq!(d.text(), "abcd");
    assert_eq!(d.cursor_position(), (0, 2));
}

#[test]
fn backspace_removes_one_char() {
    let mut d = doc_with("abcd");
    move_to(&mut d, 0, 3);
    d.apply(Action::DeleteBackward);
    assert_eq!(d.text(), "abd");
    assert_eq!(d.cursor_position(), (0, 2));
}

#[test]
fn forward_delete_merges_lines() {
    let mut d = doc_with("ab\ncd");
    move_to(&mut d, 0, 2);
    d.apply(Action::DeleteForward);
    assert_eq!(d.text(), "abcd");
    assert_eq!(d.cursor_position(), (0, 2));
}

#[test]
fn selection_delete_spans_lines() {
    let mut d = doc_with("hello\nworld");
    d.apply(Action::SetSelection(Pos { line: 0, col: 3 }, Pos { line: 1, col: 2 }));
    d.apply(Action::SelectionDelete);
    assert_eq!(d.text(), "helrld");
    assert_eq!(d.cursor_position(), (0, 3));
}

#[test]
fn backspace_with_selection_deletes_selection_only() {
    let mut d = doc_with("hello");
    d.apply(Action::SetSelection(Pos { line: 0, col: 1 }, Pos { line: 0, col: 3 }));
    d.apply(Action::DeleteBackward);
    assert_eq!(d.text(), "hlo");
    assert_eq!(d.cursor_position(), (0, 1));
}

#[test]
fn selection_delete_without_selection_is_noop() {
    let mut d = doc_with("abc");
    d.apply(Action::SelectionDelete);
    assert_eq!(d.text(), "abc");
}

#[test]
fn select_right_then_insert() {
    let mut d = doc_with("abc");
    d.apply(Action::Select(Direction::Right));
    assert!(d.selection().is_some());
    d.apply(Action::Insert('z'));
    assert_eq!(d.text(), "zbc");
    assert_eq!(d.cursor_position(), (0, 1));
}

#[test]
fn movement_stays_in_bounds() {
    let mut d = doc_with("ab\nc\n");
    let moves = [
        Direction::Up,
        Direction::Left,
        Direction::Right,
        Direction::Right,
        Direction::Right,
        Direction::Down,
        Direction::Down,
        Direction::Down,
        Direction::Right,
        Direction::LineEnd,
        Direction::Up,
        Direction::LineStart,
        Direction::DocumentEnd,
        Direction::Right,
        Direction::DocumentStart,
        Direction::Left,
    ];
    let line_lens = [2usize, 1, 0];
    for m in moves {
        d.apply(Action::Move(m));
        let (line, col) = d.cursor_position();
        assert!(line < 3);
        assert!(col <= line_lens[line]);
    }
}

#[test]
fn up_and_down_clamp_column() {
    let mut d = doc_with("abcd\nx\nefgh");
    move_to(&mut d, 0, 4);
    d.apply(Action::Move(Direction::Down));
    assert_eq!(d.cursor_position(), (1, 1));
    move_to(&mut d, 2, 3);
    d.apply(Action::Move(Direction::Up));
    assert_eq!(d.cursor_position(), (1, 1));
}

#[test]
fn left_and_right_cross_lines() {
    let mut d = doc_with("ab\ncd");
    move_to(&mut d, 1, 0);
    d.apply(Action::Move(Direction::Left));
    assert_eq!(d.cursor_position(), (0, 2));
    d.apply(Action::Move(Direction::Right));
    assert_eq!(d.cursor_position(), (1, 0));
}

#[test]
fn set_selection_clamps_out_of_range() {
    let mut d = doc_with("ab");
    d.apply(Action::SetSelection(Pos { line: 9, col: 9 }, Pos { line: 0, col: 0 }));
    d.apply(Action::SelectionDelete);
    assert_eq!(d.text(), "");
}
