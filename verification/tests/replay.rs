use crossterm::event::{KeyCode, KeyEvent, KeyModifiers};
use ratatui_textarea::{CursorMove, TextArea};
use shiki_tui::multicursor::CursorState;
use shiki_tui::replay::{replay_keystroke, undo_history_depth, TextAreaMut};

fn key(code: KeyCode) -> KeyEvent {
    KeyEvent::new(code, KeyModifiers::NONE)
}

fn at(row: usize, col: usize) -> CursorState {
    CursorState { pos: (row, col), anchor: None }
}

fn cursor(ta: &TextArea) -> (usize, usize) {
    let ratatui_textarea::DataCursor(r, c) = ta.cursor();
    (r, c)
}

#[test]
fn typing_at_two_cursors_on_different_rows() {
    let mut ta = TextArea::from(["ab", "cd"]);
    let mut secondary = vec![at(1, 0)];
    let edits = replay_keystroke(&mut TextAreaMut { inner: &mut ta }, key(KeyCode::Char('x')), &mut secondary);
    assert_eq!(ta.lines(), ["xab", "xcd"]);
    assert_eq!(cursor(&ta), (0, 1));
    assert_eq!(secondary[0].pos, (1, 1));
    assert_eq!(edits, 2);
}

#[test]
fn typing_at_two_cursors_on_one_row_shifts_the_later_one() {
    let mut ta = TextArea::from(["abc"]);
    let mut secondary = vec![at(0, 2)];
    replay_keystroke(&mut TextAreaMut { inner: &mut ta }, key(KeyCode::Char('x')), &mut secondary);
    assert_eq!(ta.lines(), ["xabxc"]);
    assert_eq!(cursor(&ta), (0, 1));
    assert_eq!(secondary[0].pos, (0, 4));
}

#[test]
fn enter_at_two_cursors_shifts_later_rows() {
    let mut ta = TextArea::from(["ab", "cd"]);
    ta.move_cursor(CursorMove::Jump(0, 1));
    let mut secondary = vec![at(1, 1)];
    replay_keystroke(&mut TextAreaMut { inner: &mut ta }, key(KeyCode::Enter), &mut secondary);
    assert_eq!(ta.lines(), ["a", "b", "c", "d"]);
    assert_eq!(cursor(&ta), (1, 0));
    assert_eq!(secondary[0].pos, (3, 0));
}

#[test]
fn undo_depth_is_measured_and_the_text_kept() {
    let mut ta = TextArea::from(["ab"]);
    let before: Vec<String> = ta.lines().to_vec();
    ta.insert_char('x');
    ta.insert_char('y');
    let n = undo_history_depth(&mut TextAreaMut { inner: &mut ta }, &before);
    assert_eq!(n, 2);
    assert_eq!(ta.lines(), ["xyab"]);
}

fn char_key(c: char) -> KeyEvent {
    KeyEvent::new(KeyCode::Char(c), KeyModifiers::NONE)
}

fn textarea(lines: &[&str]) -> TextArea<'static> {
    TextArea::new(lines.iter().map(|l| l.to_string()).collect())
}

fn selected(row: usize) -> CursorState {
    CursorState { pos: (row, 3), anchor: Some((row, 0)) }
}

#[test]
fn replays_a_plain_character_at_every_cursor() {
    let mut ta = textarea(&["cat", "cat", "cat"]);
    ta.move_cursor(CursorMove::Jump(0, 0));
    let mut secondary = vec![at(1, 0), at(2, 0)];
    let edits = replay_keystroke(&mut TextAreaMut { inner: &mut ta }, char_key('X'), &mut secondary);
    assert_eq!(edits, 3);
    assert_eq!(ta.lines(), &["Xcat", "Xcat", "Xcat"]);
    assert_eq!(cursor(&ta), (0, 1));
    assert_eq!(secondary[0].pos, (1, 1));
    assert_eq!(secondary[1].pos, (2, 1));
}

#[test]
fn typing_over_a_selection_reports_two_edits_per_cursor_and_undoes_atomically() {
    let mut ta = textarea(&["cat", "cat", "cat"]);
    ta.move_cursor(CursorMove::Jump(0, 0));
    ta.start_selection();
    ta.move_cursor(CursorMove::Jump(0, 3));
    let mut secondary = vec![selected(1), selected(2)];
    let edits = replay_keystroke(&mut TextAreaMut { inner: &mut ta }, char_key('d'), &mut secondary);
    assert_eq!(edits, 6, "2 history entries per cursor (delete + insert)");
    assert_eq!(ta.lines(), &["d", "d", "d"]);
    for _ in 0..edits {
        ta.undo();
    }
    assert_eq!(ta.lines(), &["cat", "cat", "cat"]);
}

#[test]
fn typing_a_whole_word_across_selected_cursors_undoes_fully_across_keystrokes() {
    let mut ta = textarea(&["cat", "cat", "cat"]);
    ta.move_cursor(CursorMove::Jump(0, 0));
    ta.start_selection();
    ta.move_cursor(CursorMove::Jump(0, 3));
    let mut secondary = vec![selected(1), selected(2)];
    let mut total_edits = 0usize;
    for c in ['d', 'o', 'g'] {
        total_edits += replay_keystroke(&mut TextAreaMut { inner: &mut ta }, char_key(c), &mut secondary);
    }
    assert_eq!(ta.lines(), &["dog", "dog", "dog"]);
    for _ in 0..total_edits {
        ta.undo();
    }
    assert_eq!(ta.lines(), &["cat", "cat", "cat"]);
}

#[test]
fn enter_shifts_later_rows_without_desyncing_other_cursors() {
    let mut ta = textarea(&["abc", "def"]);
    ta.move_cursor(CursorMove::Jump(0, 1));
    let mut secondary = vec![at(1, 1)];
    let edits = replay_keystroke(&mut TextAreaMut { inner: &mut ta }, key(KeyCode::Enter), &mut secondary);
    assert_eq!(edits, 2);
    assert_eq!(ta.lines(), &["a", "bc", "d", "ef"]);
    assert_eq!(cursor(&ta), (1, 0));
    assert_eq!(secondary[0].pos, (3, 0));
}

#[test]
fn two_cursors_on_the_same_row_accumulate_column_shift() {
    let mut ta = textarea(&["abcdef"]);
    ta.move_cursor(CursorMove::Jump(0, 0));
    let mut secondary = vec![at(0, 3)];
    let edits = replay_keystroke(&mut TextAreaMut { inner: &mut ta }, char_key('X'), &mut secondary);
    assert_eq!(edits, 2);
    assert_eq!(ta.lines(), &["XabcXdef"]);
    assert_eq!(cursor(&ta), (0, 1));
    assert_eq!(secondary[0].pos, (0, 5));
}

#[test]
fn navigation_keys_report_zero_edits() {
    let mut ta = textarea(&["hello"]);
    let mut secondary = vec![at(0, 0)];
    let edits = replay_keystroke(&mut TextAreaMut { inner: &mut ta }, key(KeyCode::Right), &mut secondary);
    assert_eq!(edits, 0);
}
