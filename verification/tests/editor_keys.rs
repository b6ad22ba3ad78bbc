use shiki_tui::editor_keys::{
    add_cursor_vertical, add_next_occurrence, first_match_from, scroll_cursor_target,
    vertical_cursor_target,
};
use shiki_tui::multicursor::CursorState;

fn lines(s: &[&str]) -> Vec<String> {
    s.iter().map(|l| l.to_string()).collect()
}

fn bare(row: usize, col: usize) -> CursorState {
    CursorState { pos: (row, col), anchor: None }
}

#[test]
fn vertical_add_clamps_the_column_to_the_target_line() {
    let doc = lines(&["ab", "abcdef", "abcdefgh"]);
    assert_eq!(vertical_cursor_target(&[], (2, 7), -1, &doc), Some((1, 6)));
    assert_eq!(vertical_cursor_target(&[], (0, 1), 1, &doc), Some((1, 1)));
}

#[test]
fn vertical_add_repeatedly_extends_the_block_and_stops_at_the_edge() {
    let doc = lines(&["ab", "abcdef", "abcdefgh"]);
    let mut secondary = Vec::new();
    add_cursor_vertical(&mut secondary, (2, 7), -1, &doc);
    assert_eq!(secondary, vec![bare(1, 6)]);
    add_cursor_vertical(&mut secondary, (2, 7), -1, &doc);
    assert_eq!(secondary, vec![bare(1, 6), bare(0, 2)]);
    add_cursor_vertical(&mut secondary, (2, 7), -1, &doc);
    assert_eq!(secondary, vec![bare(1, 6), bare(0, 2)]);
}

#[test]
fn vertical_add_below_starts_from_the_bottommost_cursor() {
    let doc = lines(&["a", "b", "c", "d"]);
    let secondary = vec![bare(2, 0), bare(0, 1)];
    assert_eq!(vertical_cursor_target(&secondary, (1, 0), 1, &doc), Some((3, 0)));
    assert_eq!(vertical_cursor_target(&secondary, (1, 0), 0, &doc), Some((3, 0)));
    assert_eq!(vertical_cursor_target(&secondary, (3, 0), 1, &doc), None);
    assert_eq!(vertical_cursor_target(&secondary, (1, 0), -1, &doc), None);
}

#[test]
fn next_occurrence_searches_from_the_furthest_cursor_and_wraps() {
    let matches = vec![(0, 0, 3), (1, 2, 5)];
    let mut secondary = Vec::new();
    assert!(add_next_occurrence(&mut secondary, &matches, (0, 3)));
    assert_eq!(secondary, vec![CursorState { pos: (1, 5), anchor: Some((1, 2)) }]);
    assert!(add_next_occurrence(&mut secondary, &matches, (0, 3)));
    assert_eq!(secondary[1], CursorState { pos: (0, 3), anchor: Some((0, 0)) });
    assert!(!add_next_occurrence(&mut secondary, &matches, (0, 3)));
    assert_eq!(secondary.len(), 2);
}

#[test]
fn next_occurrence_without_matches_adds_nothing() {
    let mut secondary = vec![bare(0, 0)];
    assert!(!add_next_occurrence(&mut secondary, &[], (0, 3)));
    assert_eq!(secondary, vec![bare(0, 0)]);
}

#[test]
fn scroll_moves_the_cursor_within_the_buffer() {
    let doc = lines(&["abc", "a", "abcdef"]);
    assert_eq!(scroll_cursor_target(0, 2, 2, &doc), Some((2, 2)));
    assert_eq!(scroll_cursor_target(2, 5, -1, &doc), Some((1, 1)));
    assert_eq!(scroll_cursor_target(0, 0, -3, &doc), None);
    assert_eq!(scroll_cursor_target(1, 0, 10, &doc), Some((2, 0)));
    assert_eq!(scroll_cursor_target(2, 4, -10, &doc), Some((0, 3)));
    assert_eq!(scroll_cursor_target(0, 0, 5, &[]), None);
}

#[test]
fn replace_all_takes_the_first_match_not_before_the_search_point() {
    let matches = vec![(0, 0, 1), (0, 4, 5), (2, 1, 2)];
    assert_eq!(first_match_from(&matches, (0, 0)), Some((0, 0, 1)));
    assert_eq!(first_match_from(&matches, (0, 4)), Some((0, 4, 5)));
    assert_eq!(first_match_from(&matches, (0, 5)), Some((2, 1, 2)));
    assert_eq!(first_match_from(&matches, (3, 0)), None);
}
