use shiki_tui::geometry::Rect;
use shiki_tui::viewport::{
    gutter_prefix, gutter_width, layout_view, position_at, text_width, wrap_lines, VisualRow,
};

fn buffer(text: &str) -> Vec<Vec<char>> {
    text.lines().map(|l| l.chars().collect()).collect()
}

fn area(width: u16, height: u16) -> Rect {
    Rect { x: 0, y: 0, width, height }
}

#[test]
fn position_at_maps_a_click_back_to_the_clicked_character() {
    let lines = buffer("hello\nworld foo");
    let area = area(20, 5);
    let view = layout_view(&lines, area.width, area.height, 0, (0, 0), 0, false);
    let top = view.scroll_top;
    // Row 0 is "hello", clicking column 3 lands on the 'l' at index 3.
    assert_eq!(position_at(&lines, area, 0, top, 3, 0), Some((0, 3)));
    // Row 1 is "world foo", clicking column 6 lands on 'f' at index 6.
    assert_eq!(position_at(&lines, area, 0, top, 6, 1), Some((1, 6)));
    // Outside the area entirely.
    assert_eq!(position_at(&lines, area, 0, top, 30, 0), None);
}

#[test]
fn position_at_accounts_for_the_line_number_gutter() {
    let lines = buffer("hello");
    let area = area(20, 5);
    let gutter = gutter_width(true, lines.len());
    let view = layout_view(&lines, area.width, area.height, gutter, (0, 0), 0, false);
    // Gutter for a 1-line file is "1 " (2 columns) — a click landing
    // in the gutter itself clamps to column 0 of the actual text.
    assert_eq!(position_at(&lines, area, gutter, view.scroll_top, 0, 0), Some((0, 0)));
    assert_eq!(position_at(&lines, area, gutter, view.scroll_top, 2, 0), Some((0, 0)));
}

#[test]
fn click_below_the_last_row_lands_at_the_end_of_the_buffer() {
    let lines = buffer("one\ntwo three");
    let area = area(20, 5);
    assert_eq!(position_at(&lines, area, 0, 0, 4, 4), Some((1, 9)));
    assert_eq!(position_at(&[], area, 0, 0, 4, 4), Some((0, 0)));
}

#[test]
fn click_past_a_segment_end_clamps_to_it() {
    let lines = buffer("hi\nthere");
    assert_eq!(position_at(&lines, area(20, 5), 0, 0, 15, 0), Some((0, 2)));
}

#[test]
fn click_on_a_wrapped_continuation_row() {
    // At 6 columns "hello world" wraps into "hello" and "world".
    let lines = buffer("hello world");
    let r = Rect { x: 2, y: 1, width: 6, height: 3 };
    assert_eq!(position_at(&lines, r, 0, 0, 3, 2), Some((0, 7)));
    assert_eq!(position_at(&lines, r, 0, 0, 1, 2), None);
    assert_eq!(position_at(&lines, r, 0, 0, 3, 4), None);
}

#[test]
fn gutter_width_counts_digits_of_the_line_count() {
    assert_eq!(gutter_width(false, 1234), 0);
    assert_eq!(gutter_width(true, 1), 2);
    assert_eq!(gutter_width(true, 9), 2);
    assert_eq!(gutter_width(true, 10), 3);
    assert_eq!(gutter_width(true, 999), 4);
    assert_eq!(gutter_width(true, 0), 2);
}

#[test]
fn text_width_never_drops_below_one_column() {
    assert_eq!(text_width(20, 3), 17);
    assert_eq!(text_width(3, 3), 1);
    assert_eq!(text_width(2, 5), 1);
}

#[test]
fn gutter_prefix_right_aligns_line_numbers() {
    assert_eq!(gutter_prefix(4, 6, 0), "  7 ");
    assert_eq!(gutter_prefix(4, 122, 0), "123 ");
    assert_eq!(gutter_prefix(2, 122, 0), "123 ");
    assert_eq!(gutter_prefix(4, 6, 1), "    ");
    assert_eq!(gutter_prefix(0, 6, 2), "");
}

#[test]
fn wrap_lines_wraps_every_line() {
    let lines = buffer("hello world\nab");
    assert_eq!(wrap_lines(&lines, 6), vec![vec![(0, 5), (6, 11)], vec![(0, 2)]]);
}

#[test]
fn layout_shows_the_rows_in_the_window() {
    let lines = buffer("a\nb\nc\nd\ne");
    let view = layout_view(&lines, 10, 2, 0, (0, 0), 0, false);
    assert_eq!(view.scroll_top, 0);
    assert_eq!(view.cursor_screen_row, 0);
    assert_eq!(
        view.rows,
        vec![
            VisualRow { line: 0, segment: 0, start: 0, end: 1 },
            VisualRow { line: 1, segment: 0, start: 0, end: 1 },
        ]
    );
}

#[test]
fn layout_scrolls_down_just_enough_to_follow_the_cursor() {
    let lines = buffer("a\nb\nc\nd\ne");
    let view = layout_view(&lines, 10, 2, 0, (3, 0), 0, false);
    assert_eq!(view.scroll_top, 2);
    assert_eq!(view.cursor_screen_row, 1);
    assert_eq!(view.rows[0].line, 2);
    assert_eq!(view.rows[1].line, 3);
}

#[test]
fn layout_counts_wrapped_rows_above_the_cursor() {
    // "hello world" takes two rows at 6 columns, so line 1 is visual row 2.
    let lines = buffer("hello world\nab\ncd");
    let view = layout_view(&lines, 6, 2, 0, (1, 1), 0, false);
    assert_eq!(view.scroll_top, 1);
    assert_eq!(view.cursor_screen_row, 1);
    assert_eq!(
        view.rows,
        vec![
            VisualRow { line: 0, segment: 1, start: 6, end: 11 },
            VisualRow { line: 1, segment: 0, start: 0, end: 2 },
        ]
    );
}

#[test]
fn layout_typewriter_mode_centres_the_cursor() {
    let lines = buffer("a\nb\nc\nd\ne\nf\ng");
    let view = layout_view(&lines, 10, 3, 0, (3, 0), 0, true);
    assert_eq!(view.scroll_top, 2);
    assert_eq!(view.cursor_screen_row, 1);
    // Near the end the top row stops where the last line reaches the bottom.
    let view = layout_view(&lines, 10, 3, 0, (6, 0), 0, true);
    assert_eq!(view.scroll_top, 4);
    assert_eq!(view.cursor_screen_row, 2);
}

#[test]
fn layout_never_scrolls_past_the_last_row() {
    let lines = buffer("a\nb");
    let view = layout_view(&lines, 10, 5, 0, (1, 0), 7, false);
    assert_eq!(view.scroll_top, 0);
    assert_eq!(view.rows.len(), 2);
}

#[test]
fn layout_keeps_the_previous_top_while_the_cursor_is_visible() {
    let lines = buffer("a\nb\nc\nd\ne\nf");
    let view = layout_view(&lines, 10, 3, 0, (3, 0), 2, false);
    assert_eq!(view.scroll_top, 2);
    assert_eq!(view.cursor_screen_row, 1);
}

#[test]
fn cursor_row_stays_inside_the_viewport() {
    let text: String = (0..40).map(|i| format!("line {i} with some words\n")).collect();
    let lines = buffer(&text);
    for typewriter in [false, true] {
        let mut top = 0;
        for row in [0usize, 5, 39, 20, 0, 33] {
            let view = layout_view(&lines, 12, 6, 0, (row, 3), top, typewriter);
            assert!(view.cursor_screen_row < 6, "row {row}: {}", view.cursor_screen_row);
            top = view.scroll_top;
        }
    }
}

#[test]
fn empty_buffer_puts_the_cursor_on_the_top_row() {
    let lines: Vec<Vec<char>> = vec![vec![]];
    for typewriter in [false, true] {
        let view = layout_view(&lines, 20, 5, 0, (0, 0), 3, typewriter);
        assert_eq!(view.cursor_screen_row, 0);
    }
}
