use shiki_tui::editor::{build_segment_line, SegmentStyle};
use shiki_tui::editor::{
    find_all_matches, locate_in_wrap, next_match, next_scroll_top, pos_in_range,
    selection_text, word_range, wrap_line, SegmentCtx,
};
use shiki_tui::multicursor::CursorState;

fn chars(s: &str) -> Vec<char> {
    s.chars().collect()
}

fn lines(s: &[&str]) -> Vec<String> {
    s.iter().map(|l| l.to_string()).collect()
}

#[test]
fn wraps_on_word_boundary() {
    let line = chars("hello world foo");
    let ranges = wrap_line(&line, 11);
    assert_eq!(ranges, vec![(0, 11), (12, 15)]);
}

#[test]
fn hard_breaks_a_single_long_word() {
    let line = chars("abcdefghijklmnopqrstu");
    let ranges = wrap_line(&line, 5);
    assert_eq!(ranges, vec![(0, 5), (5, 10), (10, 15), (15, 20), (20, 21)]);
}

#[test]
fn empty_line_yields_one_empty_range() {
    assert_eq!(wrap_line(&[], 10), vec![(0, 0)]);
}

#[test]
fn zero_width_keeps_the_whole_line() {
    assert_eq!(wrap_line(&chars("abc def"), 0), vec![(0, 7)]);
}

#[test]
fn locate_maps_cursor_after_a_dropped_space() {
    let ranges = vec![(0, 11), (12, 15)];
    assert_eq!(locate_in_wrap(&ranges, 11), (0, 11));
    assert_eq!(locate_in_wrap(&ranges, 12), (1, 0));
}

#[test]
fn locate_maps_cursor_at_a_hard_break_boundary() {
    let ranges = vec![(0, 5), (5, 10)];
    assert_eq!(locate_in_wrap(&ranges, 5), (1, 0));
}

#[test]
fn located_column_points_back_at_the_same_character() {
    let line = chars("the quick brown fox jumps");
    let ranges = wrap_line(&line, 7);
    for col in 0..=line.len() {
        let (row, vcol) = locate_in_wrap(&ranges, col);
        assert_eq!(ranges[row].0 + vcol, col);
        assert!(vcol <= 7);
    }
}

#[test]
fn scroll_follows_cursor_in_both_directions() {
    assert_eq!(next_scroll_top(0, 3, 5), 0);
    assert_eq!(next_scroll_top(0, 7, 5), 3);
    assert_eq!(next_scroll_top(4, 1, 5), 1);
}

#[test]
fn scroll_with_zero_height_is_zero() {
    assert_eq!(next_scroll_top(4, 9, 0), 0);
    assert_eq!(next_scroll_top(u16::MAX, u16::MAX, u16::MAX), u16::MAX);
}

#[test]
fn word_range_selects_the_word_under_the_cursor() {
    let line = chars("hello world");
    assert_eq!(word_range(&line, 2), (0, 5));
    assert_eq!(word_range(&line, 0), (0, 5));
    assert_eq!(word_range(&line, 6), (6, 11));
}

#[test]
fn word_range_stops_at_punctuation() {
    let line = chars("foo.bar");
    assert_eq!(word_range(&line, 1), (0, 3));
    assert_eq!(word_range(&line, 3), (3, 4));
    assert_eq!(word_range(&line, 5), (4, 7));
}

#[test]
fn word_range_on_whitespace_selects_just_that_cell() {
    let line = chars("a b");
    assert_eq!(word_range(&line, 1), (1, 2));
}

#[test]
fn word_range_clamps_past_the_last_character() {
    let line = chars("hi");
    assert_eq!(word_range(&line, 5), (0, 2));
}

#[test]
fn word_range_on_empty_line() {
    assert_eq!(word_range(&[], 0), (0, 0));
}

#[test]
fn word_range_joins_underscores_and_unicode_letters() {
    let line = chars("x snake_case_ñame!");
    assert_eq!(word_range(&line, 4), (2, 17));
    assert_eq!(word_range(&line, 17), (17, 18));
}

#[test]
fn find_all_matches_is_case_insensitive_and_non_overlapping() {
    let doc = lines(&["Hello hello", "say HELLO again"]);
    let matches = find_all_matches(&doc, "hello");
    assert_eq!(matches, vec![(0, 0, 5), (0, 6, 11), (1, 4, 9)]);
}

#[test]
fn find_all_matches_returns_nothing_for_an_empty_query() {
    assert_eq!(find_all_matches(&lines(&["anything"]), ""), Vec::new());
}

#[test]
fn find_all_matches_does_not_overlap() {
    assert_eq!(find_all_matches(&lines(&["aaaa"]), "AA"), vec![(0, 0, 2), (0, 2, 4)]);
}

#[test]
fn next_match_wraps_around_in_both_directions() {
    let matches = vec![(0, 0, 3), (1, 2, 5), (2, 0, 3)];
    assert_eq!(next_match(&matches, (2, 0), false), Some((0, 0, 3)));
    assert_eq!(next_match(&matches, (0, 0), false), Some((1, 2, 5)));
    assert_eq!(next_match(&matches, (0, 0), true), Some((2, 0, 3)));
    assert_eq!(next_match(&matches, (2, 3), true), Some((2, 0, 3)));
}

#[test]
fn next_match_none_when_there_are_no_matches() {
    assert_eq!(next_match(&[], (0, 0), false), None);
}

#[test]
fn selection_text_extracts_a_single_line_range() {
    let doc = lines(&["hello world"]);
    assert_eq!(selection_text(&doc, (0, 6), (0, 11)), "world");
}

#[test]
fn selection_text_extracts_across_multiple_lines() {
    let doc = lines(&["hello world", "second line", "third"]);
    assert_eq!(selection_text(&doc, (0, 6), (2, 3)), "world\nsecond line\nthi");
}

#[test]
fn selection_text_clamps_past_the_end() {
    let doc = lines(&["ab", "cd"]);
    assert_eq!(selection_text(&doc, (5, 0), (6, 0)), "");
    assert_eq!(selection_text(&doc, (0, 9), (0, 12)), "");
    assert_eq!(selection_text(&doc, (0, 1), (7, 1)), "b\ncd\n");
}

#[test]
fn pos_in_range_covers_middle_rows_whole() {
    assert!(pos_in_range(1, 99, (0, 5), (2, 0)));
    assert!(pos_in_range(0, 5, (0, 5), (2, 0)));
    assert!(!pos_in_range(0, 4, (0, 5), (2, 0)));
    assert!(!pos_in_range(2, 0, (0, 5), (2, 0)));
    assert!(pos_in_range(3, 2, (3, 2), (3, 4)));
    assert!(!pos_in_range(3, 4, (3, 2), (3, 4)));
}

#[test]
fn secondary_selections_highlight_in_either_direction() {
    let secondary = [
        CursorState { pos: (0, 1), anchor: Some((0, 4)) },
        CursorState { pos: (1, 2), anchor: None },
    ];
    let ctx = SegmentCtx {
        row: 0,
        cursor_row: 1,
        cursor_col: 0,
        is_cursor_segment: false,
        selection: None,
        secondary: &secondary,
    };
    assert!(ctx.is_selected(2));
    assert!(!ctx.is_selected(4));
    assert!(!ctx.is_secondary_cursor(2));
    assert!(ctx.is_secondary_cursor(1));
    let ctx2 = SegmentCtx { row: 1, selection: Some(((1, 5), (1, 7))), ..ctx };
    assert!(ctx2.is_secondary_cursor(2));
    assert!(ctx2.is_selected(6));
    assert!(!ctx2.is_selected(2));
}

#[test]
fn segment_lines_group_plain_text_and_mark_cursors_and_selections() {
    let chars: Vec<char> = "hello world".chars().collect();
    let secondary = [CursorState { pos: (0, 8), anchor: None }];
    let ctx = SegmentCtx {
        row: 0,
        cursor_row: 0,
        cursor_col: 1,
        is_cursor_segment: true,
        selection: Some(((0, 3), (0, 5))),
        secondary: &secondary,
    };
    let spans = build_segment_line(&chars, (0, 11), &ctx);
    let expected = vec![
        ("h".to_string(), SegmentStyle::CursorLine),
        ("e".to_string(), SegmentStyle::Cursor),
        ("l".to_string(), SegmentStyle::CursorLine),
        ("l".to_string(), SegmentStyle::Selected),
        ("o".to_string(), SegmentStyle::Selected),
        (" wo".to_string(), SegmentStyle::CursorLine),
        ("r".to_string(), SegmentStyle::SecondaryCursor),
        ("ld".to_string(), SegmentStyle::CursorLine),
    ];
    assert_eq!(spans, expected);
    let at_end = SegmentCtx { cursor_col: 11, selection: None, secondary: &[], ..ctx };
    let spans = build_segment_line(&chars, (6, 11), &at_end);
    assert_eq!(spans, vec![("world".to_string(), SegmentStyle::CursorLine), (" ".to_string(), SegmentStyle::Cursor)]);
    let other_row = SegmentCtx { row: 1, selection: None, secondary: &[], ..ctx };
    assert_eq!(build_segment_line(&chars, (0, 5), &other_row), vec![("hello".to_string(), SegmentStyle::Text)]);
}

#[test]
fn find_skips_overlapping_occurrences() {
    let doc = lines(&["aaaaa", "xAAx"]);
    assert_eq!(find_all_matches(&doc, "aa"), vec![(0, 0, 2), (0, 2, 4), (1, 1, 3)]);
}

#[test]
fn selecting_the_whole_document_joins_its_lines() {
    let doc = lines(&["first", "", "third line"]);
    let last = doc.len() - 1;
    let text = selection_text(&doc, (0, 0), (last, doc[last].chars().count()));
    assert_eq!(text, doc.join("\n"));
    let one = lines(&["only"]);
    assert_eq!(selection_text(&one, (0, 0), (0, 4)), "only");
}

#[test]
fn wrap_breaks_at_the_last_space_within_the_width() {
    // The last space within 10 columns of 0 is the one at 9, not 2 or 4.
    let line = chars("ab c efgh ijkl");
    assert_eq!(wrap_line(&line, 10), vec![(0, 9), (10, 14)]);
    // No space within the width: a hard break, the next segment right there.
    let line = chars("abcdefghij kl");
    assert_eq!(wrap_line(&line, 4), vec![(0, 4), (4, 8), (8, 10), (11, 13)]);
}
