use shiki_tui::multicursor::{add_cursor_at, add_occurrence, adjust, next_deltas, processing_order, try_adjust, CursorState};

#[test]
fn add_cursor_at_dedupes_against_primary_and_existing() {
    let mut secondary = Vec::new();
    add_cursor_at(&mut secondary, (0, 0), (1, 1));
    add_cursor_at(&mut secondary, (0, 0), (1, 1));
    add_cursor_at(&mut secondary, (0, 0), (0, 0));
    assert_eq!(secondary.len(), 1);
}

#[test]
fn add_occurrence_reports_false_once_already_present() {
    let mut secondary = Vec::new();
    assert!(add_occurrence(&mut secondary, 0, 2, 5));
    assert!(!add_occurrence(&mut secondary, 0, 2, 5));
    assert_eq!(secondary.len(), 1);
    assert_eq!(secondary[0], CursorState { pos: (0, 5), anchor: Some((0, 2)) });
}

#[test]
fn processing_order_is_by_position_with_the_primary_last_on_ties() {
    let secondary = vec![
        CursorState { pos: (2, 0), anchor: None },
        CursorState { pos: (0, 3), anchor: None },
        CursorState { pos: (0, 3), anchor: None },
    ];
    let order = processing_order(&secondary, (0, 3));
    assert_eq!(order, vec![(Some(1), (0, 3)), (Some(2), (0, 3)), (None, (0, 3)), (Some(0), (2, 0))]);
}

#[test]
fn adjust_shifts_rows_and_same_row_columns() {
    let c = CursorState { pos: (1, 3), anchor: Some((1, 0)) };
    assert_eq!(adjust(c, 1, 2, Some(1), 1), CursorState { pos: (3, 4), anchor: Some((3, 1)) });
    assert_eq!(adjust(c, 1, -5, Some(0), 1), CursorState { pos: (0, 3), anchor: Some((0, 0)) });
    assert_eq!(adjust(c, 1, 0, Some(1), -9), CursorState { pos: (1, 0), anchor: Some((1, 0)) });
    assert_eq!(try_adjust(c, 1, isize::MAX, None, 0), None);
}

#[test]
fn next_deltas_track_row_and_column_shifts() {
    assert_eq!(next_deltas(0, 0, 4, 2, 3, 1, 0), Some((1, None, 0)));
    assert_eq!(next_deltas(1, 2, 4, 3, 3, 1, 2), Some((1, Some(4), 3)));
    assert_eq!(next_deltas(isize::MAX, 0, 0, 1, 2, 0, 0), None);
}
