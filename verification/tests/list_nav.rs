use shiki_tui::list_nav::{
    is_visually_selected, last_screenful_top, list_step, scroll_by, visual_selection_count, ListKey,
};

#[test]
fn down_and_up_stop_at_the_ends() {
    assert_eq!(list_step(0, 3, ListKey::Down, 10), 1);
    assert_eq!(list_step(2, 3, ListKey::Down, 10), 2);
    assert_eq!(list_step(1, 3, ListKey::Up, 10), 0);
    assert_eq!(list_step(0, 3, ListKey::Up, 10), 0);
    assert_eq!(list_step(0, 0, ListKey::Down, 10), 0);
}

#[test]
fn pages_clamp_to_the_first_and_last_rows() {
    assert_eq!(list_step(2, 30, ListKey::PageDown, 10), 12);
    assert_eq!(list_step(25, 30, ListKey::PageDown, 10), 29);
    assert_eq!(list_step(0, 0, ListKey::PageDown, 10), 0);
    assert_eq!(list_step(12, 30, ListKey::PageUp, 10), 2);
    assert_eq!(list_step(4, 30, ListKey::PageUp, 10), 0);
    assert_eq!(list_step(usize::MAX - 1, usize::MAX, ListKey::PageDown, 10), usize::MAX - 1);
}

#[test]
fn home_and_end_jump_to_the_first_and_last_rows() {
    assert_eq!(list_step(7, 30, ListKey::Home, 10), 0);
    assert_eq!(list_step(7, 30, ListKey::End, 10), 29);
    assert_eq!(list_step(0, 0, ListKey::End, 10), 0);
}

#[test]
fn preview_scroll_moves_within_sixteen_bits() {
    assert_eq!(scroll_by(5, 3), 8);
    assert_eq!(scroll_by(5, -3), 2);
    assert_eq!(scroll_by(2, -3), 0);
    assert_eq!(scroll_by(u16::MAX - 1, 10), u16::MAX);
    assert_eq!(scroll_by(7, 0), 7);
    assert_eq!(scroll_by(7, isize::MIN), 7);
}

#[test]
fn end_scrolls_to_the_last_screenful() {
    assert_eq!(last_screenful_top(100, 22), 80);
    assert_eq!(last_screenful_top(10, 22), 0);
    assert_eq!(last_screenful_top(10, 1), 10);
}

#[test]
fn visual_selection_runs_either_way_from_the_anchor() {
    assert_eq!(visual_selection_count(true, 2, 5), 4);
    assert_eq!(visual_selection_count(true, 5, 2), 4);
    assert_eq!(visual_selection_count(true, 3, 3), 1);
    assert_eq!(visual_selection_count(false, 2, 5), 0);
    assert!(is_visually_selected(true, 5, 2, 2));
    assert!(is_visually_selected(true, 5, 2, 5));
    assert!(!is_visually_selected(true, 5, 2, 6));
    assert!(!is_visually_selected(false, 5, 2, 3));
}
