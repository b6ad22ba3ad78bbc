use shiki_tui::editor_mouse::{click_selection, drag_cell, next_click_count, ClickSelection};
use shiki_tui::geometry::Rect;

fn chars(s: &str) -> Vec<char> {
    s.chars().collect()
}

#[test]
fn repeated_clicks_count_up_to_three() {
    assert_eq!(next_click_count(0, false), 1);
    assert_eq!(next_click_count(1, true), 2);
    assert_eq!(next_click_count(2, true), 3);
    assert_eq!(next_click_count(3, true), 3);
    assert_eq!(next_click_count(3, false), 1);
}

#[test]
fn single_double_and_triple_clicks() {
    let line = chars("foo.bar baz");
    assert_eq!(click_selection(1, &line, 5), ClickSelection::Place(5));
    assert_eq!(click_selection(2, &line, 5), ClickSelection::Range(4, 7));
    assert_eq!(click_selection(2, &line, 7), ClickSelection::Range(7, 8));
    assert_eq!(click_selection(3, &line, 5), ClickSelection::Range(0, 11));
    assert_eq!(click_selection(2, &[], 0), ClickSelection::Range(0, 0));
}

#[test]
fn drags_are_kept_inside_the_text_area() {
    let inner = Rect { x: 2, y: 1, width: 10, height: 4 };
    assert_eq!(drag_cell(inner, 5, 2), Some((5, 2)));
    assert_eq!(drag_cell(inner, 0, 0), Some((2, 1)));
    assert_eq!(drag_cell(inner, 40, 9), Some((11, 4)));
    assert_eq!(drag_cell(Rect { x: 2, y: 1, width: 0, height: 4 }, 5, 2), None);
}
