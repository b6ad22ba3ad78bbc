use shiki_tui::geometry::Rect;
use shiki_tui::panel_drawer::{drawer_area, drawer_hit_at, DrawerHit, BUTTON_ROWS};

fn area() -> Rect {
    Rect::new(0, 0, 30, 40)
}

#[test]
fn clicking_a_notebook_row_hits_its_index() {
    let a = area();
    assert!(matches!(drawer_hit_at(3, a, 5, 1), Some(DrawerHit::Notebook(0))));
    assert!(matches!(drawer_hit_at(3, a, 5, 3), Some(DrawerHit::Notebook(2))));
}

#[test]
fn clicking_past_the_last_notebook_row_misses() {
    let a = area();
    assert!(drawer_hit_at(2, a, 5, 3).is_none());
}

#[test]
fn clicking_the_button_row_hits_new_or_import() {
    let a = area();
    let buttons_row = a.y + a.height - BUTTON_ROWS;
    assert!(matches!(drawer_hit_at(3, a, a.x + 2, buttons_row), Some(DrawerHit::NewButton)));
    assert!(matches!(drawer_hit_at(3, a, a.x + 20, buttons_row), Some(DrawerHit::ImportButton)));
}

#[test]
fn clicking_outside_the_drawer_column_range_misses() {
    let a = area();
    assert!(drawer_hit_at(3, a, a.x + a.width, 1).is_none());
    assert!(drawer_hit_at(3, a, a.x.wrapping_sub(1), 1).is_none());
}

#[test]
fn the_top_border_and_the_spare_button_row_miss() {
    let a = area();
    assert!(drawer_hit_at(50, a, 5, 0).is_none());
    assert!(drawer_hit_at(50, a, 5, 39).is_none());
    assert_eq!(drawer_hit_at(50, a, 12, 38), Some(DrawerHit::NewButton));
    assert_eq!(drawer_hit_at(50, a, 13, 38), Some(DrawerHit::ImportButton));
}

#[test]
fn drawer_area_is_clamped_and_leaves_the_status_row() {
    let frame = Rect::new(0, 0, 100, 30);
    assert_eq!(drawer_area(frame, 28), Rect { x: 0, y: 0, width: 28, height: 29 });
    assert_eq!(drawer_area(frame, 500), Rect { x: 0, y: 0, width: 100, height: 29 });
    assert_eq!(drawer_area(Rect::new(3, 4, 10, 0), 5).height, 0);
}

#[test]
fn rect_new_clamps_to_the_coordinate_range() {
    let r = Rect::new(65530, 2, 100, 3);
    assert_eq!(r.width, 5);
    assert_eq!(r.height, 3);
}
