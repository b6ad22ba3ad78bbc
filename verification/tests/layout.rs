use shiki_tui::geometry::Rect;
use shiki_tui::layout::{
    beside_drawer, centered_rect, global_search_layout, global_search_popup_area, single, split, tier, tier_shares, Share,
    Tier,
};
use shiki_tui::state::Focus;

#[test]
fn tiers_follow_the_available_space() {
    assert_eq!(tier(120, 40, false), Tier::Columned);
    assert_eq!(tier(60, 40, false), Tier::Stacked);
    assert_eq!(tier(40, 40, false), Tier::Single);
    assert_eq!(tier(120, 10, false), Tier::Single);
    assert_eq!(tier(120, 40, true), Tier::Single);
}

#[test]
fn panels_before_the_focused_one_collapse() {
    assert_eq!(tier_shares(Focus::Notebooks), (Share::Fill(1), Share::Fill(2), Share::Fill(2)));
    assert_eq!(tier_shares(Focus::Notes), (Share::Length(1), Share::Fill(1), Share::Fill(1)));
    assert_eq!(tier_shares(Focus::Preview), (Share::Length(1), Share::Length(1), Share::Fill(1)));
}

#[test]
fn the_drawer_pushes_the_panels_right() {
    let main = Rect::new(0, 0, 100, 30);
    assert_eq!(beside_drawer(main, 0), main);
    assert_eq!(beside_drawer(main, 30), Rect { x: 30, y: 0, width: 70, height: 30 });
    assert_eq!(beside_drawer(Rect::new(0, 0, 20, 5), 30).width, 0);
}

#[test]
fn single_tier_shows_only_the_focused_panel() {
    let main = Rect::new(2, 3, 40, 10);
    let bar = Rect::new(0, 13, 42, 1);
    let a = single(main, bar, Focus::Notes);
    assert_eq!(a.notes, main);
    assert_eq!(a.notebooks, Rect { x: 2, y: 3, width: 0, height: 0 });
    assert_eq!(a.preview, Rect { x: 2, y: 3, width: 0, height: 0 });
    assert_eq!(a.status_bar, bar);
}

#[test]
fn wide_screens_get_columns_over_a_status_bar() {
    let a = split(Rect::new(0, 0, 120, 40), Focus::Notes, false, 0);
    assert_eq!(a.status_bar, Rect::new(0, 39, 120, 1));
    assert_eq!(a.notebooks, Rect::new(0, 0, 1, 39));
    assert_eq!(a.notes.x, 1);
    assert_eq!(a.preview.x, a.notes.x + a.notes.width);
    assert_eq!(a.notes.width + a.preview.width, 119);
    assert!(a.notes.width.abs_diff(a.preview.width) <= 1);
    assert_eq!((a.notes.height, a.preview.height), (39, 39));
}

#[test]
fn narrow_screens_stack_and_small_or_zen_screens_show_one_panel() {
    let a = split(Rect::new(0, 0, 60, 40), Focus::Preview, false, 0);
    assert_eq!(a.notebooks, Rect::new(0, 0, 60, 1));
    assert_eq!(a.notes, Rect::new(0, 1, 60, 1));
    assert_eq!(a.preview, Rect::new(0, 2, 60, 37));
    let z = split(Rect::new(0, 0, 120, 40), Focus::Preview, true, 0);
    assert_eq!(z.preview, Rect::new(0, 0, 120, 39));
    assert_eq!(z.notes, Rect::new(0, 0, 0, 0));
}

#[test]
fn an_open_drawer_pushes_the_split_right() {
    let a = split(Rect::new(0, 0, 130, 40), Focus::Notebooks, false, 30);
    assert_eq!(a.notebooks.x, 30);
    assert_eq!(a.status_bar, Rect::new(0, 39, 130, 1));
    assert_eq!(a.notebooks.width + a.notes.width + a.preview.width, 100);
}

#[test]
fn popups_are_centered_and_clamped() {
    assert_eq!(centered_rect(Rect::new(0, 0, 100, 50), 40, 10), Rect::new(30, 20, 40, 10));
    assert_eq!(centered_rect(Rect::new(5, 5, 20, 8), 40, 10), Rect::new(5, 5, 20, 8));
    let popup = global_search_popup_area(Rect::new(0, 0, 100, 60));
    assert_eq!((popup.width, popup.height), (75, 40));
    let small = global_search_popup_area(Rect::new(0, 0, 30, 9));
    assert_eq!((small.width, small.height), (30, 9));
    let (input, results) = global_search_layout(Rect::new(10, 5, 60, 20));
    assert_eq!(input, Rect::new(10, 5, 60, 3));
    assert_eq!(results, Rect::new(10, 8, 60, 17));
}
