//! The main screen's layout decisions: three panels over a status bar, in
//! one of three tiers by the space available — side by side (Miller
//! columns) on wide terminals, stacked on narrow-but-tall ones, and only
//! the focused panel full screen on small ones or in zen mode. The focused
//! panel and those on its reading path get the space; the others collapse
//! to a one-cell border. Solving the constraints into rects is the
//! terminal library's.
use vstd::prelude::*;
use crate::geometry::Rect;
use crate::state::Focus;
use ratatui::layout::{Constraint, Flex, Layout, Rect as Cells};

verus! {

/// A panel's size along the split axis: exactly some cells, a share of
/// what is left, or at least some cells.
#[derive(Debug, Clone, Copy, PartialEq, Eq, Structural)]
pub enum Share {
    Length(u16),
    Fill(u16),
    Min(u16),
}

/// The rects that ratatui's constraint solver (`Layout::split`, with no
/// margin or spacing) cuts `area` into for `shares`, top to bottom when
/// `vertical`, else left to right, packed from the start or, when
/// `centered`, in the middle.
pub uninterp spec fn spec_solve(area: Rect, vertical: bool, centered: bool, shares: Seq<Share>) -> Seq<Rect>;

/// Wrapper over ratatui's `Layout::split` (a `Layout` built with
/// `Layout::vertical` or `Layout::horizontal` from the shares, and
/// `Flex::Center` when `centered`). As its source shows, it gives one rect
/// per constraint, each spanning the whole area across the split axis;
/// the solved positions along the axis are named, not stated.
#[verifier::external_body]
fn solve(area: Rect, vertical: bool, centered: bool, shares: &[Share]) -> (r: Vec<Rect>)
    ensures
        r@ == spec_solve(area, vertical, centered, shares@),
        r@.len() == shares@.len(),
        vertical ==> forall|i: int| 0 <= i < r@.len() ==> #[trigger] r@[i].x == area.x && r@[i].width == area.width,
        !vertical ==> forall|i: int| 0 <= i < r@.len() ==> #[trigger] r@[i].y == area.y && r@[i].height == area.height,
{
    let constraints: Vec<Constraint> = shares.iter().map(|s| match *s {
        Share::Length(n) => Constraint::Length(n),
        Share::Fill(n) => Constraint::Fill(n),
        Share::Min(n) => Constraint::Min(n),
    }).collect();
    let layout = if vertical { Layout::vertical(constraints) } else { Layout::horizontal(constraints) };
    let layout = if centered { layout.flex(Flex::Center) } else { layout };
    let cells = Cells { x: area.x, y: area.y, width: area.width, height: area.height };
    layout.split(cells).iter().map(|r| Rect { x: r.x, y: r.y, width: r.width, height: r.height }).collect()
}

/// How the three panels are arranged.
#[derive(Debug, Clone, Copy, PartialEq, Eq, Structural)]
pub enum Tier {
    /// Only the focused panel, full screen.
    Single,
    /// Top to bottom.
    Stacked,
    /// Side by side.
    Columned,
}

/// The width a collapsed panel keeps: its border line.
pub const COLLAPSED: u16 = 1;
/// Below this width, panels stack instead of standing side by side.
pub const STACK_WIDTH: u16 = 70;
/// Below this width or height, only the focused panel is shown.
pub const SINGLE_WIDTH: u16 = 46;
pub const SINGLE_HEIGHT: u16 = 14;

pub open spec fn spec_tier(width: u16, height: u16, zen_mode: bool) -> Tier {
    if zen_mode || width < SINGLE_WIDTH || height < SINGLE_HEIGHT {
        Tier::Single
    } else if width < STACK_WIDTH {
        Tier::Stacked
    } else {
        Tier::Columned
    }
}

/// The tier for a main area of `width` by `height` cells.
pub fn tier(width: u16, height: u16, zen_mode: bool) -> (t: Tier)
    ensures
        t == spec_tier(width, height, zen_mode),
{
    if zen_mode || width < SINGLE_WIDTH || height < SINGLE_HEIGHT {
        Tier::Single
    } else if width < STACK_WIDTH {
        Tier::Stacked
    } else {
        Tier::Columned
    }
}

pub open spec fn spec_tier_shares(focus: Focus) -> (Share, Share, Share) {
    match focus {
        Focus::Notebooks => (Share::Fill(1), Share::Fill(2), Share::Fill(2)),
        Focus::Notes => (Share::Length(COLLAPSED), Share::Fill(1), Share::Fill(1)),
        Focus::Preview => (Share::Length(COLLAPSED), Share::Length(COLLAPSED), Share::Fill(1)),
    }
}

/// The notebooks, notes and preview panels' shares, by focus: the panels
/// before the focused one collapse; with the notebooks focused, notes and
/// preview get twice the notebooks' share.
pub fn tier_shares(focus: Focus) -> (r: (Share, Share, Share))
    ensures
        r == spec_tier_shares(focus),
{
    match focus {
        Focus::Notebooks => (Share::Fill(1), Share::Fill(2), Share::Fill(2)),
        Focus::Notes => (Share::Length(COLLAPSED), Share::Fill(1), Share::Fill(1)),
        Focus::Preview => (Share::Length(COLLAPSED), Share::Length(COLLAPSED), Share::Fill(1)),
    }
}

/// The panels' area pushed right by an open drawer of `drawer_width`
/// (nothing when it is closed), so the drawer covers no panel.
pub fn beside_drawer(main: Rect, drawer_width: u16) -> (r: Rect)
    requires
        main.x + drawer_width <= u16::MAX,
    ensures
        drawer_width == 0 ==> r == main,
        drawer_width > 0 ==> r == (Rect {
            x: (main.x + drawer_width) as u16,
            width: if main.width > drawer_width {
                (main.width - drawer_width) as u16
            } else {
                0
            },
            ..main
        }),
{
    if drawer_width > 0 {
        Rect { x: main.x + drawer_width, width: main.width.saturating_sub(drawer_width), ..main }
    } else {
        main
    }
}

/// The screen's areas: the three panels and the status bar.
#[derive(Debug, Clone, Copy, PartialEq, Eq, Structural)]
pub struct Areas {
    pub notebooks: Rect,
    pub notes: Rect,
    pub preview: Rect,
    pub status_bar: Rect,
}

/// The single-panel tier: the focused panel gets the whole main area, the
/// other two an empty rect at its corner (drawing into it is a no-op).
pub fn single(main: Rect, status_bar: Rect, focus: Focus) -> (a: Areas)
    ensures
        a.status_bar == status_bar,
        a.notebooks == if focus == Focus::Notebooks {
            main
        } else {
            Rect { x: main.x, y: main.y, width: 0, height: 0 }
        },
        a.notes == if focus == Focus::Notes {
            main
        } else {
            Rect { x: main.x, y: main.y, width: 0, height: 0 }
        },
        a.preview == if focus == Focus::Preview {
            main
        } else {
            Rect { x: main.x, y: main.y, width: 0, height: 0 }
        },
{
    let zero = Rect { x: main.x, y: main.y, width: 0, height: 0 };
    let (notebooks, notes, preview) = match focus {
        Focus::Notebooks => (main, zero, zero),
        Focus::Notes => (zero, main, zero),
        Focus::Preview => (zero, zero, main),
    };
    Areas { notebooks, notes, preview, status_bar }
}

pub open spec fn spec_single(main: Rect, status_bar: Rect, focus: Focus) -> Areas {
    let zero = Rect { x: main.x, y: main.y, width: 0, height: 0 };
    Areas {
        notebooks: if focus == Focus::Notebooks { main } else { zero },
        notes: if focus == Focus::Notes { main } else { zero },
        preview: if focus == Focus::Preview { main } else { zero },
        status_bar,
    }
}

/// The stacked (`vertical`) or columned tier: the three panels with the
/// focus's shares.
pub open spec fn spec_three(main: Rect, status_bar: Rect, focus: Focus, vertical: bool) -> Areas {
    let (a, b, c) = spec_tier_shares(focus);
    let p = spec_solve(main, vertical, false, seq![a, b, c]);
    Areas { notebooks: p[0], notes: p[1], preview: p[2], status_bar }
}

pub open spec fn spec_beside_drawer(main: Rect, drawer_width: u16) -> Rect {
    if drawer_width > 0 {
        Rect {
            x: (main.x + drawer_width) as u16,
            width: if main.width > drawer_width { (main.width - drawer_width) as u16 } else { 0 },
            ..main
        }
    } else {
        main
    }
}

/// The screen's areas: the panels over a one-row status bar, pushed right
/// by an open drawer `drawer_width` wide, in the tier the space allows.
pub open spec fn spec_split(area: Rect, focus: Focus, zen_mode: bool, drawer_width: u16) -> Areas {
    let rows = spec_solve(area, true, false, seq![Share::Min(1), Share::Length(1)]);
    let main = spec_beside_drawer(rows[0], drawer_width);
    match spec_tier(main.width, main.height, zen_mode) {
        Tier::Single => spec_single(main, rows[1], focus),
        Tier::Stacked => spec_three(main, rows[1], focus, true),
        Tier::Columned => spec_three(main, rows[1], focus, false),
    }
}

fn three(main: Rect, status_bar: Rect, focus: Focus, vertical: bool) -> (a: Areas)
    ensures
        a == spec_three(main, status_bar, focus, vertical),
{
    let (x, y, z) = tier_shares(focus);
    let shares = vec![x, y, z];
    assert(shares@ =~= seq![x, y, z]);
    let p = solve(main, vertical, false, shares.as_slice());
    Areas { notebooks: p[0], notes: p[1], preview: p[2], status_bar }
}

/// Splits the screen `area` into the panels and the status bar for the
/// focused panel, zen mode and the drawer's width (0 when it is closed).
pub fn split(area: Rect, focus: Focus, zen_mode: bool, drawer_width: u16) -> (a: Areas)
    requires
        area.x + drawer_width <= u16::MAX,
    ensures
        a == spec_split(area, focus, zen_mode, drawer_width),
{
    let shares = vec![Share::Min(1), Share::Length(1)];
    assert(shares@ =~= seq![Share::Min(1), Share::Length(1)]);
    let rows = solve(area, true, false, shares.as_slice());
    let status_bar = rows[1];
    let main = beside_drawer(rows[0], drawer_width);
    match tier(main.width, main.height, zen_mode) {
        Tier::Single => single(main, status_bar, focus),
        Tier::Stacked => three(main, status_bar, focus, true),
        Tier::Columned => three(main, status_bar, focus, false),
    }
}

pub open spec fn min_u16(a: u16, b: u16) -> u16 {
    if a <= b { a } else { b }
}

/// A `width` by `height` rect in the middle of `area` (no larger than it).
pub open spec fn spec_centered_rect(area: Rect, width: u16, height: u16) -> Rect {
    let h = spec_solve(area, false, true, seq![Share::Length(min_u16(width, area.width))])[0];
    spec_solve(h, true, true, seq![Share::Length(min_u16(height, h.height))])[0]
}

pub fn centered_rect(area: Rect, width: u16, height: u16) -> (r: Rect)
    ensures
        r == spec_centered_rect(area, width, height),
{
    let w = if width <= area.width { width } else { area.width };
    let across = vec![Share::Length(w)];
    assert(across@ =~= seq![Share::Length(min_u16(width, area.width))]);
    let h = solve(area, false, true, across.as_slice())[0];
    let ht = if height <= h.height { height } else { h.height };
    let down = vec![Share::Length(ht)];
    assert(down@ =~= seq![Share::Length(min_u16(height, h.height))]);
    solve(h, true, true, down.as_slice())[0]
}

/// The global search popup: three quarters of the screen's width (at
/// least 40 columns) and two thirds of its height (at least 10 rows),
/// centered.
pub fn global_search_popup_area(frame_area: Rect) -> (r: Rect)
    requires
        frame_area.width * 3 <= u16::MAX,
        frame_area.height * 2 <= u16::MAX,
    ensures
        r == spec_centered_rect(
            frame_area,
            if frame_area.width * 3 / 4 >= 40 { (frame_area.width * 3 / 4) as u16 } else { 40 },
            if frame_area.height * 2 / 3 >= 10 { (frame_area.height * 2 / 3) as u16 } else { 10 },
        ),
{
    let w = frame_area.width * 3 / 4;
    let h = frame_area.height * 2 / 3;
    centered_rect(frame_area, if w >= 40 { w } else { 40 }, if h >= 10 { h } else { 10 })
}

/// The global search popup split into its three-row input box and the
/// results list below it.
pub fn global_search_layout(popup_area: Rect) -> (r: (Rect, Rect))
    ensures
        r.0 == spec_solve(popup_area, true, false, seq![Share::Length(3), Share::Min(1)])[0],
        r.1 == spec_solve(popup_area, true, false, seq![Share::Length(3), Share::Min(1)])[1],
{
    let shares = vec![Share::Length(3), Share::Min(1)];
    assert(shares@ =~= seq![Share::Length(3), Share::Min(1)]);
    let parts = solve(popup_area, true, false, shares.as_slice());
    (parts[0], parts[1])
}

} // verus!
