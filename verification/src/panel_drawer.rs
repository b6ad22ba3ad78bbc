//! The notebook drawer (`leader+b`): a left-anchored sidebar listing every
//! notebook, with two unboxed buttons, New and Import, on its last rows.
//! Rendering and mouse hit-testing share one rect, so they never disagree
//! about where things are.
use vstd::prelude::*;
use crate::geometry::Rect;

verus! {

/// Rows reserved at the bottom of the drawer for the button strip.
pub const BUTTON_ROWS: u16 = 2;

/// What a click inside the drawer landed on: a notebook row (its index),
/// or one of the two buttons.
#[derive(Debug, Clone, Copy, PartialEq, Eq, Structural)]
pub enum DrawerHit {
    Notebook(usize),
    NewButton,
    ImportButton,
}

/// The drawer's rect: left-anchored at the frame's corner, `width` wide at
/// most, and the frame's full height minus the status-bar row.
pub fn drawer_area(frame_area: Rect, width: u16) -> (r: Rect)
    ensures
        r.x == frame_area.x,
        r.y == frame_area.y,
        r.width == if width < frame_area.width {
            width
        } else {
            frame_area.width
        },
        r.height == if frame_area.height > 0 {
            frame_area.height - 1
        } else {
            0
        },
{
    Rect {
        x: frame_area.x,
        y: frame_area.y,
        width: if width < frame_area.width {
            width
        } else {
            frame_area.width
        },
        height: frame_area.height.saturating_sub(1),
    }
}

/// The row of the button strip: the first of the reserved bottom rows.
pub open spec fn buttons_row(area: Rect) -> int {
    area.y + if area.height > BUTTON_ROWS {
        area.height - BUTTON_ROWS
    } else {
        0
    }
}

/// What a click at `(column, row)` lands on, `area` being the drawer's
/// rect: nothing outside its columns; on the button row, New left of
/// column 13 (the strip reads `  [n] New  [i] Import`) and Import from
/// there on; below the top border and above the buttons, the notebook of
/// that row when there is one.
pub open spec fn spec_drawer_hit(notebook_count: usize, area: Rect, column: u16, row: u16) -> Option<DrawerHit> {
    if column < area.x || column >= area.x + area.width {
        None
    } else if row == buttons_row(area) {
        if column < area.x + 13 {
            Some(DrawerHit::NewButton)
        } else {
            Some(DrawerHit::ImportButton)
        }
    } else if row < area.y + 1 || row >= buttons_row(area) {
        None
    } else if row - (area.y + 1) < notebook_count {
        Some(DrawerHit::Notebook((row - (area.y + 1)) as usize))
    } else {
        None
    }
}

/// Maps a click inside the drawer to what it landed on (see
/// `spec_drawer_hit`); `area` must be the rect the drawer was drawn in.
pub fn drawer_hit_at(notebook_count: usize, area: Rect, column: u16, row: u16) -> (r: Option<DrawerHit>)
    requires
        area.x + area.width <= u16::MAX,
        area.y + area.height <= u16::MAX,
        area.x + 13 <= u16::MAX,
        area.y < u16::MAX,
    ensures
        r == spec_drawer_hit(notebook_count, area, column, row),
{
    if column < area.x || column >= area.x + area.width {
        return None;
    }
    let buttons_row = area.y + area.height.saturating_sub(BUTTON_ROWS);
    if row == buttons_row {
        return if column < area.x + 13 {
            Some(DrawerHit::NewButton)
        } else {
            Some(DrawerHit::ImportButton)
        };
    }
    let list_top = area.y + 1;
    if row < list_top || row >= buttons_row {
        return None;
    }
    let index = (row - list_top) as usize;
    if index < notebook_count {
        Some(DrawerHit::Notebook(index))
    } else {
        None
    }
}

/// A click between the top border and the buttons hits a notebook exactly
/// when its row has one, and the hit's index is the row's offset below the
/// border.
pub proof fn lemma_notebook_hit_is_its_row(notebook_count: usize, area: Rect, column: u16, row: u16, i: usize)
    requires
        spec_drawer_hit(notebook_count, area, column, row) == Some(DrawerHit::Notebook(i)),
    ensures
        i < notebook_count,
        row == area.y + 1 + i,
        area.x <= column < area.x + area.width,
{
}

} // verus!
