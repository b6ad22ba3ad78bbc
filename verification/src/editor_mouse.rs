//! Mouse gestures in the inline editor: counting repeated clicks on one
//! cell (a second selects the word under it, a third the whole line, as a
//! GUI editor does) and keeping a drag inside the text area.
use vstd::prelude::*;
use crate::editor::{is_word_range, word_range};
use crate::geometry::Rect;

verus! {

/// The click count after a click: one more (at most three) when it
/// repeats the previous click on the same cell soon enough, else one.
pub open spec fn spec_click_count(prev: u8, repeated: bool) -> u8 {
    if repeated {
        if prev >= 2 {
            3
        } else {
            (prev + 1) as u8
        }
    } else {
        1
    }
}

pub fn next_click_count(prev: u8, repeated: bool) -> (n: u8)
    ensures
        n == spec_click_count(prev, repeated),
        1 <= n <= 3,
{
    if repeated {
        if prev >= 2 {
            3
        } else {
            prev + 1
        }
    } else {
        1
    }
}

/// What a click does on the line it lands on.
#[derive(Debug, Clone, Copy, PartialEq, Eq, Structural)]
pub enum ClickSelection {
    /// Puts the cursor at this column, with no selection.
    Place(usize),
    /// Selects the columns from the first up to (not including) the second.
    Range(usize, usize),
}

/// The selection of the `count`-th click at column `col` of `line`: the
/// word (or the run of the same kind of character) under it on a second
/// click, the whole line on a third, else the cursor placed there.
pub fn click_selection(count: u8, line: &[char], col: usize) -> (r: ClickSelection)
    ensures
        count == 2 ==> (r matches ClickSelection::Range(s, e) && is_word_range(line@, col as int, (s, e))),
        count == 3 ==> r == ClickSelection::Range(0, line@.len() as usize),
        count != 2 && count != 3 ==> r == ClickSelection::Place(col),
{
    if count == 2 {
        let (s, e) = word_range(line, col);
        ClickSelection::Range(s, e)
    } else if count == 3 {
        ClickSelection::Range(0, line.len())
    } else {
        ClickSelection::Place(col)
    }
}

/// The last cell of a span starting at `start`, `len` cells long (the first
/// cell itself for an empty span).
pub open spec fn last_cell(start: int, len: int) -> int {
    if len >= 1 {
        start + len - 1
    } else {
        start
    }
}

pub open spec fn clamp(v: int, lo: int, hi: int) -> int {
    if v < lo {
        lo
    } else if v > hi {
        hi
    } else {
        v
    }
}

/// Where a drag to `(column, row)` is taken to be: the nearest cell of the
/// text area `inner`; nothing for an empty area.
pub fn drag_cell(inner: Rect, column: u16, row: u16) -> (r: Option<(u16, u16)>)
    ensures
        inner.width == 0 || inner.height == 0 ==> r is None,
        inner.width > 0 && inner.height > 0 ==> (r matches Some((c, w)) && c == clamp(
            column as int,
            inner.x as int,
            last_cell(inner.x as int, inner.width as int),
        ) && w == clamp(row as int, inner.y as int, last_cell(inner.y as int, inner.height as int))),
{
    if inner.width == 0 || inner.height == 0 {
        return None;
    }
    let right: u32 = inner.x as u32 + inner.width as u32 - 1;
    let bottom: u32 = inner.y as u32 + inner.height as u32 - 1;
    let c: u16 = if column < inner.x {
        inner.x
    } else if column as u32 > right {
        right as u16
    } else {
        column
    };
    let w: u16 = if row < inner.y {
        inner.y
    } else if row as u32 > bottom {
        bottom as u16
    } else {
        row
    };
    Some((c, w))
}

} // verus!
