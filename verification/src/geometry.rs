//! Screen rectangles in terminal cells.
use vstd::prelude::*;

verus! {

/// A rectangle of terminal cells: its top-left corner and its size.
#[derive(Debug, Clone, Copy, PartialEq, Eq, Hash, Structural)]
pub struct Rect {
    pub x: u16,
    pub y: u16,
    pub width: u16,
    pub height: u16,
}

impl Rect {
    /// A rectangle at `(x, y)`, its width and height clamped so that its
    /// right and bottom edges stay within the coordinate range.
    pub fn new(x: u16, y: u16, width: u16, height: u16) -> (r: Rect)
        ensures
            r.x == x,
            r.y == y,
            r.width == if x + width <= u16::MAX {
                width as int
            } else {
                u16::MAX - x
            },
            r.height == if y + height <= u16::MAX {
                height as int
            } else {
                u16::MAX - y
            },
    {
        let width = x.saturating_add(width) - x;
        let height = y.saturating_add(height) - y;
        Rect { x, y, width, height }
    }
}

} // verus!
