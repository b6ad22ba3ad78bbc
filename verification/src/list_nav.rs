//! Moving the highlighted row of a list popup (logs, which-key, history,
//! menus, pickers) with the navigation keys: the same arithmetic in every
//! one of them, so the highlight never leaves the list. Also the panels'
//! own moves, which wrap around their lists.
use vstd::prelude::*;
use crate::navigation::{shift, spec_shift};
use crate::state::Focus;

verus! {

/// A navigation key of a list popup.
#[derive(Debug, Clone, Copy, PartialEq, Eq, Structural)]
pub enum ListKey {
    Down,
    Up,
    PageDown,
    PageUp,
    Home,
    End,
}

/// The highlighted row after `key`, for a list of `len` rows with `page`
/// rows to a page: one down unless already on the last row, one up unless
/// on the first, a page down stopping at the last row, a page up stopping
/// at the first, the first row, the last row.
pub open spec fn spec_list_step(selected: int, len: int, key: ListKey, page: int) -> int {
    let last = if len > 0 { len - 1 } else { 0 };
    match key {
        ListKey::Down => if selected + 1 < len { selected + 1 } else { selected },
        ListKey::Up => if selected >= 1 { selected - 1 } else { 0 },
        ListKey::PageDown => if selected + page <= last { selected + page } else { last },
        ListKey::PageUp => if selected >= page { selected - page } else { 0 },
        ListKey::Home => 0,
        ListKey::End => last,
    }
}

/// The highlighted row after pressing `key`.
pub fn list_step(selected: usize, len: usize, key: ListKey, page: usize) -> (r: usize)
    ensures
        r == spec_list_step(selected as int, len as int, key, page as int),
{
    let last = if len > 0 {
        len - 1
    } else {
        0
    };
    match key {
        ListKey::Down => if selected < last {
            selected + 1
        } else {
            selected
        },
        ListKey::Up => selected.saturating_sub(1),
        ListKey::PageDown => if selected <= last && page <= last - selected {
            selected + page
        } else {
            last
        },
        ListKey::PageUp => selected.saturating_sub(page),
        ListKey::Home => 0,
        ListKey::End => last,
    }
}

/// The highlight stays on a row: from a row of a non-empty list, every
/// navigation key lands on a row of it.
pub proof fn lemma_list_step_stays_in_list(selected: int, len: int, key: ListKey, page: int)
    requires
        0 <= selected < len,
        page >= 0,
    ensures
        0 <= spec_list_step(selected, len, key, page) < len,
{
}

/// One row down and one row back up returns to the same row, except on
/// the last row, where down does nothing.
pub proof fn lemma_down_then_up(selected: int, len: int, page: int)
    requires
        0 <= selected,
        selected + 1 < len,
    ensures
        spec_list_step(spec_list_step(selected, len, ListKey::Down, page), len, ListKey::Up, page) == selected,
{
}

/// PREVIEW's scroll offset after the navigation keys move `delta` lines
/// (up when negative): the distance cut to 16 bits, the offset kept
/// within 16 bits.
pub open spec fn spec_scroll_by(scroll: u16, delta: int) -> int {
    let amount = (if delta >= 0 { delta } else { -delta }) as u16;
    if delta > 0 {
        if scroll + amount <= u16::MAX { scroll + amount } else { u16::MAX as int }
    } else {
        if scroll >= amount { scroll - amount } else { 0 }
    }
}

pub fn scroll_by(scroll: u16, delta: isize) -> (r: u16)
    ensures
        r == spec_scroll_by(scroll, delta as int),
{
    let magnitude: usize = if delta >= 0 {
        delta as usize
    } else {
        (-(delta + 1)) as usize + 1
    };
    let amount = magnitude as u16;
    if delta > 0 {
        scroll.saturating_add(amount)
    } else {
        scroll.saturating_sub(amount)
    }
}

/// PREVIEW's scroll offset for `End`: the last screenful of a note of
/// `total_lines` lines in a panel `panel_height` rows tall (two of them
/// its border).
pub fn last_screenful_top(total_lines: u16, panel_height: u16) -> (r: u16)
    ensures
        r == (if total_lines >= (if panel_height >= 2 { panel_height - 2 } else { 0 }) {
            total_lines - (if panel_height >= 2 { panel_height - 2 } else { 0 })
        } else {
            0
        }),
{
    let content = panel_height.saturating_sub(2);
    total_lines.saturating_sub(content)
}

/// Whether row `idx` is inside a visual (range) selection running from
/// `anchor` to the highlighted row `selected`, in either direction;
/// nothing is selected outside visual mode.
pub open spec fn spec_visually_selected(visual: bool, anchor: int, selected: int, idx: int) -> bool {
    visual && (if anchor <= selected { anchor <= idx <= selected } else { selected <= idx <= anchor })
}

pub fn is_visually_selected(visual: bool, anchor: usize, selected: usize, idx: usize) -> (b: bool)
    ensures
        b == spec_visually_selected(visual, anchor as int, selected as int, idx as int),
{
    let (lo, hi) = if anchor <= selected {
        (anchor, selected)
    } else {
        (selected, anchor)
    };
    visual && lo <= idx && idx <= hi
}

/// How many rows a visual selection from `anchor` to `selected` covers
/// (none outside visual mode).
pub fn visual_selection_count(visual: bool, anchor: usize, selected: usize) -> (n: usize)
    requires
        !(visual && (anchor == 0 && selected == usize::MAX || selected == 0 && anchor == usize::MAX)),
    ensures
        !visual ==> n == 0,
        visual ==> n == (if anchor <= selected { selected - anchor } else { anchor - selected }) + 1,
{
    if !visual {
        return 0;
    }
    if anchor <= selected {
        selected - anchor + 1
    } else {
        anchor - selected + 1
    }
}

/// The count is the number of selected rows: exactly the rows at or
/// after the first selected one and before it plus the count are selected.
pub proof fn lemma_visual_count_matches_rows(anchor: int, selected: int, idx: int)
    requires
        0 <= anchor,
        0 <= selected,
    ensures
        spec_visually_selected(true, anchor, selected, idx) <==> ({
            let lo = if anchor <= selected { anchor } else { selected };
            let count = (if anchor <= selected { selected - anchor } else { anchor - selected }) + 1;
            lo <= idx < lo + count
        }),
{
}

/// Where moving by `delta` rows takes the panel that has focus.
#[derive(Debug, Clone, Copy, PartialEq, Eq, Structural)]
pub enum PanelMove {
    /// Select this notebook (its notes are then listed from the top folder).
    Notebook(usize),
    /// Select this note or folder (the preview back at its top).
    Note(usize),
    /// Scroll the preview to this line.
    PreviewScroll(u16),
    Nothing,
}

/// `|delta|` as a `u16`, cut to 16 bits.
pub open spec fn scroll_amount(delta: isize) -> u16 {
    (if delta >= 0 { delta as int } else { -delta }) as u16
}

/// Moving by `delta` rows: around the notebooks or around the notes and
/// folders, wrapping at both ends (nothing in an empty list); in the
/// preview, scrolling by `|delta|` lines, stopping at 0 and at the largest
/// `u16`.
pub open spec fn spec_panel_move(
    focus: Focus,
    notebook: usize,
    notebooks: usize,
    note: usize,
    notes: usize,
    scroll: u16,
    delta: isize,
) -> PanelMove {
    match focus {
        Focus::Notebooks => if notebooks == 0 {
            PanelMove::Nothing
        } else {
            PanelMove::Notebook(spec_shift(notebook as int, delta as int, notebooks as int) as usize)
        },
        Focus::Notes => if notes == 0 {
            PanelMove::Nothing
        } else {
            PanelMove::Note(spec_shift(note as int, delta as int, notes as int) as usize)
        },
        Focus::Preview => {
            let a = scroll_amount(delta) as int;
            PanelMove::PreviewScroll(
                if delta > 0 {
                    if scroll + a <= u16::MAX { (scroll + a) as u16 } else { u16::MAX }
                } else {
                    if scroll >= a { (scroll - a) as u16 } else { 0 }
                },
            )
        },
    }
}

/// Where moving by `delta` rows takes the focused panel (row numbers and
/// list lengths are below `isize::MAX`, as the moves are computed in
/// `isize`).
pub fn panel_move(
    focus: Focus,
    notebook: usize,
    notebooks: usize,
    note: usize,
    notes: usize,
    scroll: u16,
    delta: isize,
) -> (r: PanelMove)
    requires
        notebook <= isize::MAX,
        note <= isize::MAX,
        notebooks <= isize::MAX,
        notes <= isize::MAX,
        isize::MIN <= notebook + delta <= isize::MAX,
        isize::MIN <= note + delta <= isize::MAX,
    ensures
        r == spec_panel_move(focus, notebook, notebooks, note, notes, scroll, delta),
{
    match focus {
        Focus::Notebooks => if notebooks == 0 {
            PanelMove::Nothing
        } else {
            PanelMove::Notebook(shift(notebook, delta, notebooks))
        },
        Focus::Notes => if notes == 0 {
            PanelMove::Nothing
        } else {
            PanelMove::Note(shift(note, delta, notes))
        },
        Focus::Preview => {
            let abs: i128 = if delta >= 0 {
                delta as i128
            } else {
                0 - (delta as i128)
            };
            let a: u16 = abs as u16;
            assert(a == scroll_amount(delta));
            PanelMove::PreviewScroll(if delta > 0 {
                scroll.saturating_add(a)
            } else {
                scroll.saturating_sub(a)
            })
        },
    }
}

} // verus!
