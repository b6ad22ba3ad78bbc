//! The inline editor's viewport: which wrapped visual rows of the buffer
//! are on screen, where the cursor lands among them, the line-number
//! gutter, and the inverse map from a clicked screen cell back to a
//! buffer position. The same wrap of every line serves all of them, so a
//! click can never disagree with what was painted.
use vstd::prelude::*;
use crate::editor::{spec_wrap_line, wrap_line, is_wrap_of, lemma_wrap_line_well_formed, locate_from, locate_in_wrap, spec_next_scroll_top, next_scroll_top};
use crate::geometry::Rect;
use crate::text::{spec_decimal, push_decimal, string_of};

verus! {

// ---------------------------------------------------------------------------
// The model: every line's wrap, and the visual rows they make together
// ---------------------------------------------------------------------------

/// A wrap's ranges as integer pairs.
pub open spec fn pairs_of(v: Seq<(usize, usize)>) -> Seq<(int, int)> {
    v.map_values(|p: (usize, usize)| (p.0 as int, p.1 as int))
}

/// The wrap of every line of `lines` at `width` columns.
pub open spec fn wraps_of(lines: Seq<Vec<char>>, width: int) -> Seq<Seq<(int, int)>> {
    Seq::new(lines.len(), |i: int| spec_wrap_line(lines[i]@, width))
}

/// The visual rows of source line `r`: `(line, segment index, start, end)`.
pub open spec fn row_entries(r: int, segs: Seq<(int, int)>) -> Seq<(int, int, int, int)> {
    Seq::new(segs.len(), |k: int| (r, k, segs[k].0, segs[k].1))
}

/// Every visual row of the buffer, top to bottom.
pub open spec fn flat_rows(w: Seq<Seq<(int, int)>>) -> Seq<(int, int, int, int)>
    decreases w.len(),
{
    if w.len() == 0 {
        seq![]
    } else {
        flat_rows(w.drop_last()) + row_entries(w.len() - 1, w.last())
    }
}

/// `x` capped at the largest `usize`.
pub open spec fn sat_usize(x: int) -> int {
    if x <= usize::MAX {
        x
    } else {
        usize::MAX as int
    }
}

/// `a - b`, or 0 where that is negative.
pub open spec fn sat_sub(a: int, b: int) -> int {
    if a >= b {
        a - b
    } else {
        0
    }
}

/// Columns left for text beside a `gutter`-wide gutter: never fewer than one.
pub open spec fn spec_text_width(inner_width: u16, gutter: u16) -> int {
    let w = sat_sub(inner_width as int, gutter as int);
    if w >= 1 {
        w
    } else {
        1
    }
}

/// Columns of the line-number gutter: the digits of the last line number
/// plus one column of padding, or none where line numbers are off (cut to
/// 16 bits as the width of a screen is).
pub open spec fn spec_gutter_width(line_numbers: bool, line_count: usize) -> u16 {
    if !line_numbers {
        0
    } else {
        (spec_decimal(line_count as nat).len() + 1) as u16
    }
}

pub proof fn lemma_flat_rows_step(w: Seq<Seq<(int, int)>>, r: int)
    requires
        0 <= r < w.len(),
    ensures
        flat_rows(w.take(r + 1)) == flat_rows(w.take(r)) + row_entries(r, w[r]),
{
    assert(w.take(r + 1).drop_last() =~= w.take(r));
}

pub proof fn lemma_flat_rows_prefix(w: Seq<Seq<(int, int)>>, r: int, i: int)
    requires
        0 <= r <= w.len(),
        0 <= i < flat_rows(w.take(r)).len(),
    ensures
        flat_rows(w.take(r)).len() <= flat_rows(w).len(),
        flat_rows(w)[i] == flat_rows(w.take(r))[i],
    decreases w.len() - r,
{
    if r == w.len() {
        assert(w.take(r) =~= w);
    } else {
        lemma_flat_rows_step(w, r);
        lemma_flat_rows_prefix(w, r + 1, i);
    }
}

pub proof fn lemma_flat_rows_len_mono(w: Seq<Seq<(int, int)>>, r: int)
    requires
        0 <= r <= w.len(),
    ensures
        flat_rows(w.take(r)).len() <= flat_rows(w).len(),
    decreases w.len() - r,
{
    if r == w.len() {
        assert(w.take(r) =~= w);
    } else {
        lemma_flat_rows_step(w, r);
        lemma_flat_rows_len_mono(w, r + 1);
    }
}

// ---------------------------------------------------------------------------
// Gutter and text width
// ---------------------------------------------------------------------------

/// Width of the line-number gutter for a buffer of `line_count` lines.
pub fn gutter_width(line_numbers: bool, line_count: usize) -> (g: u16)
    ensures
        g == spec_gutter_width(line_numbers, line_count),
{
    if !line_numbers {
        return 0;
    }
    let mut digits: usize = 1;
    let mut m: usize = line_count;
    while m >= 10
        invariant
            1 <= digits,
            9 * (digits - 1) <= line_count - m,
            m <= line_count,
            spec_decimal(line_count as nat).len() == digits - 1 + spec_decimal(m as nat).len(),
        decreases m,
    {
        assert(spec_decimal(m as nat) == spec_decimal((m / 10) as nat) + seq![
            crate::text::digit_char((m % 10) as nat),
        ]);
        m = m / 10;
        digits = digits + 1;
    }
    (digits + 1) as u16
}

/// Columns left for text in an `inner_width`-wide editor with a
/// `gutter`-wide gutter.
pub fn text_width(inner_width: u16, gutter: u16) -> (w: usize)
    ensures
        w == spec_text_width(inner_width, gutter),
{
    let w = inner_width.saturating_sub(gutter) as usize;
    if w >= 1 {
        w
    } else {
        1
    }
}

/// The wrap of every line at `width` columns.
pub fn wrap_lines(lines: &[Vec<char>], width: usize) -> (w: Vec<Vec<(usize, usize)>>)
    ensures
        w@.len() == lines@.len(),
        forall|i: int| 0 <= i < w@.len() ==> #[trigger] pairs_of(w@[i]@) == wraps_of(lines@, width as int)[i],
{
    let mut out: Vec<Vec<(usize, usize)>> = Vec::new();
    let mut i: usize = 0;
    while i < lines.len()
        invariant
            i <= lines@.len(),
            out@.len() == i,
            forall|j: int| 0 <= j < i ==> #[trigger] pairs_of(out@[j]@) == wraps_of(lines@, width as int)[j],
        decreases lines@.len() - i,
    {
        let r = wrap_line(lines[i].as_slice(), width);
        assert(pairs_of(r@) =~= spec_wrap_line(lines@[i as int]@, width as int));
        out.push(r);
        i = i + 1;
    }
    out
}


// ---------------------------------------------------------------------------
// Which visual rows are on screen
// ---------------------------------------------------------------------------

/// One visual row on screen: its source line, which of that line's wrap
/// segments it is, and the segment's character range.
#[derive(Clone, Copy, Debug, PartialEq, Eq, Structural)]
pub struct VisualRow {
    pub line: usize,
    pub segment: usize,
    pub start: usize,
    pub end: usize,
}

pub open spec fn rows_view(v: Seq<VisualRow>) -> Seq<(int, int, int, int)> {
    v.map_values(|r: VisualRow| (r.line as int, r.segment as int, r.start as int, r.end as int))
}

/// The wraps held in memory, as the model's integer pairs.
pub open spec fn wraps_view(wraps: Seq<Vec<(usize, usize)>>) -> Seq<Seq<(int, int)>> {
    Seq::new(wraps.len(), |i: int| pairs_of(wraps[i]@))
}

/// The visual rows from `lo` up to (not including) `hi`, as far as the
/// buffer has them.
pub open spec fn rows_window(flat: Seq<(int, int, int, int)>, lo: int, hi: int) -> Seq<(int, int, int, int)> {
    let l = flat.len() as int;
    flat.subrange(if lo <= l { lo } else { l }, if hi <= l { hi } else { l })
}

/// Number of visual rows that the first `k` lines make (capped at the
/// largest `usize`).
fn rows_before(wraps: &[Vec<(usize, usize)>], k: usize) -> (n: usize)
    requires
        k <= wraps@.len(),
    ensures
        n == sat_usize(flat_rows(wraps_view(wraps@).take(k as int)).len() as int),
{
    let ghost w = wraps_view(wraps@);
    let mut n: usize = 0;
    let mut i: usize = 0;
    while i < k
        invariant
            k <= wraps@.len(),
            w == wraps_view(wraps@),
            i <= k,
            n == sat_usize(flat_rows(w.take(i as int)).len() as int),
        decreases k - i,
    {
        proof {
            lemma_flat_rows_step(w, i as int);
        }
        assert(w[i as int].len() == wraps@[i as int]@.len());
        n = n.saturating_add(wraps[i].len());
        i = i + 1;
    }
    n
}

/// The visual rows numbered `lo` up to (not including) `hi`.
fn rows_between(wraps: &[Vec<(usize, usize)>], lo: usize, hi: usize) -> (out: Vec<VisualRow>)
    requires
        lo <= hi,
    ensures
        rows_view(out@) == rows_window(flat_rows(wraps_view(wraps@)), lo as int, hi as int),
{
    let ghost w = wraps_view(wraps@);
    let ghost f = flat_rows(w);
    let mut out: Vec<VisualRow> = Vec::new();
    let mut vis: usize = 0;
    let mut r: usize = 0;
    proof {
        assert(w.take(0) =~= Seq::<Seq<(int, int)>>::empty());
        assert(rows_view(out@) =~= f.subrange(0, 0));
    }
    while r < wraps.len() && vis < hi
        invariant
            w == wraps_view(wraps@),
            f == flat_rows(w),
            r <= wraps@.len(),
            lo <= hi,
            vis <= hi,
            vis <= f.len(),
            vis < hi ==> vis == flat_rows(w.take(r as int)).len(),
            rows_view(out@) == f.subrange(if lo <= vis { lo as int } else { vis as int }, vis as int),
        decreases wraps@.len() - r,
    {
        proof {
            lemma_flat_rows_step(w, r as int);
            lemma_flat_rows_len_mono(w, r as int + 1);
        }
        let segs = &wraps[r];
        let mut k: usize = 0;
        while k < segs.len() && vis < hi
            invariant
                w == wraps_view(wraps@),
                f == flat_rows(w),
                r < wraps@.len(),
                segs@ == wraps@[r as int]@,
                w[r as int] == pairs_of(segs@),
                flat_rows(w.take(r as int + 1)) == flat_rows(w.take(r as int)) + row_entries(r as int, w[r as int]),
                flat_rows(w.take(r as int + 1)).len() <= f.len(),
                k <= segs@.len(),
                lo <= hi,
                vis <= hi,
                vis < hi ==> vis == flat_rows(w.take(r as int)).len() + k,
                vis <= f.len(),
                rows_view(out@) == f.subrange(if lo <= vis { lo as int } else { vis as int }, vis as int),
            decreases segs@.len() - k,
        {
            proof {
                lemma_flat_rows_prefix(w, r as int + 1, vis as int);
                assert(row_entries(r as int, w[r as int])[k as int] == f[vis as int]);
            }
            if vis >= lo {
                let seg = segs[k];
                let ghost before = out@;
                out.push(VisualRow { line: r, segment: k, start: seg.0, end: seg.1 });
                assert(rows_view(out@) =~= rows_view(before).push(f[vis as int]));
                assert(rows_view(out@) =~= f.subrange(lo as int, vis as int + 1));
            } else {
                assert(rows_view(out@) =~= f.subrange(vis as int + 1, vis as int + 1));
            }
            vis = vis + 1;
            k = k + 1;
        }
        r = r + 1;
    }
    proof {
        if vis < hi {
            assert(w.take(r as int) =~= w);
        }
    }
    out
}

// ---------------------------------------------------------------------------
// Scrolling to the cursor
// ---------------------------------------------------------------------------

/// The wraps of the buffer as the editor lays it out: every line wrapped
/// to the columns left beside the gutter.
pub open spec fn view_wraps(lines: Seq<Vec<char>>, inner_width: u16, gutter: u16) -> Seq<Seq<(int, int)>> {
    wraps_of(lines, spec_text_width(inner_width, gutter))
}

/// The visual row of the cursor at `(row, col)`: the rows of the lines
/// above it plus the segment of its own line that it falls in (capped at
/// the largest `usize`).
pub open spec fn spec_cursor_visual(w: Seq<Seq<(int, int)>>, row: int, col: int) -> int {
    sat_usize(flat_rows(w.take(row)).len() + locate_from(w[row], col, 0).0)
}

/// The top visual row after a render with the cursor on visual row
/// `cursor` of `total`: centred on the cursor in typewriter mode, else the
/// smallest move from `prev` that keeps the cursor in view; never past
/// the point where the last row reaches the bottom. Row numbers are cut
/// to 16 bits as screen rows are.
pub open spec fn spec_scroll_top(prev: u16, cursor: int, total: int, height: u16, typewriter: bool) -> int {
    let c = cursor as u16;
    let s = if typewriter {
        sat_sub(c as int, (height / 2) as int)
    } else {
        spec_next_scroll_top(prev as int, c as int, height as int)
    };
    let m = (sat_sub(total, height as int) as usize) as u16;
    if s <= m {
        s
    } else {
        m as int
    }
}

/// What one render of the editor shows.
pub struct ViewLayout {
    /// The topmost visual row on screen.
    pub scroll_top: u16,
    /// The cursor's row on screen, counted from the top of the text area.
    pub cursor_screen_row: u16,
    /// The visual rows on screen, top to bottom.
    pub rows: Vec<VisualRow>,
}

/// Lays out `lines` in a text area `inner_width` columns wide (a `gutter`
/// of them for line numbers) and `height` rows tall, with the cursor at
/// `cursor` and the previous render's top row `prev_scroll_top`: the new
/// top row, the cursor's screen row and the visual rows on screen.
pub fn layout_view(
    lines: &[Vec<char>],
    inner_width: u16,
    height: u16,
    gutter: u16,
    cursor: (usize, usize),
    prev_scroll_top: u16,
    typewriter: bool,
) -> (v: ViewLayout)
    requires
        cursor.0 < lines@.len(),
    ensures
        v.scroll_top == spec_scroll_top(
            prev_scroll_top,
            spec_cursor_visual(view_wraps(lines@, inner_width, gutter), cursor.0 as int, cursor.1 as int),
            sat_usize(flat_rows(view_wraps(lines@, inner_width, gutter)).len() as int),
            height,
            typewriter,
        ),
        v.cursor_screen_row == sat_sub(
            (spec_cursor_visual(view_wraps(lines@, inner_width, gutter), cursor.0 as int, cursor.1 as int) as u16) as int,
            v.scroll_top as int,
        ),
        v.scroll_top <= flat_rows(view_wraps(lines@, inner_width, gutter)).len(),
        rows_view(v.rows@) == rows_window(
            flat_rows(view_wraps(lines@, inner_width, gutter)),
            v.scroll_top as int,
            v.scroll_top + height,
        ),
{
    let width = text_width(inner_width, gutter);
    let wraps = wrap_lines(lines, width);
    let ghost w = view_wraps(lines@, inner_width, gutter);
    assert(wraps_view(wraps@) =~= w);
    let (row, col) = cursor;
    let off = rows_before(wraps.as_slice(), row);
    let total = rows_before(wraps.as_slice(), wraps.len());
    proof {
        assert(w.take(w.len() as int) =~= w);
        lemma_wrap_line_well_formed(lines@[row as int]@, width as int);
    }
    let segs = &wraps[row];
    proof {
        assert(segs@.map_values(|p: (usize, usize)| (p.0 as int, p.1 as int)) =~= w[row as int]);
        assert(is_wrap_of(w[row as int], lines@[row as int]@.len() as int));
        assert forall|i: int| 0 <= i < segs@.len() implies #[trigger] segs@[i].0 <= segs@[i].1 by {
            assert(w[row as int][i] == (segs@[i].0 as int, segs@[i].1 as int));
        }
        assert forall|i: int| 0 < i < segs@.len() implies segs@[i - 1].1 <= #[trigger] segs@[i].0 <= segs@[i - 1].1 + 1 by {
            assert(w[row as int][i] == (segs@[i].0 as int, segs@[i].1 as int));
            assert(w[row as int][i - 1] == (segs@[i - 1].0 as int, segs@[i - 1].1 as int));
        }
        assert(w[row as int][0] == (segs@[0].0 as int, segs@[0].1 as int));
    }
    let (local, _) = locate_in_wrap(segs.as_slice(), col);
    let cv = off.saturating_add(local);
    let c = cv as u16;
    let s = if typewriter {
        c.saturating_sub(height / 2)
    } else {
        next_scroll_top(prev_scroll_top, c, height)
    };
    let room = total.saturating_sub(height as usize);
    let m = room as u16;
    assert((room as u16) as usize <= room) by (bit_vector);
    let top = if s <= m {
        s
    } else {
        m
    };
    let rows = rows_between(wraps.as_slice(), top as usize, top as usize + height as usize);
    ViewLayout { scroll_top: top, cursor_screen_row: c.saturating_sub(top), rows }
}

// ---------------------------------------------------------------------------
// From a screen cell back to the buffer
// ---------------------------------------------------------------------------

/// Where a click on `(column, row)` lands in `lines`, laid out in the text
/// area `inner` with a `gutter`-wide gutter and `scroll_top` as the top
/// visual row: nothing outside the area; on a visual row, its line and the
/// clicked column within the segment (clamped to the segment's end); below
/// the last row, the end of the last line.
pub open spec fn spec_position_at(
    lines: Seq<Vec<char>>,
    inner: Rect,
    gutter: u16,
    scroll_top: u16,
    column: u16,
    row: u16,
) -> Option<(int, int)> {
    if inner.width == 0 || inner.height == 0 || column < inner.x || column >= inner.x + inner.width
        || row < inner.y || row >= inner.y + inner.height {
        None
    } else {
        let f = flat_rows(view_wraps(lines, inner.width, gutter));
        let target = scroll_top + (row - inner.y);
        let col = sat_sub(column - inner.x, gutter as int);
        if target < f.len() {
            let e = f[target];
            Some((e.0, if e.2 + col <= e.3 { e.2 + col } else { e.3 }))
        } else {
            let last = sat_sub(lines.len() as int, 1);
            Some((last, if lines.len() > 0 { lines[last]@.len() as int } else { 0 }))
        }
    }
}

pub open spec fn opt_pos(p: Option<(usize, usize)>) -> Option<(int, int)> {
    match p {
        Some((a, b)) => Some((a as int, b as int)),
        None => None,
    }
}

/// Maps the screen cell `(column, row)` back onto a `(line, column)` of
/// `lines`, laid out as the last render left it.
pub fn position_at(
    lines: &[Vec<char>],
    inner: Rect,
    gutter: u16,
    scroll_top: u16,
    column: u16,
    row: u16,
) -> (r: Option<(usize, usize)>)
    ensures
        opt_pos(r) == spec_position_at(lines@, inner, gutter, scroll_top, column, row),
{
    if inner.width == 0 || inner.height == 0 || column < inner.x
        || column as u32 >= inner.x as u32 + inner.width as u32 || row < inner.y
        || row as u32 >= inner.y as u32 + inner.height as u32 {
        return None;
    }
    let width = text_width(inner.width, gutter);
    let wraps = wrap_lines(lines, width);
    let ghost w = view_wraps(lines@, inner.width, gutter);
    assert(wraps_view(wraps@) =~= w);
    let target = scroll_top as usize + (row - inner.y) as usize;
    let col = (column - inner.x).saturating_sub(gutter) as usize;
    let hit = rows_between(wraps.as_slice(), target, target + 1);
    let ghost f = flat_rows(w);
    assert(rows_view(hit@).len() == hit@.len());
    if hit.len() > 0 {
        assert(target < f.len());
        assert(rows_view(hit@) =~= f.subrange(target as int, target as int + 1));
        assert(rows_view(hit@)[0] == f[target as int]);
        let e = hit[0];
        let c = if e.start <= e.end && col <= e.end - e.start {
            e.start + col
        } else {
            e.end
        };
        Some((e.line, c))
    } else {
        assert(target >= f.len());
        let last = lines.len().saturating_sub(1);
        let len = if lines.len() > 0 {
            lines[last].len()
        } else {
            0
        };
        Some((last, len))
    }
}

// ---------------------------------------------------------------------------
// The gutter's text
// ---------------------------------------------------------------------------

/// `n` spaces.
pub open spec fn spaces(n: int) -> Seq<char> {
    Seq::new(if n > 0 { n as nat } else { 0 }, |i: int| ' ')
}

/// The gutter cell of a visual row: on a line's first segment its 1-based
/// number right-aligned in all but the last gutter column, then a space;
/// on a continuation segment, blanks.
pub open spec fn spec_gutter_prefix(gutter: u16, line: int, segment: int) -> Seq<char> {
    if segment == 0 {
        let d = spec_decimal((line + 1) as nat);
        spaces(sat_sub(gutter as int, 1) - d.len()) + d + seq![' ']
    } else {
        spaces(gutter as int)
    }
}

fn push_spaces(out: &mut Vec<char>, n: usize)
    ensures
        final(out)@ == old(out)@ + spaces(n as int),
{
    let mut i: usize = 0;
    while i < n
        invariant
            i <= n,
            out@ == old(out)@ + spaces(i as int),
        decreases n - i,
    {
        out.push(' ');
        i = i + 1;
        assert(out@ =~= old(out)@ + spaces(i as int));
    }
}

/// The text of the gutter beside visual row `segment` of line `line`.
pub fn gutter_prefix(gutter: u16, line: usize, segment: usize) -> (s: String)
    requires
        line < usize::MAX,
    ensures
        s@ == spec_gutter_prefix(gutter, line as int, segment as int),
{
    let mut out: Vec<char> = Vec::new();
    if segment == 0 {
        let mut digits: Vec<char> = Vec::new();
        push_decimal(&mut digits, line + 1);
        let w = gutter.saturating_sub(1) as usize;
        let pad = if digits.len() < w {
            w - digits.len()
        } else {
            0
        };
        push_spaces(&mut out, pad);
        let mut i: usize = 0;
        let ghost before = out@;
        while i < digits.len()
            invariant
                i <= digits@.len(),
                out@ == before + digits@.take(i as int),
            decreases digits@.len() - i,
        {
            out.push(digits[i]);
            i = i + 1;
            assert(out@ =~= before + digits@.take(i as int));
        }
        assert(digits@.take(digits@.len() as int) =~= digits@);
        out.push(' ');
        proof {
            let d = spec_decimal((line + 1) as nat);
            assert(spaces(pad as int) =~= spaces(sat_sub(gutter as int, 1) - d.len()));
            assert(out@ =~= spec_gutter_prefix(gutter, line as int, segment as int));
        }
    } else {
        push_spaces(&mut out, gutter as usize);
        assert(out@ =~= spec_gutter_prefix(gutter, line as int, segment as int));
    }
    string_of(out.as_slice())
}

// ---------------------------------------------------------------------------
// Laws of the viewport
// ---------------------------------------------------------------------------

pub proof fn lemma_locate_in_range(ranges: Seq<(int, int)>, col: int, i: int)
    requires
        ranges.len() > 0,
        0 <= i,
    ensures
        0 <= locate_from(ranges, col, i).0 < ranges.len(),
    decreases ranges.len() - i,
{
    if i < ranges.len() {
        let (s, e) = ranges[i];
        let is_last = i + 1 == ranges.len();
        let next_start = if is_last { e } else { ranges[i + 1].0 };
        if !(col < e || (col == e && (is_last || next_start > e))) {
            lemma_locate_in_range(ranges, col, i + 1);
        }
    }
}

/// The cursor is always on screen: whichever scrolling mode, the top row
/// of a render is at or above the cursor's visual row and the cursor's
/// row is within the `height` rows shown (for buffers whose visual rows
/// fit in screen coordinates).
pub proof fn lemma_cursor_stays_visible(
    lines: Seq<Vec<char>>,
    inner_width: u16,
    height: u16,
    gutter: u16,
    cursor: (usize, usize),
    prev_scroll_top: u16,
    typewriter: bool,
)
    requires
        cursor.0 < lines.len(),
        height > 0,
        flat_rows(view_wraps(lines, inner_width, gutter)).len() <= u16::MAX,
    ensures
        ({
            let w = view_wraps(lines, inner_width, gutter);
            let cv = spec_cursor_visual(w, cursor.0 as int, cursor.1 as int);
            let st = spec_scroll_top(prev_scroll_top, cv, sat_usize(flat_rows(w).len() as int), height, typewriter);
            &&& st <= cv < st + height
            &&& sat_sub((cv as u16) as int, st) == cv - st
            &&& sat_sub((cv as u16) as int, st) < height
        }),
{
    let w = view_wraps(lines, inner_width, gutter);
    let r = cursor.0 as int;
    let width = spec_text_width(inner_width, gutter);
    lemma_wrap_line_well_formed(lines[r]@, width);
    assert(w[r] == spec_wrap_line(lines[r]@, width));
    lemma_locate_in_range(w[r], cursor.1 as int, 0);
    lemma_flat_rows_step(w, r);
    lemma_flat_rows_len_mono(w, r + 1);
    let total = flat_rows(w).len() as int;
    let cv = spec_cursor_visual(w, r, cursor.1 as int);
    assert(cv < total);
    assert(cv as u16 == cv);
    assert(sat_usize(total) == total);
    assert((sat_sub(total, height as int) as usize) as u16 == sat_sub(total, height as int));
}

/// On an empty buffer (one empty line, the cursor at its start) the
/// cursor is on the top row of the screen, whichever the scrolling mode.
pub proof fn lemma_empty_buffer_cursor_on_top(
    lines: Seq<Vec<char>>,
    inner_width: u16,
    height: u16,
    gutter: u16,
    prev_scroll_top: u16,
    typewriter: bool,
)
    requires
        lines.len() == 1,
        lines[0]@.len() == 0,
    ensures
        ({
            let w = view_wraps(lines, inner_width, gutter);
            let cv = spec_cursor_visual(w, 0, 0);
            let st = spec_scroll_top(prev_scroll_top, cv, sat_usize(flat_rows(w).len() as int), height, typewriter);
            &&& cv == 0
            &&& sat_sub((cv as u16) as int, st) == 0
        }),
{
    let w = view_wraps(lines, inner_width, gutter);
    let width = spec_text_width(inner_width, gutter);
    assert(w[0] == spec_wrap_line(lines[0]@, width));
    assert(w.take(0) =~= Seq::<Seq<(int, int)>>::empty());
    assert(flat_rows(w.take(0)).len() == 0);
    lemma_locate_in_range(w[0], 0, 0);
    let st = spec_scroll_top(prev_scroll_top, 0, sat_usize(flat_rows(w).len() as int), height, typewriter);
    assert(0 <= st);
}

/// Clicking a painted character finds it again: on the screen laid out
/// with top row `scroll_top`, the cell `j` columns past the gutter on
/// screen row `i` maps back to that visual row's line, `j` characters
/// into its segment.
pub proof fn lemma_click_finds_painted_char(
    lines: Seq<Vec<char>>,
    inner: Rect,
    gutter: u16,
    scroll_top: u16,
    i: int,
    j: int,
)
    requires
        0 <= i < inner.height,
        0 <= j,
        gutter + j < inner.width,
        inner.x + inner.width <= u16::MAX,
        inner.y + inner.height <= u16::MAX,
        i < rows_window(flat_rows(view_wraps(lines, inner.width, gutter)), scroll_top as int, scroll_top + inner.height).len(),
        rows_window(flat_rows(view_wraps(lines, inner.width, gutter)), scroll_top as int, scroll_top + inner.height)[i].2 + j
            <= rows_window(flat_rows(view_wraps(lines, inner.width, gutter)), scroll_top as int, scroll_top + inner.height)[i].3,
    ensures
        spec_position_at(lines, inner, gutter, scroll_top, (inner.x + gutter + j) as u16, (inner.y + i) as u16)
            == Some((
            rows_window(flat_rows(view_wraps(lines, inner.width, gutter)), scroll_top as int, scroll_top + inner.height)[i].0,
            rows_window(flat_rows(view_wraps(lines, inner.width, gutter)), scroll_top as int, scroll_top + inner.height)[i].2 + j,
        )),
{
    let f = flat_rows(view_wraps(lines, inner.width, gutter));
    let win = rows_window(f, scroll_top as int, scroll_top + inner.height);
    assert(scroll_top <= f.len());
    assert(win[i] == f[scroll_top + i]);
}

} // verus!
