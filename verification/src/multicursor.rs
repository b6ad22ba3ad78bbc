//! Multi-cursor editing: Alt+Click adds a cursor, Ctrl+D adds the next
//! occurrence of the current word or selection.
//!
//! The text area underneath has exactly one cursor and one optional
//! selection anchor. One keystroke is replayed at every cursor in turn:
//! the text area's cursor is moved to a stored position, the key is fed to
//! it, and the result is read back. Cursors are processed top to bottom,
//! left to right, while a running delta is kept: the change in line count
//! shifts every later cursor's row, and a column change shifts later
//! cursors that started on the same row; each stored position is adjusted
//! by the delta so far before it is used.
use vstd::prelude::*;

verus! {

/// One cursor's position plus its own optional selection anchor —
/// `anchor.is_some()` means this cursor has an active selection from
/// `anchor` to `pos`, independent of every other cursor's selection.
#[derive(Debug, Clone, Copy, PartialEq, Eq)]
pub struct CursorState {
    pub pos: (usize, usize),
    pub anchor: Option<(usize, usize)>,
}

// ---------------------------------------------------------------------------
// Adding cursors
// ---------------------------------------------------------------------------

/// Alt+Click: adds a cursor without selection at `pos`, unless the primary
/// cursor or an existing one already stands there.
pub fn add_cursor_at(secondary: &mut Vec<CursorState>, primary_pos: (usize, usize), pos: (usize, usize))
    ensures
        if pos == primary_pos || exists|i: int| 0 <= i < old(secondary)@.len() && #[trigger] old(secondary)@[i].pos == pos {
            final(secondary)@ == old(secondary)@
        } else {
            final(secondary)@ == old(secondary)@.push(CursorState { pos, anchor: None })
        },
{
    if pos.0 == primary_pos.0 && pos.1 == primary_pos.1 {
        return;
    }
    let mut i: usize = 0;
    while i < secondary.len()
        invariant
            secondary@ == old(secondary)@,
            0 <= i <= secondary@.len(),
            forall|j: int| 0 <= j < i ==> secondary@[j].pos != pos,
        decreases secondary@.len() - i,
    {
        if secondary[i].pos.0 == pos.0 && secondary[i].pos.1 == pos.1 {
            return;
        }
        i = i + 1;
    }
    secondary.push(CursorState { pos, anchor: None });
}

/// Ctrl+D's next occurrence: adds a cursor selecting `(row, start)` to
/// `(row, end)` unless an identical one exists (which happens only once
/// every occurrence already has its cursor). Whether one was added.
pub fn add_occurrence(secondary: &mut Vec<CursorState>, row: usize, start: usize, end: usize) -> (added: bool)
    ensures
        added == !old(secondary)@.contains(CursorState { pos: (row, end), anchor: Some((row, start)) }),
        added ==> final(secondary)@ == old(secondary)@.push(
            CursorState { pos: (row, end), anchor: Some((row, start)) },
        ),
        !added ==> final(secondary)@ == old(secondary)@,
{
    let cursor = CursorState { pos: (row, end), anchor: Some((row, start)) };
    let mut i: usize = 0;
    while i < secondary.len()
        invariant
            cursor == (CursorState { pos: (row, end), anchor: Some((row, start)) }),
            secondary@ == old(secondary)@,
            0 <= i <= secondary@.len(),
            forall|j: int| 0 <= j < i ==> secondary@[j] != cursor,
        decreases secondary@.len() - i,
    {
        let c = secondary[i];
        let same_anchor = match c.anchor {
            Some(a) => a.0 == row && a.1 == start,
            None => false,
        };
        if c.pos.0 == row && c.pos.1 == end && same_anchor {
            assert(c.pos == cursor.pos);
            assert(c.anchor == cursor.anchor);
            assert(secondary@[i as int] == cursor);
            return false;
        }
        assert(c.pos != cursor.pos || c.anchor != cursor.anchor);
        i = i + 1;
    }
    secondary.push(cursor);
    true
}

/// Adding the same occurrence twice adds it once.
pub proof fn lemma_add_occurrence_idempotent(v: Seq<CursorState>, row: usize, start: usize, end: usize)
    ensures
        ({
            let c = CursorState { pos: (row, end), anchor: Some((row, start)) };
            let once = if v.contains(c) {
                v
            } else {
                v.push(c)
            };
            once.contains(c) && (if once.contains(c) {
                once
            } else {
                once.push(c)
            }) == once
        }),
{
    let c = CursorState { pos: (row, end), anchor: Some((row, start)) };
    if !v.contains(c) {
        assert(v.push(c)[v.len() as int] == c);
    }
}

// ---------------------------------------------------------------------------
// The running delta
// ---------------------------------------------------------------------------

/// One position shifted by the delta so far: rows by `row_delta`, columns
/// by `col_delta` only for a cursor that started on row `col_delta_row`;
/// neither goes below zero.
pub open spec fn shift_pos(
    p: (usize, usize),
    orig_row: usize,
    row_delta: isize,
    col_delta_row: Option<usize>,
    col_delta: isize,
) -> (usize, usize) {
    let r = p.0 + row_delta;
    let c = p.1 + col_delta;
    (
        (if r < 0 {
            0
        } else {
            r
        }) as usize,
        if col_delta_row == Some(orig_row) {
            (if c < 0 {
                0
            } else {
                c
            }) as usize
        } else {
            p.1
        },
    )
}

/// Whether shifting `p` stays within the machine's signed range.
pub open spec fn shift_fits(p: (usize, usize), row_delta: isize, col_delta: isize) -> bool {
    p.0 <= isize::MAX && p.1 <= isize::MAX && p.0 + row_delta <= isize::MAX && p.1 + col_delta <= isize::MAX
}

fn shift(p: (usize, usize), orig_row: usize, row_delta: isize, col_delta_row: Option<usize>, col_delta: isize) -> (r: (
    usize,
    usize,
))
    requires
        shift_fits(p, row_delta, col_delta),
    ensures
        r == shift_pos(p, orig_row, row_delta, col_delta_row, col_delta),
{
    let r = p.0 as isize + row_delta;
    let new_row: usize = if r < 0 {
        0
    } else {
        r as usize
    };
    let same_row = match col_delta_row {
        Some(cr) => cr == orig_row,
        None => false,
    };
    let new_col: usize = if same_row {
        let c = p.1 as isize + col_delta;
        if c < 0 {
            0
        } else {
            c as usize
        }
    } else {
        p.1
    };
    (new_row, new_col)
}

/// Applies the running delta to a cursor's stored position and, when it
/// has one, to its selection anchor (both are in the same coordinates).
pub fn adjust(cursor: CursorState, orig_row: usize, row_delta: isize, col_delta_row: Option<usize>, col_delta: isize) -> (r: CursorState)
    requires
        shift_fits(cursor.pos, row_delta, col_delta),
        cursor.anchor matches Some(a) ==> shift_fits(a, row_delta, col_delta),
    ensures
        r.pos == shift_pos(cursor.pos, orig_row, row_delta, col_delta_row, col_delta),
        r.anchor == match cursor.anchor {
            Some(a) => Some(shift_pos(a, orig_row, row_delta, col_delta_row, col_delta)),
            None => None,
        },
{
    let pos = shift(cursor.pos, orig_row, row_delta, col_delta_row, col_delta);
    let anchor = match cursor.anchor {
        Some(a) => Some(shift(a, orig_row, row_delta, col_delta_row, col_delta)),
        None => None,
    };
    CursorState { pos, anchor }
}

/// The delta after one cursor's edit: a change in line count adds to the
/// row delta and drops any column shift; otherwise the column change is
/// added to the column delta, which from then on applies to cursors that
/// started on this cursor's row.
pub open spec fn spec_next_deltas(
    row_delta: isize,
    col_delta: isize,
    orig_row: usize,
    lines_before: usize,
    lines_after: usize,
    pre_col: usize,
    post_col: usize,
) -> (int, Option<usize>, int) {
    let d = lines_after - lines_before;
    if d != 0 {
        (row_delta + d, None, 0)
    } else {
        (row_delta as int, Some(orig_row), col_delta + post_col - pre_col)
    }
}

/// The delta after one cursor's edit (see `spec_next_deltas`), or `None`
/// when it would leave the machine's signed range.
pub fn next_deltas(
    row_delta: isize,
    col_delta: isize,
    orig_row: usize,
    lines_before: usize,
    lines_after: usize,
    pre_col: usize,
    post_col: usize,
) -> (r: Option<(isize, Option<usize>, isize)>)
    ensures
        ({
            let s = spec_next_deltas(row_delta, col_delta, orig_row, lines_before, lines_after, pre_col, post_col);
            let fits = isize::MIN <= s.0 <= isize::MAX && isize::MIN <= s.2 <= isize::MAX
                && lines_before <= isize::MAX && lines_after <= isize::MAX && pre_col <= isize::MAX
                && post_col <= isize::MAX;
            match r {
                Some(t) => fits && t.0 == s.0 && t.1 == s.1 && t.2 == s.2,
                None => !fits,
            }
        }),
{
    let max = isize::MAX as usize;
    if lines_before > max || lines_after > max || pre_col > max || post_col > max {
        return None;
    }
    let d = lines_after as isize - lines_before as isize;
    if d != 0 {
        match row_delta.checked_add(d) {
            Some(rd) => Some((rd, None, 0)),
            None => None,
        }
    } else {
        let dc = post_col as isize - pre_col as isize;
        match col_delta.checked_add(dc) {
            Some(cd) => Some((row_delta, Some(orig_row), cd)),
            None => None,
        }
    }
}

// ---------------------------------------------------------------------------
// Processing order
// ---------------------------------------------------------------------------

/// Where a cursor goes in the processing order: by position, ties broken
/// by its place in the list (secondary cursors in list order, the primary
/// after them).
pub open spec fn order_key(e: (Option<usize>, (usize, usize)), n: int) -> (int, int, int) {
    (e.1.0 as int, e.1.1 as int, match e.0 {
        Some(i) => i as int,
        None => n,
    })
}

pub open spec fn key_lt(a: (int, int, int), b: (int, int, int)) -> bool {
    a.0 < b.0 || (a.0 == b.0 && (a.1 < b.1 || (a.1 == b.1 && a.2 < b.2)))
}

/// Strictly ascending in processing order.
pub open spec fn in_order(v: Seq<(Option<usize>, (usize, usize))>, n: int) -> bool {
    forall|i: int, j: int|
        #![trigger v[i], v[j]]
        0 <= i < j < v.len() ==> key_lt(order_key(v[i], n), order_key(v[j], n))
}

/// Every entry is the primary at its position or a secondary cursor `i`
/// with `i < m` at its own position.
pub open spec fn entries_from(
    v: Seq<(Option<usize>, (usize, usize))>,
    secondary: Seq<CursorState>,
    primary: (usize, usize),
    m: int,
) -> bool {
    forall|j: int|
        0 <= j < v.len() ==> match #[trigger] v[j].0 {
            Some(i) => i < m && v[j].1 == secondary[i as int].pos,
            None => v[j].1 == primary,
        }
}

/// Position `a` comes after position `b`.
pub open spec fn pos_after(a: (usize, usize), b: (usize, usize)) -> bool {
    a.0 > b.0 || (a.0 == b.0 && a.1 > b.1)
}

fn first_after(v: &Vec<(Option<usize>, (usize, usize))>, pos: (usize, usize)) -> (p: usize)
    ensures
        p <= v@.len(),
        forall|i: int| 0 <= i < p ==> !pos_after(#[trigger] v@[i].1, pos),
        p < v@.len() ==> pos_after(v@[p as int].1, pos),
{
    let mut p: usize = 0;
    while p < v.len()
        invariant
            0 <= p <= v@.len(),
            forall|i: int| 0 <= i < p ==> !pos_after(#[trigger] v@[i].1, pos),
        decreases v@.len() - p,
    {
        let q = v[p].1;
        if q.0 > pos.0 || (q.0 == pos.0 && q.1 > pos.1) {
            return p;
        }
        p = p + 1;
    }
    p
}

proof fn lemma_insert_in_order(v: Seq<(Option<usize>, (usize, usize))>, x: (Option<usize>, (usize, usize)), p: int, n: int)
    requires
        in_order(v, n),
        0 <= p <= v.len(),
        forall|i: int| 0 <= i < p ==> !pos_after(#[trigger] v[i].1, x.1),
        p < v.len() ==> pos_after(v[p].1, x.1),
        forall|i: int| 0 <= i < v.len() ==> order_key(#[trigger] v[i], n).2 < order_key(x, n).2,
    ensures
        in_order(v.insert(p, x), n),
{
    let w = v.insert(p, x);
    v.insert_ensures(p, x);
    assert forall|i: int, j: int| #![trigger w[i], w[j]] 0 <= i < j < w.len() implies key_lt(
        order_key(w[i], n),
        order_key(w[j], n),
    ) by {
        if j < p {
            assert(w[i] == v[i] && w[j] == v[j]);
        } else if j == p {
            assert(w[i] == v[i]);
            assert(!pos_after(v[i].1, x.1));
            assert(order_key(v[i], n).2 < order_key(x, n).2);
        } else if i < p {
            assert(w[i] == v[i] && w[j] == v[j - 1]);
        } else if i == p {
            assert(w[j] == v[j - 1]);
            assert(pos_after(v[p].1, x.1));
            if j - 1 > p {
                assert(key_lt(order_key(v[p], n), order_key(v[j - 1], n)));
            }
        } else {
            assert(w[i] == v[i - 1] && w[j] == v[j - 1]);
        }
    }
}

/// The processing order of one keystroke: every secondary cursor (tagged
/// with its index) and the primary (tagged `None`), ascending by position,
/// ties in list order with the primary last.
pub fn processing_order(secondary: &Vec<CursorState>, primary: (usize, usize)) -> (r: Vec<(Option<usize>, (usize, usize))>)
    requires
        secondary@.len() < usize::MAX,
    ensures
        r@.len() == secondary@.len() + 1,
        in_order(r@, secondary@.len() as int),
        entries_from(r@, secondary@, primary, secondary@.len() as int),
{
    let n = secondary.len();
    let mut out: Vec<(Option<usize>, (usize, usize))> = Vec::new();
    let mut i: usize = 0;
    while i < n
        invariant
            n == secondary@.len(),
            0 <= i <= n,
            out@.len() == i,
            in_order(out@, n as int),
            entries_from(out@, secondary@, primary, i as int),
            forall|j: int| 0 <= j < out@.len() ==> (#[trigger] out@[j]).0 is Some,
        decreases n - i,
    {
        let x = (Some(i), secondary[i].pos);
        let p = first_after(&out, x.1);
        proof {
            assert forall|j: int| 0 <= j < out@.len() implies order_key(#[trigger] out@[j], n as int).2 < order_key(x, n as int).2 by {
                let e = out@[j];
                assert(e.0 is Some);
                assert(match out@[j].0 {
                    Some(k) => k < i && out@[j].1 == secondary@[k as int].pos,
                    None => out@[j].1 == primary,
                });
            }
            lemma_insert_in_order(out@, x, p as int, n as int);
            out@.insert_ensures(p as int, x);
        }
        let ghost before = out@;
        out.insert(p, x);
        proof {
            assert forall|j: int| 0 <= j < out@.len() implies match #[trigger] out@[j].0 {
                Some(k) => k < i + 1 && out@[j].1 == secondary@[k as int].pos,
                None => out@[j].1 == primary,
            } by {
                if j < p {
                    assert(out@[j] == before[j]);
                    assert(before[j].0 is Some);
                } else if j > p {
                    assert(out@[j] == before[j - 1]);
                    assert(before[j - 1].0 is Some);
                }
            }
            assert forall|j: int| 0 <= j < out@.len() implies (#[trigger] out@[j]).0 is Some by {
                if j < p {
                    assert(out@[j] == before[j]);
                } else if j > p {
                    assert(out@[j] == before[j - 1]);
                }
            }
        }
        i = i + 1;
    }
    let x = (None, primary);
    let p = first_after(&out, primary);
    proof {
        assert forall|j: int| 0 <= j < out@.len() implies order_key(#[trigger] out@[j], n as int).2 < order_key(x, n as int).2 by {
            assert(out@[j].0 is Some);
            assert(match out@[j].0 {
                Some(k) => k < n && out@[j].1 == secondary@[k as int].pos,
                None => out@[j].1 == primary,
            });
        }
        lemma_insert_in_order(out@, x, p as int, n as int);
        out@.insert_ensures(p as int, x);
    }
    let ghost before = out@;
    out.insert(p, x);
    proof {
        assert forall|j: int| 0 <= j < out@.len() implies match #[trigger] out@[j].0 {
            Some(k) => k < n && out@[j].1 == secondary@[k as int].pos,
            None => out@[j].1 == primary,
        } by {
            if j < p {
                assert(out@[j] == before[j]);
            } else if j > p {
                assert(out@[j] == before[j - 1]);
            }
        }
    }
    out
}

/// A cursor's stored state adjusted by the running delta (see `adjust`),
/// or `None` when a position or the shift leaves the machine's signed
/// range (which no text reaches).
pub fn try_adjust(cursor: CursorState, orig_row: usize, row_delta: isize, col_delta_row: Option<usize>, col_delta: isize) -> (r: Option<CursorState>)
    ensures
        match r {
            Some(c) => shift_fits(cursor.pos, row_delta, col_delta)
                && (cursor.anchor matches Some(a) ==> shift_fits(a, row_delta, col_delta))
                && c.pos == shift_pos(cursor.pos, orig_row, row_delta, col_delta_row, col_delta)
                && c.anchor == match cursor.anchor {
                    Some(a) => Some(shift_pos(a, orig_row, row_delta, col_delta_row, col_delta)),
                    None => None,
                },
            None => !shift_fits(cursor.pos, row_delta, col_delta)
                || (cursor.anchor matches Some(a) && !shift_fits(a, row_delta, col_delta)),
        },
{
    let anchor_fits = match cursor.anchor {
        Some(a) => fits(a, row_delta, col_delta),
        None => true,
    };
    if !fits(cursor.pos, row_delta, col_delta) || !anchor_fits {
        return None;
    }
    Some(adjust(cursor, orig_row, row_delta, col_delta_row, col_delta))
}

fn fits(p: (usize, usize), row_delta: isize, col_delta: isize) -> (r: bool)
    ensures
        r == shift_fits(p, row_delta, col_delta),
{
    let max = isize::MAX as usize;
    if p.0 > max || p.1 > max {
        return false;
    }
    let r = (p.0 as isize).checked_add(row_delta);
    let c = (p.1 as isize).checked_add(col_delta);
    r.is_some() && c.is_some()
}

} // verus!
