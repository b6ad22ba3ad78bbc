//! Decisions behind the inline editor's cursor keys: where Ctrl+Alt+Up/Down
//! adds a cursor, where Ctrl+D's next occurrence is searched from, where a
//! scroll key moves the cursor, and which match replace-all takes next.
use vstd::prelude::*;
use crate::editor::{match_key, next_match, pos_lt, spec_next_match};
use crate::multicursor::{add_cursor_at, add_occurrence, CursorState};
use crate::text::chars_of;

verus! {

pub open spec fn pos_int(p: (usize, usize)) -> (int, int) {
    (p.0 as int, p.1 as int)
}

/// The positions of every secondary cursor, then `last`.
pub open spec fn cursor_positions(secondary: Seq<CursorState>, last: (usize, usize)) -> Seq<(usize, usize)> {
    secondary.map_values(|c: CursorState| c.pos).push(last)
}

/// The first (if `up`) or last of `ps` in document order, folding from
/// the front as `Iterator::reduce` with `min` / `max` does.
pub open spec fn furthest(ps: Seq<(usize, usize)>, up: bool) -> (usize, usize)
    decreases ps.len(),
{
    if ps.len() <= 1 {
        ps[0]
    } else {
        let a = furthest(ps.drop_last(), up);
        let b = ps.last();
        if up {
            if pos_lt(pos_int(b), pos_int(a)) {
                b
            } else {
                a
            }
        } else {
            if pos_lt(pos_int(a), pos_int(b)) {
                b
            } else {
                a
            }
        }
    }
}

/// The character count of every line.
pub open spec fn line_lens(lines: Seq<String>) -> Seq<int> {
    lines.map_values(|l: String| l@.len() as int)
}

pub open spec fn min_int(a: int, b: int) -> int {
    if a <= b {
        a
    } else {
        b
    }
}

/// Where Ctrl+Alt+Up (`up`) or Ctrl+Alt+Down adds a cursor: one row above
/// the topmost cursor or below the bottommost, its column clamped to that
/// row's length; none past the first or last line.
pub open spec fn spec_vertical_target(ps: Seq<(usize, usize)>, up: bool, lens: Seq<int>) -> Option<(int, int)> {
    let (row, col) = furthest(ps, up);
    if up && row == 0 {
        None
    } else {
        let target = if up {
            row - 1
        } else {
            row + 1
        };
        if target >= lens.len() {
            None
        } else {
            Some((target, min_int(col as int, lens[target])))
        }
    }
}

pub open spec fn opt_pos(p: Option<(usize, usize)>) -> Option<(int, int)> {
    match p {
        Some((a, b)) => Some((a as int, b as int)),
        None => None,
    }
}

fn furthest_position(secondary: &[CursorState], last: (usize, usize), up: bool) -> (r: (usize, usize))
    ensures
        r == furthest(cursor_positions(secondary@, last), up),
{
    let ghost ps = cursor_positions(secondary@, last);
    let n = secondary.len();
    if n == 0 {
        assert(ps =~= seq![last]);
        return last;
    }
    let mut best = secondary[0].pos;
    let mut i: usize = 1;
    assert(ps.take(1) =~= seq![best]);
    while i < n
        invariant
            n == secondary@.len(),
            ps == cursor_positions(secondary@, last),
            1 <= i <= n,
            best == furthest(ps.take(i as int), up),
        decreases n - i,
    {
        let p = secondary[i].pos;
        assert(p == ps[i as int]);
        assert(ps.take(i as int + 1).drop_last() =~= ps.take(i as int));
        best = closer(best, p, up);
        i = i + 1;
    }
    assert(ps.drop_last() =~= ps.take(n as int));
    assert(ps.last() == last);
    closer(best, last, up)
}

/// `b` where it comes before `a` (if `up`) or after it; else `a`.
fn closer(a: (usize, usize), b: (usize, usize), up: bool) -> (r: (usize, usize))
    ensures
        r == (if up {
            if pos_lt(pos_int(b), pos_int(a)) { b } else { a }
        } else {
            if pos_lt(pos_int(a), pos_int(b)) { b } else { a }
        }),
{
    if up {
        if b.0 < a.0 || (b.0 == a.0 && b.1 < a.1) { b } else { a }
    } else {
        if a.0 < b.0 || (a.0 == b.0 && a.1 < b.1) { b } else { a }
    }
}

/// Characters in `line`.
fn char_count(line: &String) -> (n: usize)
    ensures
        n == line@.len(),
{
    chars_of(line.as_str()).len()
}

/// Where a vertical add-cursor key (`dir < 0` up, else down) puts the new
/// cursor, given the primary cursor and the lines of the buffer.
pub fn vertical_cursor_target(
    secondary: &[CursorState],
    primary: (usize, usize),
    dir: isize,
    lines: &[String],
) -> (r: Option<(usize, usize)>)
    ensures
        opt_pos(r) == spec_vertical_target(cursor_positions(secondary@, primary), dir < 0, line_lens(lines@)),
{
    let up = dir < 0;
    let (row, col) = furthest_position(secondary, primary, up);
    if up && row == 0 {
        return None;
    }
    if !up && row >= lines.len() {
        return None;
    }
    let target = if up {
        row - 1
    } else {
        row + 1
    };
    if target >= lines.len() {
        return None;
    }
    let len = char_count(&lines[target]);
    Some((target, if col <= len { col } else { len }))
}

/// Ctrl+Alt+Up/Down: adds a cursor one row beyond the furthest cursor in
/// that direction (unless one already stands there); nothing past the
/// buffer's first or last line.
pub fn add_cursor_vertical(secondary: &mut Vec<CursorState>, primary: (usize, usize), dir: isize, lines: &[String])
    ensures
        match spec_vertical_target(cursor_positions(old(secondary)@, primary), dir < 0, line_lens(lines@)) {
            None => final(secondary)@ == old(secondary)@,
            Some(t) => if pos_int(primary) == t || exists|i: int|
                0 <= i < old(secondary)@.len() && pos_int(#[trigger] old(secondary)@[i].pos) == t {
                final(secondary)@ == old(secondary)@
            } else {
                final(secondary)@ == old(secondary)@.push(CursorState { pos: (t.0 as usize, t.1 as usize), anchor: None })
            },
        },
{
    match vertical_cursor_target(secondary.as_slice(), primary, dir, lines) {
        None => {},
        Some(pos) => {
            add_cursor_at(secondary, primary, pos);
        },
    }
}

/// Ctrl+D after the first press: adds a selecting cursor at the next match
/// after the furthest cursor (the secondaries' positions and the end of
/// the primary selection), wrapping around the buffer. Whether one was
/// added: not when there are no matches or every match already has its
/// cursor.
pub fn add_next_occurrence(
    secondary: &mut Vec<CursorState>,
    matches: &[(usize, usize, usize)],
    selection_end: (usize, usize),
) -> (added: bool)
    ensures
        match spec_next_match(matches@, pos_int(furthest(cursor_positions(old(secondary)@, selection_end), false)), false) {
            None => !added && final(secondary)@ == old(secondary)@,
            Some(m) => {
                &&& added == !old(secondary)@.contains(CursorState { pos: (m.0, m.2), anchor: Some((m.0, m.1)) })
                &&& added ==> final(secondary)@ == old(secondary)@.push(CursorState { pos: (m.0, m.2), anchor: Some((m.0, m.1)) })
                &&& !added ==> final(secondary)@ == old(secondary)@
            },
        },
{
    let from = furthest_position(secondary.as_slice(), selection_end, false);
    match next_match(matches, from, false) {
        None => false,
        Some((row, start, end)) => add_occurrence(secondary, row, start, end),
    }
}

/// Where a scroll key moves the cursor: `delta` rows, kept within the
/// buffer, the column clamped to the new line; none when the row would
/// not change.
pub open spec fn spec_scroll_cursor(row: int, col: int, delta: int, lens: Seq<int>) -> Option<(int, int)> {
    let last = if lens.len() > 0 { lens.len() - 1 } else { 0 };
    let wanted = row + delta;
    let new_row = if wanted < 0 {
        0
    } else if wanted > last {
        last
    } else {
        wanted
    };
    if new_row == row {
        None
    } else {
        Some((new_row, min_int(col, lens[new_row])))
    }
}

/// The cursor's new place after scrolling `delta` rows from `(row, col)`.
pub fn scroll_cursor_target(row: usize, col: usize, delta: isize, lines: &[String]) -> (r: Option<(usize, usize)>)
    requires
        lines@.len() > 0 || row == 0,
    ensures
        opt_pos(r) == spec_scroll_cursor(row as int, col as int, delta as int, line_lens(lines@)),
{
    let last: usize = if lines.len() > 0 {
        lines.len() - 1
    } else {
        0
    };
    let wanted: i128 = row as i128 + delta as i128;
    let new_row: usize = if wanted < 0 {
        0
    } else if wanted > last as i128 {
        last
    } else {
        wanted as usize
    };
    if new_row == row {
        return None;
    }
    let len = char_count(&lines[new_row]);
    Some((new_row, if col <= len { col } else { len }))
}

/// Index of the first match at or after index `i` that does not start
/// before `from`.
pub open spec fn first_from(ms: Seq<(usize, usize, usize)>, from: (int, int), i: int) -> Option<int>
    decreases ms.len() - i,
{
    if 0 <= i < ms.len() {
        if !pos_lt(match_key(ms[i]), from) {
            Some(i)
        } else {
            first_from(ms, from, i + 1)
        }
    } else {
        None
    }
}

/// Replace-all's next match: the first one that starts at or after `from`
/// (so a replacement that contains the query is never matched again).
pub fn first_match_from(matches: &[(usize, usize, usize)], from: (usize, usize)) -> (r: Option<(usize, usize, usize)>)
    ensures
        r == (match first_from(matches@, pos_int(from), 0) {
            Some(i) => Some(matches@[i]),
            None => None,
        }),
{
    let mut i: usize = 0;
    while i < matches.len()
        invariant
            0 <= i <= matches@.len(),
            first_from(matches@, pos_int(from), i as int) == first_from(matches@, pos_int(from), 0),
        decreases matches@.len() - i,
    {
        let m = matches[i];
        if !(m.0 < from.0 || (m.0 == from.0 && m.1 < from.1)) {
            return Some(m);
        }
        i = i + 1;
    }
    None
}

// ---------------------------------------------------------------------------
// Laws
// ---------------------------------------------------------------------------

/// The fold picks an element of `ps` with none before it (`up`) or after it.
pub proof fn lemma_furthest_is_extreme(ps: Seq<(usize, usize)>, up: bool)
    requires
        ps.len() > 0,
    ensures
        ps.contains(furthest(ps, up)),
        forall|i: int|
            0 <= i < ps.len() ==> if up {
                !pos_lt(pos_int(#[trigger] ps[i]), pos_int(furthest(ps, up)))
            } else {
                !pos_lt(pos_int(furthest(ps, up)), pos_int(ps[i]))
            },
    decreases ps.len(),
{
    if ps.len() > 1 {
        let init = ps.drop_last();
        lemma_furthest_is_extreme(init, up);
        let a = furthest(init, up);
        let k = choose|k: int| 0 <= k < init.len() && init[k] == a;
        assert(ps[k] == a);
        assert forall|i: int| 0 <= i < ps.len() implies (if up {
            !pos_lt(pos_int(#[trigger] ps[i]), pos_int(furthest(ps, up)))
        } else {
            !pos_lt(pos_int(furthest(ps, up)), pos_int(ps[i]))
        }) by {
            if i < ps.len() - 1 {
                assert(ps[i] == init[i]);
            }
        }
        if furthest(ps, up) == ps.last() {
            assert(ps[ps.len() - 1] == ps.last());
        }
    } else {
        assert(ps[0] == furthest(ps, up));
    }
}

/// Pressing Ctrl+Alt+Up (or Down) again keeps extending the same block:
/// the cursor it adds is never one that already exists, and it becomes the
/// furthest cursor in that direction, so the next press adds the row
/// beyond it.
pub proof fn lemma_vertical_add_extends_block(
    secondary: Seq<CursorState>,
    primary: (usize, usize),
    up: bool,
    lines: Seq<String>,
    t: (int, int),
)
    requires
        lines.len() <= usize::MAX,
        spec_vertical_target(cursor_positions(secondary, primary), up, line_lens(lines)) == Some(t),
    ensures
        pos_int(primary) != t,
        forall|i: int| 0 <= i < secondary.len() ==> pos_int(#[trigger] secondary[i].pos) != t,
        furthest(
            cursor_positions(secondary.push(CursorState { pos: (t.0 as usize, t.1 as usize), anchor: None }), primary),
            up,
        ) == (t.0 as usize, t.1 as usize),
{
    let ps = cursor_positions(secondary, primary);
    lemma_furthest_is_extreme(ps, up);
    let f = furthest(ps, up);
    let tp = (t.0 as usize, t.1 as usize);
    assert(0 <= t.0 < lines.len());
    assert(line_lens(lines)[t.0] >= 0);
    assert(pos_int(tp) == t);
    if up {
        assert(pos_lt(t, pos_int(f)));
    } else {
        assert(pos_lt(pos_int(f), t));
    }
    assert(ps[ps.len() - 1] == primary);
    assert forall|i: int| 0 <= i < secondary.len() implies pos_int(#[trigger] secondary[i].pos) != t by {
        assert(ps[i] == secondary[i].pos);
    }
    let qs = cursor_positions(secondary.push(CursorState { pos: tp, anchor: None }), primary);
    lemma_furthest_is_extreme(qs, up);
    let g = furthest(qs, up);
    let k = choose|k: int| 0 <= k < qs.len() && qs[k] == g;
    assert(qs[secondary.len() as int] == tp);
    if g != tp {
        // `g` is an old position, so `tp` lies strictly beyond it.
        if k < secondary.len() {
            assert(qs[k] == ps[k]);
        } else {
            assert(qs[k] == primary);
            assert(ps[ps.len() - 1] == primary);
        }
        assert(false);
    }
}

} // verus!
