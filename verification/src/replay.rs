//! Replaying one keystroke at every cursor through the single-cursor text
//! area of ratatui-textarea: each cursor in turn, in document order, is put
//! in the text area (shifted by what the earlier replays inserted or
//! removed), the key is fed to it, and the cursor is read back.
use vstd::prelude::*;
use ratatui_textarea::{CursorMove, TextArea};
use crate::multicursor::{
    entries_from, in_order, next_deltas, processing_order, shift_fits, shift_pos, spec_next_deltas, try_adjust, CursorState,
};

verus! {

/// The inline editor's text area (ratatui-textarea's `TextArea`: its
/// lines, its cursor, the anchor of an ongoing selection and its undo
/// history), borrowed for the time of a replay. Only the functions below
/// touch it.
#[verifier::external_body]
pub struct TextAreaMut<'b, 'a> {
    pub inner: &'b mut TextArea<'a>,
}

#[verifier::external_type_specification]
#[verifier::external_body]
pub struct ExKeyEvent(crossterm::event::KeyEvent);

/// The lines of the text area, as characters.
pub uninterp spec fn text_lines(t: TextAreaMut) -> Seq<Seq<char>>;

/// The text area's cursor: row and character column.
pub uninterp spec fn text_cursor(t: TextAreaMut) -> (usize, usize);

/// Where the ongoing selection was started, if one is.
pub uninterp spec fn text_anchor(t: TextAreaMut) -> Option<(usize, usize)>;

/// The lines that successive undos bring back, the next one last (one
/// entry per edit that the history can still undo).
pub uninterp spec fn undo_states(t: TextAreaMut) -> Seq<Seq<Seq<char>>>;

/// The lines that successive redos bring back, the next one last.
pub uninterp spec fn redo_states(t: TextAreaMut) -> Seq<Seq<Seq<char>>>;

/// Where one undo leaves the cursor (the undone edit's starting point).
pub uninterp spec fn undo_cursor(t: TextAreaMut) -> (usize, usize);

/// Where one redo leaves the cursor (the redone edit's end point).
pub uninterp spec fn redo_cursor(t: TextAreaMut) -> (usize, usize);

/// What `TextArea::input` of `key` makes of the lines, the cursor and the
/// selection anchor, and whether it reports the text modified.
pub uninterp spec fn typed_lines(t: TextAreaMut, key: crossterm::event::KeyEvent) -> Seq<Seq<char>>;

pub uninterp spec fn typed_cursor(t: TextAreaMut, key: crossterm::event::KeyEvent) -> (usize, usize);

pub uninterp spec fn typed_anchor(t: TextAreaMut, key: crossterm::event::KeyEvent) -> Option<(usize, usize)>;

pub uninterp spec fn typed_changed(t: TextAreaMut, key: crossterm::event::KeyEvent) -> bool;

/// `a` before `b`, row first.
pub open spec fn pos_before(a: (usize, usize), b: (usize, usize)) -> bool {
    a.0 < b.0 || (a.0 == b.0 && a.1 < b.1)
}

/// The start of the selection range: the anchor or the cursor, whichever
/// comes first.
pub open spec fn range_start(t: TextAreaMut) -> Option<(usize, usize)> {
    match text_anchor(t) {
        Some(a) => Some(if pos_before(text_cursor(t), a) { text_cursor(t) } else { a }),
        None => None,
    }
}

/// The lines of `v`, as characters.
pub open spec fn strings_chars(v: Seq<String>) -> Seq<Seq<char>> {
    v.map_values(|s: String| s@)
}

/// Where a jump to `(row, col)` lands: the row clamped to the last line,
/// the column to that line's length.
pub open spec fn clamp_jump(lines: Seq<Seq<char>>, row: u16, col: u16) -> (usize, usize) {
    let r = if (row as int) < lines.len() - 1 { row as int } else { lines.len() - 1 };
    let c = if (col as int) < lines[r].len() { col as int } else { lines[r].len() as int };
    (r as usize, c as usize)
}

/// The text area's state other than cursor and selection is unchanged.
pub open spec fn same_text(a: TextAreaMut, b: TextAreaMut) -> bool {
    &&& text_lines(a) == text_lines(b)
    &&& undo_states(a) == undo_states(b)
    &&& redo_states(a) == redo_states(b)
}

/// Wrapper over `TextArea::cursor`.
#[verifier::external_body]
fn cursor_tuple(ta: &TextAreaMut) -> (r: (usize, usize))
    ensures
        r == text_cursor(*ta),
{
    let ratatui_textarea::DataCursor(row, col) = ta.inner.cursor();
    (row, col)
}

/// Wrapper over `TextArea::selection_range`, keeping where the range
/// starts.
#[verifier::external_body]
fn selection_start(ta: &TextAreaMut) -> (r: Option<(usize, usize)>)
    ensures
        r == range_start(*ta),
{
    ta.inner.selection_range().map(|(start, _)| start)
}

/// Wrapper over `TextArea::lines`, counting them.
#[verifier::external_body]
fn line_count(ta: &TextAreaMut) -> (r: usize)
    ensures
        r == text_lines(*ta).len(),
{
    ta.inner.lines().len()
}

/// Wrapper over `TextArea::lines`, copied.
#[verifier::external_body]
fn snapshot(ta: &TextAreaMut) -> (r: Vec<String>)
    ensures
        strings_chars(r@) == text_lines(*ta),
{
    ta.inner.lines().to_vec()
}

/// Wrapper over `TextArea::lines`, compared with `before`.
#[verifier::external_body]
fn lines_equal(ta: &TextAreaMut, before: &Vec<String>) -> (r: bool)
    ensures
        r == (text_lines(*ta) == strings_chars(before@)),
{
    ta.inner.lines() == before.as_slice()
}

/// Wrapper over `TextArea::input`: what the key does is named by the
/// `typed_*` functions; the text area always keeps at least one line.
#[verifier::external_body]
fn feed_key(ta: &mut TextAreaMut, key: crossterm::event::KeyEvent) -> (r: bool)
    requires
        text_lines(*old(ta)).len() > 0,
    ensures
        r == typed_changed(*old(ta), key),
        text_lines(*final(ta)) == typed_lines(*old(ta), key),
        text_cursor(*final(ta)) == typed_cursor(*old(ta), key),
        text_anchor(*final(ta)) == typed_anchor(*old(ta), key),
        text_lines(*final(ta)).len() > 0,
{
    ta.inner.input(key)
}

/// Wrapper over `TextArea::undo`: with an edit to undo, the lines go back
/// to what they were before it, that state moves to the redo side, the
/// selection ends and the cursor goes to the edit's start; with none,
/// nothing changes.
#[verifier::external_body]
fn undo(ta: &mut TextAreaMut) -> (r: bool)
    requires
        text_lines(*old(ta)).len() > 0,
    ensures
        r == (undo_states(*old(ta)).len() > 0),
        r ==> text_lines(*final(ta)) == undo_states(*old(ta)).last()
            && undo_states(*final(ta)) == undo_states(*old(ta)).drop_last()
            && redo_states(*final(ta)) == redo_states(*old(ta)).push(text_lines(*old(ta)))
            && text_anchor(*final(ta)) is None
            && text_cursor(*final(ta)) == undo_cursor(*old(ta)),
        !r ==> same_text(*old(ta), *final(ta)) && text_cursor(*final(ta)) == text_cursor(*old(ta))
            && text_anchor(*final(ta)) == text_anchor(*old(ta)),
        text_lines(*final(ta)).len() > 0,
{
    ta.inner.undo()
}

/// Wrapper over `TextArea::redo`, the mirror of `undo`: with an undone edit
/// to redo, the lines become what it made of them, the state before moves
/// to the undo side, the selection ends and the cursor goes to the edit's
/// end; with none, nothing changes.
#[verifier::external_body]
fn redo(ta: &mut TextAreaMut) -> (r: bool)
    requires
        text_lines(*old(ta)).len() > 0,
    ensures
        r == (redo_states(*old(ta)).len() > 0),
        r ==> text_lines(*final(ta)) == redo_states(*old(ta)).last()
            && redo_states(*final(ta)) == redo_states(*old(ta)).drop_last()
            && undo_states(*final(ta)) == undo_states(*old(ta)).push(text_lines(*old(ta)))
            && text_anchor(*final(ta)) is None
            && text_cursor(*final(ta)) == redo_cursor(*old(ta)),
        !r ==> same_text(*old(ta), *final(ta)) && text_cursor(*final(ta)) == text_cursor(*old(ta))
            && text_anchor(*final(ta)) == text_anchor(*old(ta)),
        text_lines(*final(ta)).len() > 0,
{
    ta.inner.redo()
}

/// Wrapper over `TextArea::cancel_selection`.
#[verifier::external_body]
fn cancel_selection(ta: &mut TextAreaMut)
    ensures
        same_text(*old(ta), *final(ta)),
        text_cursor(*final(ta)) == text_cursor(*old(ta)),
        text_anchor(*final(ta)) is None,
{
    ta.inner.cancel_selection();
}

/// Wrapper over `TextArea::start_selection`: the selection starts at the
/// cursor.
#[verifier::external_body]
fn start_selection(ta: &mut TextAreaMut)
    ensures
        same_text(*old(ta), *final(ta)),
        text_cursor(*final(ta)) == text_cursor(*old(ta)),
        text_anchor(*final(ta)) == Some(text_cursor(*old(ta))),
{
    ta.inner.start_selection();
}

/// Wrapper over `TextArea::move_cursor` with `CursorMove::Jump`: the cursor
/// goes to the row and column, clamped to the text (see `clamp_jump`); an
/// ongoing selection goes on.
#[verifier::external_body]
fn jump(ta: &mut TextAreaMut, row: u16, col: u16)
    requires
        text_lines(*old(ta)).len() > 0,
    ensures
        same_text(*old(ta), *final(ta)),
        text_cursor(*final(ta)) == clamp_jump(text_lines(*old(ta)), row, col),
        text_anchor(*final(ta)) == text_anchor(*old(ta)),
{
    ta.inner.move_cursor(CursorMove::Jump(row, col));
}

/// Where `goto` puts the cursor: its position, clamped to `lines`.
pub open spec fn goto_cursor(lines: Seq<Seq<char>>, c: CursorState) -> (usize, usize) {
    clamp_jump(lines, c.pos.0 as u16, c.pos.1 as u16)
}

/// Where `goto` starts the selection: at the anchor, clamped, if any.
pub open spec fn goto_anchor(lines: Seq<Seq<char>>, c: CursorState) -> Option<(usize, usize)> {
    match c.anchor {
        Some(a) => Some(clamp_jump(lines, a.0 as u16, a.1 as u16)),
        None => None,
    }
}

/// Moves the text area's cursor to `cursor`, its selection anchor first
/// when it has one (coordinates cut to 16 bits, as the jump takes them).
fn goto(ta: &mut TextAreaMut, cursor: CursorState)
    requires
        text_lines(*old(ta)).len() > 0,
    ensures
        same_text(*old(ta), *final(ta)),
        text_cursor(*final(ta)) == goto_cursor(text_lines(*old(ta)), cursor),
        text_anchor(*final(ta)) == goto_anchor(text_lines(*old(ta)), cursor),
{
    cancel_selection(ta);
    match cursor.anchor {
        Some((ar, ac)) => {
            jump(ta, ar as u16, ac as u16);
            start_selection(ta);
        },
        None => {},
    }
    jump(ta, cursor.pos.0 as u16, cursor.pos.1 as u16);
}

/// How many undo steps, from `lines` with the undo side `undos`, it takes
/// to see `before` again: stopping at 10 steps, at `before`, or when
/// nothing is left to undo (`j` steps taken so far).
pub open spec fn measured_depth(lines: Seq<Seq<char>>, undos: Seq<Seq<Seq<char>>>, before: Seq<Seq<char>>, j: nat) -> nat
    decreases 10 - j,
{
    if j >= 10 || lines == before || undos.len() == 0 {
        j
    } else {
        measured_depth(undos.last(), undos.drop_last(), before, j + 1)
    }
}

/// What measuring the undo depth `n` leaves in `fin`, from `post`: the same
/// text and history; with no step taken, the same cursor and selection;
/// otherwise no selection and the cursor where the last redo put it, from
/// the state one redo short of `post`.
pub open spec fn measured(post: TextAreaMut, fin: TextAreaMut, n: nat) -> bool {
    &&& same_text(post, fin)
    &&& n == 0 ==> text_cursor(fin) == text_cursor(post) && text_anchor(fin) == text_anchor(post)
    &&& n > 0 ==> text_anchor(fin) is None && exists|x: TextAreaMut| #![trigger redo_cursor(x)]
        {
            &&& text_lines(x) == undo_states(post).last()
            &&& undo_states(x) == undo_states(post).drop_last()
            &&& redo_states(x) == redo_states(post).push(text_lines(post))
            &&& text_cursor(fin) == redo_cursor(x)
        }
}

/// The undo side after `n` undos from lines `l` with sides `u`, `r`.
pub open spec fn undone_lines(l: Seq<Seq<char>>, u: Seq<Seq<Seq<char>>>, n: nat) -> Seq<Seq<char>> {
    if n == 0 { l } else { u[u.len() - n] }
}

/// The redo side after `n` undos: the states passed, latest last.
pub open spec fn passed_states(l: Seq<Seq<char>>, u: Seq<Seq<Seq<char>>>, n: nat) -> Seq<Seq<Seq<char>>> {
    Seq::new(n, |i: int| undone_lines(l, u, i as nat))
}

/// How many undo steps bring the text back to `before` (see
/// `measured_depth`), redone right after so that the text and its history
/// are left as they were.
pub fn undo_history_depth(ta: &mut TextAreaMut, before: &Vec<String>) -> (n: usize)
    requires
        text_lines(*old(ta)).len() > 0,
    ensures
        n == measured_depth(text_lines(*old(ta)), undo_states(*old(ta)), strings_chars(before@), 0),
        measured(*old(ta), *final(ta), n as nat),
        text_lines(*final(ta)).len() > 0,
{
    let ghost t0 = *ta;
    let ghost l0 = text_lines(t0);
    let ghost u0 = undo_states(t0);
    let ghost r0 = redo_states(t0);
    let ghost b = strings_chars(before@);
    let mut n: usize = 0;
    loop
        invariant
            b == strings_chars(before@),
            n <= 10,
            n <= u0.len(),
            text_lines(*ta).len() > 0,
            text_lines(*ta) == undone_lines(l0, u0, n as nat),
            undo_states(*ta) == u0.take(u0.len() - n),
            redo_states(*ta) == r0 + passed_states(l0, u0, n as nat),
            measured_depth(text_lines(*ta), undo_states(*ta), b, n as nat) == measured_depth(l0, u0, b, 0),
            n == 0 ==> text_cursor(*ta) == text_cursor(t0) && text_anchor(*ta) == text_anchor(t0),
            n > 0 ==> text_anchor(*ta) is None,
        ensures
            n <= 10,
            n <= u0.len(),
            text_lines(*ta).len() > 0,
            text_lines(*ta) == undone_lines(l0, u0, n as nat),
            undo_states(*ta) == u0.take(u0.len() - n),
            redo_states(*ta) == r0 + passed_states(l0, u0, n as nat),
            n == measured_depth(l0, u0, b, 0),
            n == 0 ==> text_cursor(*ta) == text_cursor(t0) && text_anchor(*ta) == text_anchor(t0),
            n > 0 ==> text_anchor(*ta) is None,
        decreases 10 - n,
    {
        if n >= 10 || lines_equal(ta, before) {
            assert(measured_depth(text_lines(*ta), undo_states(*ta), b, n as nat) == n);
            break;
        }
        let ghost cur = *ta;
        if !undo(ta) {
            assert(measured_depth(text_lines(cur), undo_states(cur), b, n as nat) == n);
            break;
        }
        proof {
            assert(measured_depth(text_lines(cur), undo_states(cur), b, n as nat) == measured_depth(
                undo_states(cur).last(),
                undo_states(cur).drop_last(),
                b,
                (n + 1) as nat,
            ));
            assert(undo_states(cur) =~= u0.take(u0.len() - n));
            assert(u0.take(u0.len() - n).last() == u0[u0.len() - (n + 1)]);
            assert(u0.take(u0.len() - n).drop_last() =~= u0.take(u0.len() - (n + 1)));
            assert(passed_states(l0, u0, (n + 1) as nat) =~= passed_states(l0, u0, n as nat).push(undone_lines(l0, u0, n as nat)));
        }
        n = n + 1;
    }
    let ghost tn = *ta;
    let mut k: usize = 0;
    while k < n
        invariant
            k <= n,
            n <= u0.len(),
            n == measured_depth(l0, u0, b, 0),
            text_lines(*ta).len() > 0,
            text_lines(*ta) == undone_lines(l0, u0, (n - k) as nat),
            undo_states(*ta) == u0.take(u0.len() - (n - k)),
            redo_states(*ta) == r0 + passed_states(l0, u0, (n - k) as nat),
            k == 0 ==> *ta == tn,
            n == 0 ==> text_cursor(*ta) == text_cursor(t0) && text_anchor(*ta) == text_anchor(t0),
            0 < k ==> text_anchor(*ta) is None,
            0 < k && k == n ==> exists|x: TextAreaMut| #![trigger redo_cursor(x)]
                {
                    &&& text_lines(x) == u0.last()
                    &&& undo_states(x) == u0.drop_last()
                    &&& redo_states(x) == r0.push(l0)
                    &&& text_cursor(*ta) == redo_cursor(x)
                },
        decreases n - k,
    {
        let ghost cur = *ta;
        let ghost m = (n - k) as nat;
        proof {
            assert(passed_states(l0, u0, m).len() == m);
            assert(redo_states(cur).last() == undone_lines(l0, u0, (m - 1) as nat));
            assert(passed_states(l0, u0, m).drop_last() =~= passed_states(l0, u0, (m - 1) as nat));
            assert((r0 + passed_states(l0, u0, m)).drop_last() =~= r0 + passed_states(l0, u0, (m - 1) as nat));
            assert(u0.take(u0.len() - m).push(undone_lines(l0, u0, m)) =~= u0.take(u0.len() - (m - 1)));
        }
        redo(ta);
        proof {
            if k + 1 == n {
                assert(m == 1);
                assert(text_lines(cur) == u0.last());
                assert(u0.take(u0.len() - 1) =~= u0.drop_last());
                assert(passed_states(l0, u0, 0) =~= Seq::<Seq<Seq<char>>>::empty());
                assert(r0 + passed_states(l0, u0, 1) =~= r0.push(l0));
                assert(text_cursor(*ta) == redo_cursor(cur));
            }
        }
        k = k + 1;
    }
    proof {
        assert(u0.take(u0.len() - 0) =~= u0);
        assert(passed_states(l0, u0, 0) =~= Seq::<Seq<Seq<char>>>::empty());
        assert(r0 + passed_states(l0, u0, 0) =~= r0);
    }
    n
}

// ---------------------------------------------------------------------------
// The replay
// ---------------------------------------------------------------------------

/// The running shift: rows, the row whose columns shift, and columns.
pub type Deltas = (isize, Option<usize>, isize);

/// `next_deltas` as a value: the shift after an edit, if it fits.
pub open spec fn next_of(d: Deltas, orig_row: usize, lines_before: usize, lines_after: usize, pre_col: usize, post_col: usize) -> Option<Deltas> {
    let s = spec_next_deltas(d.0, d.2, orig_row, lines_before, lines_after, pre_col, post_col);
    if isize::MIN <= s.0 <= isize::MAX && isize::MIN <= s.2 <= isize::MAX && lines_before <= isize::MAX
        && lines_after <= isize::MAX && pre_col <= isize::MAX && post_col <= isize::MAX {
        Some((s.0 as isize, s.1, s.2 as isize))
    } else {
        None
    }
}

/// `try_adjust` as a value: the cursor shifted by `d`, if it fits.
pub open spec fn adjust_of(c: CursorState, orig_row: usize, d: Deltas) -> Option<CursorState> {
    if shift_fits(c.pos, d.0, d.2) && (c.anchor matches Some(a) ==> shift_fits(a, d.0, d.2)) {
        Some(CursorState {
            pos: shift_pos(c.pos, orig_row, d.0, d.1, d.2),
            anchor: match c.anchor {
                Some(a) => Some(shift_pos(a, orig_row, d.0, d.1, d.2)),
                None => None,
            },
        })
    } else {
        None
    }
}

/// The cursor that step `k` of `order` replays at: a secondary one, or the
/// primary.
pub open spec fn cursor_at(order: Seq<(Option<usize>, (usize, usize))>, sec: Seq<CursorState>, primary: CursorState, k: int) -> CursorState {
    match order[k].0 {
        Some(i) => sec[i as int],
        None => primary,
    }
}

/// The text area before step `k`: the start, or as step `k - 1` left it.
pub open spec fn state_before<'b, 'a>(start: TextAreaMut<'b, 'a>, fins: Seq<TextAreaMut<'b, 'a>>, k: int) -> TextAreaMut<'b, 'a> {
    if k == 0 { start } else { fins[k - 1] }
}

/// A cursor as read back from the text area.
pub open spec fn read_back(t: TextAreaMut) -> CursorState {
    CursorState { pos: text_cursor(t), anchor: range_start(t) }
}

/// The undo steps that the key made at one cursor, fed in `pre` and
/// giving `post`.
pub open spec fn steps_of(pre: TextAreaMut, post: TextAreaMut, key: crossterm::event::KeyEvent) -> nat {
    if typed_changed(pre, key) {
        measured_depth(text_lines(post), undo_states(post), text_lines(pre), 0)
    } else {
        0
    }
}

/// One step of the replay: from `prev`, the cursor `c` shifted by `d` is
/// put in the text area (`pre`), the key is fed (`post`), and, if the text
/// changed, the undo steps are measured (`fin`).
pub open spec fn step_ok(
    prev: TextAreaMut,
    pre: TextAreaMut,
    post: TextAreaMut,
    fin: TextAreaMut,
    c: CursorState,
    orig_row: usize,
    d: Deltas,
    key: crossterm::event::KeyEvent,
) -> bool {
    &&& adjust_of(c, orig_row, d) is Some
    &&& same_text(prev, pre)
    &&& text_cursor(pre) == goto_cursor(text_lines(prev), adjust_of(c, orig_row, d)->0)
    &&& text_anchor(pre) == goto_anchor(text_lines(prev), adjust_of(c, orig_row, d)->0)
    &&& text_lines(post) == typed_lines(pre, key)
    &&& text_cursor(post) == typed_cursor(pre, key)
    &&& text_anchor(post) == typed_anchor(pre, key)
    &&& if typed_changed(pre, key) {
        measured(post, fin, steps_of(pre, post, key))
    } else {
        fin == post
    }
}

/// The shift before step `m`, from the shift before step `m - 1`.
pub open spec fn shift_before<'b, 'a>(
    order: Seq<(Option<usize>, (usize, usize))>,
    ds: Seq<Deltas>,
    pres: Seq<TextAreaMut<'b, 'a>>,
    fins: Seq<TextAreaMut<'b, 'a>>,
    m: int,
) -> Option<Deltas> {
    if m == 0 {
        Some((0isize, None, 0isize))
    } else {
        next_of(
            ds[m - 1],
            order[m - 1].1.0,
            text_lines(pres[m - 1]).len() as usize,
            text_lines(fins[m - 1]).len() as usize,
            text_cursor(pres[m - 1]).1,
            text_cursor(fins[m - 1]).1,
        )
    }
}

/// The secondary cursors after the first `m` steps: each replayed one as
/// read back, the others as they were.
pub open spec fn secondary_after<'b, 'a>(
    order: Seq<(Option<usize>, (usize, usize))>,
    sec: Seq<CursorState>,
    fins: Seq<TextAreaMut<'b, 'a>>,
    m: int,
) -> Seq<CursorState>
    decreases m,
{
    if m <= 0 {
        sec
    } else {
        let s = secondary_after(order, sec, fins, m - 1);
        match order[m - 1].0 {
            Some(i) => s.update(i as int, read_back(fins[m - 1])),
            None => s,
        }
    }
}

/// The primary cursor after the first `m` steps.
pub open spec fn primary_after<'b, 'a>(
    order: Seq<(Option<usize>, (usize, usize))>,
    primary: CursorState,
    fins: Seq<TextAreaMut<'b, 'a>>,
    m: int,
) -> CursorState
    decreases m,
{
    if m <= 0 {
        primary
    } else {
        match order[m - 1].0 {
            Some(_) => primary_after(order, primary, fins, m - 1),
            None => read_back(fins[m - 1]),
        }
    }
}

/// The undo steps of the first `m` steps, added up (stopping at the
/// largest `usize`).
pub open spec fn steps_total<'b, 'a>(
    pres: Seq<TextAreaMut<'b, 'a>>,
    posts: Seq<TextAreaMut<'b, 'a>>,
    key: crossterm::event::KeyEvent,
    m: int,
) -> nat
    decreases m,
{
    if m <= 0 {
        0
    } else {
        let t = steps_total(pres, posts, key, m - 1) + steps_of(pres[m - 1], posts[m - 1], key);
        if t > usize::MAX { usize::MAX as nat } else { t }
    }
}

/// The first `fins.len()` steps of a replay of `key` from the text area
/// `start`, over the cursors in `order` (from `sec` and `primary`), through
/// the states `pres`, `posts`, `fins` with the shifts `ds`: every step as
/// `step_ok` says, each shift the one the step before left.
#[verifier::opaque]
pub open spec fn replay_prefix<'b, 'a>(
    order: Seq<(Option<usize>, (usize, usize))>,
    sec: Seq<CursorState>,
    primary: CursorState,
    key: crossterm::event::KeyEvent,
    start: TextAreaMut<'b, 'a>,
    ds: Seq<Deltas>,
    pres: Seq<TextAreaMut<'b, 'a>>,
    posts: Seq<TextAreaMut<'b, 'a>>,
    fins: Seq<TextAreaMut<'b, 'a>>,
) -> bool {
    let m = fins.len() as int;
    &&& pres.len() == m && posts.len() == m && ds.len() == m && m <= order.len()
    &&& forall|k: int| 0 <= k < m ==> shift_before(order, ds, pres, fins, k) == Some(#[trigger] ds[k])
    &&& forall|k: int|
        0 <= k < m ==> step_ok(
            state_before(start, fins, k),
            pres[k],
            posts[k],
            #[trigger] fins[k],
            cursor_at(order, sec, primary, k),
            order[k].1.0,
            ds[k],
            key,
        )
}

/// A whole replay (see `replay_prefix`): it stops only at the end of
/// `order`, or where the next shift would leave the machine's range.
pub open spec fn replayed<'b, 'a>(
    order: Seq<(Option<usize>, (usize, usize))>,
    sec: Seq<CursorState>,
    primary: CursorState,
    key: crossterm::event::KeyEvent,
    start: TextAreaMut<'b, 'a>,
    ds: Seq<Deltas>,
    pres: Seq<TextAreaMut<'b, 'a>>,
    posts: Seq<TextAreaMut<'b, 'a>>,
    fins: Seq<TextAreaMut<'b, 'a>>,
) -> bool {
    let m = fins.len() as int;
    &&& replay_prefix(order, sec, primary, key, start, ds, pres, posts, fins)
    &&& m == order.len() || shift_before(order, ds, pres, fins, m) is None || adjust_of(
        cursor_at(order, sec, primary, m),
        order[m].1.0,
        shift_before(order, ds, pres, fins, m)->0,
    ) is None
}

/// What a replay of `key` from the text area `start` with the secondary
/// cursors `sec` ends in (`sec_after`, `end`, the count `r`), told by the
/// order it went through (`in_order`, `entries_from`, one entry per
/// cursor) and the states and shifts of its steps (see `replayed`): each
/// replayed secondary cursor as read back after its step, the count the
/// undo steps of all steps, and the text area as the last step left it,
/// at the new primary cursor.
pub open spec fn replay_outcome<'b, 'a>(
    order: Seq<(Option<usize>, (usize, usize))>,
    ds: Seq<Deltas>,
    pres: Seq<TextAreaMut<'b, 'a>>,
    posts: Seq<TextAreaMut<'b, 'a>>,
    fins: Seq<TextAreaMut<'b, 'a>>,
    key: crossterm::event::KeyEvent,
    sec: Seq<CursorState>,
    start: TextAreaMut<'b, 'a>,
    sec_after: Seq<CursorState>,
    end: TextAreaMut<'b, 'a>,
    r: usize,
) -> bool {
    let n = sec.len();
    let primary = read_back(start);
    let m = fins.len() as int;
    let last = state_before(start, fins, m);
    let new_primary = primary_after(order, primary, fins, m);
    &&& order.len() == n + 1
    &&& in_order(order, n as int)
    &&& entries_from(order, sec, primary.pos, n as int)
    &&& replayed(order, sec, primary, key, start, ds, pres, posts, fins)
    &&& sec_after == secondary_after(order, sec, fins, m)
    &&& r == steps_total(pres, posts, key, m)
    &&& same_text(last, end)
    &&& text_cursor(end) == goto_cursor(text_lines(last), new_primary)
    &&& text_anchor(end) == goto_anchor(text_lines(last), new_primary)
}

proof fn lemma_folds_prefix<'b, 'a>(
    order: Seq<(Option<usize>, (usize, usize))>,
    sec: Seq<CursorState>,
    primary: CursorState,
    pres: Seq<TextAreaMut<'b, 'a>>,
    posts: Seq<TextAreaMut<'b, 'a>>,
    fins: Seq<TextAreaMut<'b, 'a>>,
    pre: TextAreaMut<'b, 'a>,
    post: TextAreaMut<'b, 'a>,
    fin: TextAreaMut<'b, 'a>,
    key: crossterm::event::KeyEvent,
    m: int,
)
    requires
        0 <= m <= fins.len(),
        m <= pres.len(),
        m <= posts.len(),
    ensures
        secondary_after(order, sec, fins.push(fin), m) == secondary_after(order, sec, fins, m),
        primary_after(order, primary, fins.push(fin), m) == primary_after(order, primary, fins, m),
        steps_total(pres.push(pre), posts.push(post), key, m) == steps_total(pres, posts, key, m),
    decreases m,
{
    if m > 0 {
        lemma_folds_prefix(order, sec, primary, pres, posts, fins, pre, post, fin, key, m - 1);
        assert(fins.push(fin)[m - 1] == fins[m - 1]);
        assert(pres.push(pre)[m - 1] == pres[m - 1]);
        assert(posts.push(post)[m - 1] == posts[m - 1]);
    }
}

proof fn lemma_step_ok<'b, 'a>(
    prev: TextAreaMut<'b, 'a>,
    pre: TextAreaMut<'b, 'a>,
    post: TextAreaMut<'b, 'a>,
    fin: TextAreaMut<'b, 'a>,
    c: CursorState,
    orig_row: usize,
    d: Deltas,
    key: crossterm::event::KeyEvent,
    adjusted: CursorState,
    changed: bool,
    depth: nat,
)
    requires
        adjust_of(c, orig_row, d) == Some(adjusted),
        same_text(prev, pre),
        text_cursor(pre) == goto_cursor(text_lines(prev), adjusted),
        text_anchor(pre) == goto_anchor(text_lines(prev), adjusted),
        text_lines(post) == typed_lines(pre, key),
        text_cursor(post) == typed_cursor(pre, key),
        text_anchor(post) == typed_anchor(pre, key),
        changed == typed_changed(pre, key),
        changed ==> depth == measured_depth(text_lines(post), undo_states(post), text_lines(pre), 0) && measured(
            post,
            fin,
            depth,
        ),
        !changed ==> fin == post && depth == 0,
    ensures
        step_ok(prev, pre, post, fin, c, orig_row, d, key),
        steps_of(pre, post, key) == depth,
{
}

#[verifier::rlimit(50)]
#[verifier::spinoff_prover]
proof fn lemma_prefix_push<'b, 'a>(
    order: Seq<(Option<usize>, (usize, usize))>,
    sec: Seq<CursorState>,
    primary: CursorState,
    key: crossterm::event::KeyEvent,
    start: TextAreaMut<'b, 'a>,
    ds: Seq<Deltas>,
    pres: Seq<TextAreaMut<'b, 'a>>,
    posts: Seq<TextAreaMut<'b, 'a>>,
    fins: Seq<TextAreaMut<'b, 'a>>,
    d: Deltas,
    pre: TextAreaMut<'b, 'a>,
    post: TextAreaMut<'b, 'a>,
    fin: TextAreaMut<'b, 'a>,
    k: int,
)
    requires
        replay_prefix(order, sec, primary, key, start, ds, pres, posts, fins),
        k == fins.len(),
        k < order.len(),
        shift_before(order, ds, pres, fins, k) == Some(d),
        step_ok(state_before(start, fins, k), pre, post, fin, cursor_at(order, sec, primary, k), order[k].1.0, d, key),
    ensures
        replay_prefix(order, sec, primary, key, start, ds.push(d), pres.push(pre), posts.push(post), fins.push(fin)),
        shift_before(order, ds.push(d), pres.push(pre), fins.push(fin), k + 1) == next_of(
            d,
            order[k].1.0,
            text_lines(pre).len() as usize,
            text_lines(fin).len() as usize,
            text_cursor(pre).1,
            text_cursor(fin).1,
        ),
        state_before(start, fins.push(fin), k + 1) == fin,
        secondary_after(order, sec, fins.push(fin), k + 1) == match order[k].0 {
            Some(i) => secondary_after(order, sec, fins, k).update(i as int, read_back(fin)),
            None => secondary_after(order, sec, fins, k),
        },
        primary_after(order, primary, fins.push(fin), k + 1) == match order[k].0 {
            Some(_) => primary_after(order, primary, fins, k),
            None => read_back(fin),
        },
        steps_total(pres.push(pre), posts.push(post), key, k + 1) == if steps_total(pres, posts, key, k) + steps_of(
            pre,
            post,
            key,
        ) > usize::MAX {
            usize::MAX as nat
        } else {
            steps_total(pres, posts, key, k) + steps_of(pre, post, key)
        },
{
    reveal(replay_prefix);
    lemma_folds_prefix(order, sec, primary, pres, posts, fins, pre, post, fin, key, k);
    let ds2 = ds.push(d);
    let pres2 = pres.push(pre);
    let posts2 = posts.push(post);
    let fins2 = fins.push(fin);
    assert(fins2[k] == fin && pres2[k] == pre && posts2[k] == post && ds2[k] == d);
    assert forall|i: int| 0 <= i < k + 1 implies shift_before(order, ds2, pres2, fins2, i) == Some(#[trigger] ds2[i]) by {
        if i < k {
            assert(ds2[i] == ds[i]);
        }
        if i > 0 {
            assert(pres2[i - 1] == pres[i - 1] && fins2[i - 1] == fins[i - 1] && ds2[i - 1] == ds[i - 1]);
        }
    }
    assert forall|i: int|
        0 <= i < k + 1 implies step_ok(
            state_before(start, fins2, i),
            pres2[i],
            posts2[i],
            #[trigger] fins2[i],
            cursor_at(order, sec, primary, i),
            order[i].1.0,
            ds2[i],
            key,
        ) by {
        if i < k {
            assert(fins2[i] == fins[i] && pres2[i] == pres[i] && posts2[i] == posts[i] && ds2[i] == ds[i]);
            assert(state_before(start, fins2, i) == state_before(start, fins, i));
        } else {
            assert(state_before(start, fins2, i) == state_before(start, fins, k));
        }
    }
}

/// Replays `key` at the primary cursor and every secondary cursor, in
/// document order (`processing_order`): each cursor, shifted by the lines
/// and columns that the earlier replays added or removed, is put in the
/// text area, the key is fed, the undo steps it made are measured, and the
/// cursor is read back into its place (see `replay_outcome`). The text
/// area ends at the new primary cursor. Returns the undo steps over all
/// cursors (stopping at `usize::MAX`). Where a shift would leave the
/// machine's integer range the replay stops there, the cursors not reached
/// keeping their places.
#[verifier::rlimit(50)]
#[verifier::spinoff_prover]
pub fn replay_keystroke<'b, 'a>(ta: &mut TextAreaMut<'b, 'a>, key: crossterm::event::KeyEvent, secondary: &mut Vec<CursorState>) -> (r: usize)
    requires
        old(secondary)@.len() < usize::MAX,
        text_lines(*old(ta)).len() > 0,
    ensures
        exists|order: Seq<(Option<usize>, (usize, usize))>, ds: Seq<Deltas>, pres: Seq<TextAreaMut<'b, 'a>>,
            posts: Seq<TextAreaMut<'b, 'a>>, fins: Seq<TextAreaMut<'b, 'a>>|
            #[trigger] replay_outcome(order, ds, pres, posts, fins, key, old(secondary)@, *old(ta), final(secondary)@, *final(ta), r),
{
    let ghost t0 = *ta;
    let ghost sec0 = secondary@;
    let primary = CursorState { pos: cursor_tuple(ta), anchor: selection_start(ta) };
    let n = secondary.len();
    let order = processing_order(secondary, primary.pos);
    let mut new_secondary: Vec<CursorState> = Vec::new();
    let mut j: usize = 0;
    while j < n
        invariant
            n == secondary@.len(),
            j <= n,
            new_secondary@ == secondary@.take(j as int),
        decreases n - j,
    {
        new_secondary.push(secondary[j]);
        assert(secondary@.take(j + 1) =~= secondary@.take(j as int).push(secondary@[j as int]));
        j = j + 1;
    }
    assert(secondary@.take(n as int) =~= secondary@);
    let mut edits: usize = 0;
    let mut new_primary = primary;
    let mut deltas: Deltas = (0, None, 0);
    let ghost mut ds: Seq<Deltas> = Seq::empty();
    let ghost mut pres: Seq<TextAreaMut<'b, 'a>> = Seq::empty();
    let ghost mut posts: Seq<TextAreaMut<'b, 'a>> = Seq::empty();
    let ghost mut fins: Seq<TextAreaMut<'b, 'a>> = Seq::empty();
    proof {
        reveal(replay_prefix);
    }
    let mut k: usize = 0;
    loop
        invariant_except_break
            shift_before(order@, ds, pres, fins, k as int) == Some(deltas),
        invariant
            sec0 == secondary@,
            n == sec0.len(),
            n < usize::MAX,
            primary == read_back(t0),
            order@.len() == n + 1,
            entries_from(order@, sec0, primary.pos, n as int),
            k <= order@.len(),
            fins.len() == k,
            pres.len() == k,
            posts.len() == k,
            ds.len() == k,
            replay_prefix(order@, sec0, primary, key, t0, ds, pres, posts, fins),
            *ta == state_before(t0, fins, k as int),
            text_lines(*ta).len() > 0,
            new_secondary@.len() == n,
            new_secondary@ == secondary_after(order@, sec0, fins, k as int),
            new_primary == primary_after(order@, primary, fins, k as int),
            edits == steps_total(pres, posts, key, k as int),
        ensures
            replayed(order@, sec0, primary, key, t0, ds, pres, posts, fins),
            fins.len() == k,
            *ta == state_before(t0, fins, k as int),
            text_lines(*ta).len() > 0,
            new_secondary@ == secondary_after(order@, sec0, fins, k as int),
            new_primary == primary_after(order@, primary, fins, k as int),
            edits == steps_total(pres, posts, key, k as int),
        decreases order@.len() - k,
    {
        if k >= order.len() {
            break;
        }
        let (tag, orig_pos) = order[k];
        proof {
            assert(order@[k as int].0 == tag);
        }
        let cursor = match tag {
            Some(i) => secondary[i],
            None => primary,
        };
        assert(cursor == cursor_at(order@, sec0, primary, k as int));
        let adjusted = match try_adjust(cursor, orig_pos.0, deltas.0, deltas.1, deltas.2) {
            Some(c) => c,
            None => {
                assert(adjust_of(cursor, orig_pos.0, deltas) is None);
                break;
            },
        };
        assert(adjust_of(cursor, orig_pos.0, deltas) == Some(adjusted));
        let ghost prev = *ta;
        goto(ta, adjusted);
        let ghost pre = *ta;
        let lines_before = line_count(ta);
        let pre_col = cursor_tuple(ta).1;
        let before = snapshot(ta);
        let changed = feed_key(ta, key);
        let ghost post = *ta;
        let mut depth: usize = 0;
        if changed {
            depth = undo_history_depth(ta, &before);
            edits = edits.saturating_add(depth);
        }
        let ghost fin = *ta;
        let lines_after = line_count(ta);
        let (post_row, post_col) = cursor_tuple(ta);
        let updated = CursorState { pos: (post_row, post_col), anchor: selection_start(ta) };
        match tag {
            Some(i) => {
                new_secondary.set(i, updated);
            },
            None => {
                new_primary = updated;
            },
        }
        proof {
            lemma_step_ok(prev, pre, post, fin, cursor, orig_pos.0, deltas, key, adjusted, changed, depth as nat);
            lemma_prefix_push(order@, sec0, primary, key, t0, ds, pres, posts, fins, deltas, pre, post, fin, k as int);
            ds = ds.push(deltas);
            pres = pres.push(pre);
            posts = posts.push(post);
            fins = fins.push(fin);
        }
        k = k + 1;
        match next_deltas(deltas.0, deltas.2, orig_pos.0, lines_before, lines_after, pre_col, post_col) {
            Some(nd) => {
                deltas = nd;
            },
            None => {
                break;
            },
        }
    }
    goto(ta, new_primary);
    *secondary = new_secondary;
    assert(replay_outcome(order@, ds, pres, posts, fins, key, sec0, t0, secondary@, *ta, edits));
    edits
}

/// The history of one step: the key pushed onto the undo history exactly
/// the states that its measured undo steps pass through, the first of them
/// the text before the key; a key that changed nothing left text and
/// history alone. (This is what `TextArea::input` does, but for its undo
/// and redo shortcuts and a history already at its limit.)
pub open spec fn pushed_states(pre: TextAreaMut, post: TextAreaMut, key: crossterm::event::KeyEvent) -> bool {
    let u = undo_states(pre);
    let v = undo_states(post);
    let d = steps_of(pre, post, key);
    &&& v.len() == u.len() + d
    &&& v.take(u.len() as int) == u
    &&& undone_lines(text_lines(post), v, d) == text_lines(pre)
}

proof fn lemma_undo_prefix<'b, 'a>(
    order: Seq<(Option<usize>, (usize, usize))>,
    sec: Seq<CursorState>,
    primary: CursorState,
    key: crossterm::event::KeyEvent,
    start: TextAreaMut<'b, 'a>,
    ds: Seq<Deltas>,
    pres: Seq<TextAreaMut<'b, 'a>>,
    posts: Seq<TextAreaMut<'b, 'a>>,
    fins: Seq<TextAreaMut<'b, 'a>>,
    m: int,
)
    requires
        replay_prefix(order, sec, primary, key, start, ds, pres, posts, fins),
        0 <= m <= fins.len(),
        forall|k: int| 0 <= k < fins.len() ==> pushed_states(#[trigger] pres[k], posts[k], key),
        steps_total(pres, posts, key, m) < usize::MAX,
    ensures
        undo_states(state_before(start, fins, m)).len() == undo_states(start).len() + steps_total(pres, posts, key, m),
        undo_states(state_before(start, fins, m)).take(undo_states(start).len() as int) == undo_states(start),
        undone_lines(
            text_lines(state_before(start, fins, m)),
            undo_states(state_before(start, fins, m)),
            steps_total(pres, posts, key, m),
        ) == text_lines(start),
    decreases m,
{
    if m > 0 {
        reveal(replay_prefix);
        let k = m - 1;
        let d = steps_of(pres[k], posts[k], key);
        assert(steps_total(pres, posts, key, m) == steps_total(pres, posts, key, k) + d);
        lemma_undo_prefix(order, sec, primary, key, start, ds, pres, posts, fins, k);
        let e = state_before(start, fins, k);
        let pre = pres[k];
        let post = posts[k];
        let fin = fins[k];
        assert(step_ok(e, pre, post, fin, cursor_at(order, sec, primary, k), order[k].1.0, ds[k], key));
        assert(pushed_states(pre, post, key));
        assert(state_before(start, fins, m) == fin);
        assert(same_text(post, fin));
        let s0 = steps_total(pres, posts, key, k);
        let u0 = undo_states(start);
        let ue = undo_states(e);
        let v = undo_states(post);
        assert(v.take(ue.len() as int) == ue);
        assert(v.take(u0.len() as int) =~= ue.take(u0.len() as int));
        if s0 + d > 0 {
            if d == 0 {
                assert(v =~= ue);
            } else if s0 == 0 {
                assert(v[v.len() - (s0 + d)] == v[v.len() - d]);
            } else {
                assert(v[v.len() - (s0 + d)] == ue[ue.len() - s0]);
            }
        }
    }
}

/// Undoing a replayed keystroke: where at every step the key pushed onto
/// the undo history exactly the states its measured undo steps pass
/// through (see `pushed_states`), and the count did not reach the largest
/// `usize`, the history holds at least the count's states, and undoing
/// that many times from where the replay ended brings back the text from
/// before the keystroke.
pub proof fn lemma_replay_undo_restores<'b, 'a>(
    order: Seq<(Option<usize>, (usize, usize))>,
    ds: Seq<Deltas>,
    pres: Seq<TextAreaMut<'b, 'a>>,
    posts: Seq<TextAreaMut<'b, 'a>>,
    fins: Seq<TextAreaMut<'b, 'a>>,
    key: crossterm::event::KeyEvent,
    sec: Seq<CursorState>,
    start: TextAreaMut<'b, 'a>,
    sec_after: Seq<CursorState>,
    end: TextAreaMut<'b, 'a>,
    r: usize,
)
    requires
        replay_outcome(order, ds, pres, posts, fins, key, sec, start, sec_after, end, r),
        forall|k: int| 0 <= k < fins.len() ==> pushed_states(#[trigger] pres[k], posts[k], key),
        r < usize::MAX,
    ensures
        r <= undo_states(end).len(),
        undone_lines(text_lines(end), undo_states(end), r as nat) == text_lines(start),
{
    lemma_undo_prefix(order, sec, read_back(start), key, start, ds, pres, posts, fins, fins.len() as int);
}

} // verus!
