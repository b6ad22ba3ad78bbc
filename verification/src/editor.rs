//! The inline editor's pure layout and search logic: word-wrapping a line
//! into visual segments, mapping a cursor column onto them, selecting the
//! word under a click, case-insensitive find with wrap-around, extracting
//! selected text, and keeping the cursor inside the viewport.
use vstd::prelude::*;
use crate::text::{
    chars_of, is_alphanumeric, is_whitespace, push_all, spec_is_alphanumeric, spec_is_whitespace,
    spec_to_lowercase, string_of, sub_chars, to_lowercase,
};
use crate::multicursor::CursorState;

verus! {

// ---------------------------------------------------------------------------
// Word wrap
// ---------------------------------------------------------------------------

/// The largest `k` in `(start, i]` with `chars[k] == ' '`, or `start` when none is.
pub open spec fn last_space(chars: Seq<char>, start: int, i: int) -> int
    decreases i - start,
{
    if i <= start {
        start
    } else if chars[i] == ' ' {
        i
    } else {
        last_space(chars, start, i - 1)
    }
}

/// Where the segment that starts at `start` ends: at the last space within
/// `width` columns past it (the space itself is dropped), or hard-broken at
/// exactly `width` columns when the line has no such space.
pub open spec fn segment_end(chars: Seq<char>, start: int, width: int) -> int {
    let p = last_space(chars, start, start + width);
    if p > start {
        p
    } else {
        start + width
    }
}

/// Where the next segment starts after one that ends at `end`: one past a
/// dropped space, else right at `end`.
pub open spec fn next_start(chars: Seq<char>, end: int) -> int {
    if 0 <= end < chars.len() && chars[end] == ' ' {
        end + 1
    } else {
        end
    }
}

/// The segments of `chars` from `start` on, for a positive `width`.
pub open spec fn wrap_from(chars: Seq<char>, start: int, width: int) -> Seq<(int, int)>
    decreases chars.len() - start,
{
    if width > 0 && 0 <= start && chars.len() - start > width {
        let e = segment_end(chars, start, width);
        proof {
            lemma_segment_end(chars, start, width);
        }
        seq![(start, e)] + wrap_from(chars, next_start(chars, e), width)
    } else {
        seq![(start, chars.len() as int)]
    }
}

/// The visual segments `(start, end)` (end exclusive) of a line wrapped to
/// `width` columns: one empty segment for an empty line, the whole line
/// when `width` is zero.
pub open spec fn spec_wrap_line(chars: Seq<char>, width: int) -> Seq<(int, int)> {
    if chars.len() == 0 {
        seq![(0, 0)]
    } else if width <= 0 {
        seq![(0, chars.len() as int)]
    } else {
        wrap_from(chars, 0, width)
    }
}

/// A well-formed wrap of a line of `len` characters: segments in order,
/// each non-empty-ranged, the first starting at 0 and the last ending at
/// `len`, and a segment either continuing exactly where the previous one
/// ended or one past a single dropped character.
pub open spec fn is_wrap_of(ranges: Seq<(int, int)>, len: int) -> bool {
    &&& ranges.len() > 0
    &&& ranges[0].0 == 0
    &&& ranges[ranges.len() - 1].1 == len
    &&& forall|i: int| 0 <= i < ranges.len() ==> #[trigger] ranges[i].0 <= ranges[i].1
    &&& forall|i: int|
        0 < i < ranges.len() ==> ranges[i - 1].1 <= #[trigger] ranges[i].0 <= ranges[i - 1].1 + 1
}

pub proof fn lemma_last_space(chars: Seq<char>, start: int, i: int)
    ensures
        start <= i ==> start <= last_space(chars, start, i) <= i,
        last_space(chars, start, i) > start ==> chars[last_space(chars, start, i)] == ' ',
        forall|k: int| last_space(chars, start, i) < k <= i && k > start ==> chars[k] != ' ',
    decreases i - start,
{
    if i > start && chars[i] != ' ' {
        lemma_last_space(chars, start, i - 1);
    }
}

pub proof fn lemma_segment_end(chars: Seq<char>, start: int, width: int)
    requires
        width > 0,
        0 <= start,
        chars.len() - start > width,
    ensures
        start < segment_end(chars, start, width) <= start + width,
        start < next_start(chars, segment_end(chars, start, width)),
        next_start(chars, segment_end(chars, start, width)) <= segment_end(chars, start, width) + 1,
        next_start(chars, segment_end(chars, start, width)) <= chars.len(),
{
    lemma_last_space(chars, start, start + width);
}

/// Every wrap is well-formed, and every segment fits within `width`.
pub proof fn lemma_wrap_from(chars: Seq<char>, start: int, width: int)
    requires
        width > 0,
        0 <= start <= chars.len(),
    ensures
        wrap_from(chars, start, width).len() > 0,
        wrap_from(chars, start, width)[0].0 == start,
        wrap_from(chars, start, width).last().1 == chars.len(),
        forall|i: int|
            0 <= i < wrap_from(chars, start, width).len() ==> start <= #[trigger] wrap_from(
                chars,
                start,
                width,
            )[i].0 <= wrap_from(chars, start, width)[i].1 <= wrap_from(chars, start, width)[i].0
                + width,
        forall|i: int|
            0 < i < wrap_from(chars, start, width).len() ==> wrap_from(chars, start, width)[i
                - 1].1 <= #[trigger] wrap_from(chars, start, width)[i].0 <= wrap_from(
                chars,
                start,
                width,
            )[i - 1].1 + 1,
    decreases chars.len() - start,
{
    if chars.len() - start > width {
        let e = segment_end(chars, start, width);
        lemma_segment_end(chars, start, width);
        let n = next_start(chars, e);
        lemma_wrap_from(chars, n, width);
        let rest = wrap_from(chars, n, width);
        let all = wrap_from(chars, start, width);
        assert(all == seq![(start, e)] + rest);
        assert forall|i: int| 0 < i < all.len() implies all[i - 1].1 <= #[trigger] all[i].0
            <= all[i - 1].1 + 1 by {
            assert(all[i] == rest[i - 1]);
            if i > 1 {
                assert(all[i - 1] == rest[i - 2]);
            }
        }
        assert forall|i: int| 0 <= i < all.len() implies start <= #[trigger] all[i].0 <= all[i].1
            <= all[i].0 + width by {
            if i > 0 {
                assert(all[i] == rest[i - 1]);
            }
        }
    }
}

/// The wrap of any line is well-formed and no segment is wider than `width`.
pub proof fn lemma_wrap_line_well_formed(chars: Seq<char>, width: int)
    requires
        width > 0,
    ensures
        is_wrap_of(spec_wrap_line(chars, width), chars.len() as int),
        forall|i: int|
            0 <= i < spec_wrap_line(chars, width).len() ==> #[trigger] spec_wrap_line(chars, width)[i].1
                - spec_wrap_line(chars, width)[i].0 <= width,
{
    if chars.len() > 0 {
        lemma_wrap_from(chars, 0, width);
    }
}

/// Segment `i` of `w` is followed by another that the breaking rule placed.
pub open spec fn wrap_step(chars: Seq<char>, w: Seq<(int, int)>, i: int, width: int) -> bool {
    &&& chars.len() - w[i].0 > width
    &&& w[i].0 >= 0
    &&& w[i].1 == segment_end(chars, w[i].0, width)
    &&& w[i + 1].0 == next_start(chars, w[i].1)
}

proof fn lemma_wrap_from_steps(chars: Seq<char>, start: int, width: int)
    requires
        width > 0,
        0 <= start <= chars.len(),
    ensures
        forall|i: int|
            0 <= i < wrap_from(chars, start, width).len() - 1 ==> #[trigger] wrap_step(
                chars,
                wrap_from(chars, start, width),
                i,
                width,
            ),
    decreases chars.len() - start,
{
    if chars.len() - start > width {
        let e = segment_end(chars, start, width);
        lemma_segment_end(chars, start, width);
        let n = next_start(chars, e);
        lemma_wrap_from_steps(chars, n, width);
        lemma_wrap_from(chars, n, width);
        let rest = wrap_from(chars, n, width);
        let all = wrap_from(chars, start, width);
        assert(all == seq![(start, e)] + rest);
        assert forall|i: int| 0 <= i < all.len() - 1 implies #[trigger] wrap_step(chars, all, i, width) by {
            assert(all[i + 1] == rest[i]);
            if i > 0 {
                assert(all[i] == rest[i - 1]);
                assert(wrap_step(chars, rest, i - 1, width));
            }
        }
    }
}

/// Where segment `i` of the wrap `r` breaks, with `s` and `e` its start and
/// end: at the last space within `width` columns after `s` (that space is
/// dropped, so the next segment starts one past it), or, when there is no
/// space there, exactly `width` columns after `s`, where the next segment
/// begins.
pub open spec fn breaks_at_rule(chars: Seq<char>, r: Seq<(int, int)>, i: int, width: int) -> bool {
    let s = r[i].0;
    let e = r[i].1;
    &&& s < e <= s + width
    &&& e < chars.len()
    &&& if chars[e] == ' ' {
        &&& forall|k: int| e < k <= s + width ==> chars[k] != ' '
        &&& r[i + 1].0 == e + 1
    } else {
        &&& e == s + width
        &&& forall|k: int| s < k <= s + width ==> chars[k] != ' '
        &&& r[i + 1].0 == e
    }
}

/// How a line is broken: every segment but the last ends at the last space
/// within `width` columns of its start, or hard at `width` columns when
/// there is none (see `breaks_at_rule`).
pub proof fn lemma_wrap_break_points(chars: Seq<char>, width: int)
    requires
        width > 0,
    ensures
        forall|i: int|
            0 <= i < spec_wrap_line(chars, width).len() - 1 ==> #[trigger] breaks_at_rule(
                chars,
                spec_wrap_line(chars, width),
                i,
                width,
            ),
{
    if chars.len() > 0 {
        lemma_wrap_from_steps(chars, 0, width);
        let r = spec_wrap_line(chars, width);
        assert forall|i: int| 0 <= i < r.len() - 1 implies #[trigger] breaks_at_rule(chars, r, i, width) by {
            assert(wrap_step(chars, r, i, width));
            let s = r[i].0;
            lemma_last_space(chars, s, s + width);
            lemma_segment_end(chars, s, width);
        }
    }
}

/// Word-wraps `chars` to `width` columns, returning each visual sub-line's
/// `(start, end)` char-index range (end exclusive).
pub fn wrap_line(chars: &[char], width: usize) -> (r: Vec<(usize, usize)>)
    ensures
        r@.len() == spec_wrap_line(chars@, width as int).len(),
        forall|i: int|
            0 <= i < r@.len() ==> (#[trigger] r@[i].0 as int, r@[i].1 as int) == spec_wrap_line(
                chars@,
                width as int,
            )[i],
{
    let len = chars.len();
    let mut ranges: Vec<(usize, usize)> = Vec::new();
    if len == 0 {
        ranges.push((0, 0));
        return ranges;
    }
    if width == 0 {
        ranges.push((0, len));
        return ranges;
    }
    let mut start: usize = 0;
    let ghost w = width as int;
    while len - start > width
        invariant
            len == chars@.len(),
            len > 0,
            width > 0,
            w == width as int,
            0 <= start <= len,
            ranges@.len() + wrap_from(chars@, start as int, w).len() == wrap_from(chars@, 0, w).len(),
            forall|i: int|
                0 <= i < ranges@.len() ==> (#[trigger] ranges@[i].0 as int, ranges@[i].1 as int)
                    == wrap_from(chars@, 0, w)[i],
            forall|i: int|
                0 <= i < wrap_from(chars@, start as int, w).len() ==> #[trigger] wrap_from(
                    chars@,
                    start as int,
                    w,
                )[i] == wrap_from(chars@, 0, w)[ranges@.len() + i],
        decreases len - start,
    {
        let limit = start + width;
        let mut i = limit;
        while i > start && chars[i] != ' '
            invariant
                start < limit < len,
                limit == start + width,
                len == chars@.len(),
                start <= i <= limit,
                last_space(chars@, start as int, limit as int) == last_space(
                    chars@,
                    start as int,
                    i as int,
                ),
            decreases i,
        {
            i = i - 1;
        }
        let end = if i > start { i } else { limit };
        proof {
            lemma_segment_end(chars@, start as int, w);
        }
        let next = if end < len && chars[end] == ' ' { end + 1 } else { end };
        let ghost old_ranges = ranges@;
        let ghost tail = wrap_from(chars@, start as int, w);
        assert(tail == seq![(start as int, end as int)] + wrap_from(chars@, next as int, w));
        ranges.push((start, end));
        assert(tail[0] == (start as int, end as int));
        assert forall|k: int| 0 <= k < wrap_from(chars@, next as int, w).len() implies #[trigger] wrap_from(
            chars@,
            next as int,
            w,
        )[k] == wrap_from(chars@, 0, w)[ranges@.len() + k] by {
            assert(wrap_from(chars@, next as int, w)[k] == tail[k + 1]);
        }
        start = next;
    }
    let ghost tail = wrap_from(chars@, start as int, w);
    assert(tail == seq![(start as int, len as int)]);
    let ghost old_ranges = ranges@;
    ranges.push((start, len));
    assert forall|i: int| 0 <= i < ranges@.len() implies (#[trigger] ranges@[i].0 as int,
        ranges@[i].1 as int) == spec_wrap_line(chars@, width as int)[i] by {
        if i == old_ranges.len() {
            assert(tail[0] == wrap_from(chars@, 0, w)[old_ranges.len() as int]);
        } else {
            assert(ranges@[i] == old_ranges[i]);
        }
    }
    ranges
}

/// The first segment index at or after `i` that a cursor at `col` belongs
/// to: a column inside a segment, or exactly at its end when that end is
/// the line's end or a dropped space follows it.
pub open spec fn locate_from(ranges: Seq<(int, int)>, col: int, i: int) -> (int, int)
    decreases ranges.len() - i,
{
    if 0 <= i < ranges.len() {
        let (s, e) = ranges[i];
        let is_last = i + 1 == ranges.len();
        let next_start = if is_last { e } else { ranges[i + 1].0 };
        if col < e || (col == e && (is_last || next_start > e)) {
            (i, col - s)
        } else {
            locate_from(ranges, col, i + 1)
        }
    } else {
        let last = ranges.len() - 1;
        (last, col - ranges[last].0)
    }
}

/// Maps a char-index `col` within a source line onto `(local visual row,
/// visual col)` given that line's own `wrap_line` output. A `col` exactly
/// on a wrap boundary belongs to the earlier segment only when a space was
/// dropped there; at a hard break it is the first character of the next.
pub fn locate_in_wrap(ranges: &[(usize, usize)], col: usize) -> (r: (usize, usize))
    requires
        ranges@.len() > 0,
        ranges@[0].0 <= col,
        forall|i: int| 0 <= i < ranges@.len() ==> #[trigger] ranges@[i].0 <= ranges@[i].1,
        forall|i: int|
            0 < i < ranges@.len() ==> ranges@[i - 1].1 <= #[trigger] ranges@[i].0 <= ranges@[i
                - 1].1 + 1,
    ensures
        (r.0 as int, r.1 as int) == locate_from(
            ranges@.map_values(|p: (usize, usize)| (p.0 as int, p.1 as int)),
            col as int,
            0,
        ),
        r.0 < ranges@.len(),
        ranges@[r.0 as int].0 + r.1 == col,
{
    let ghost rs = ranges@.map_values(|p: (usize, usize)| (p.0 as int, p.1 as int));
    let n = ranges.len();
    let mut i: usize = 0;
    while i < n
        invariant
            n == ranges@.len(),
            n > 0,
            0 <= i <= n,
            rs == ranges@.map_values(|p: (usize, usize)| (p.0 as int, p.1 as int)),
            locate_from(rs, col as int, i as int) == locate_from(rs, col as int, 0),
            i == 0 ==> ranges@[0].0 <= col,
            i > 0 ==> ranges@[i - 1].1 <= col,
            i > 0 && ranges@[i - 1].1 == col ==> (i < n && ranges@[i as int].0 <= ranges@[i - 1].1),
            forall|k: int| 0 <= k < ranges@.len() ==> #[trigger] ranges@[k].0 <= ranges@[k].1,
            forall|k: int|
                0 < k < ranges@.len() ==> ranges@[k - 1].1 <= #[trigger] ranges@[k].0 <= ranges@[k
                    - 1].1 + 1,
        decreases n - i,
    {
        let (s, e) = ranges[i];
        let is_last = i + 1 == n;
        let next_start = if is_last { e } else { ranges[i + 1].0 };
        let boundary_is_gap = next_start > e;
        if col < e || (col == e && (is_last || boundary_is_gap)) {
            proof {
                if i > 0 {
                    assert(ranges@[i - 1].1 <= ranges@[i as int].0 <= ranges@[i - 1].1 + 1);
                }
            }
            return (i, col - s);
        }
        proof {
            if !is_last {
                assert(ranges@[(i + 1) - 1].1 <= ranges@[i + 1].0);
            }
        }
        i = i + 1;
    }
    let last = n - 1;
    (last, col - ranges[last].0)
}

// ---------------------------------------------------------------------------
// Word under the cursor
// ---------------------------------------------------------------------------

/// How a double-click groups characters: whitespace never joins a word,
/// and a run of word characters (alphanumeric or `_`) is a different word
/// than an adjacent run of punctuation.
#[derive(PartialEq, Eq, Structural, Clone, Copy, Debug)]
pub enum CharKind {
    Space,
    Word,
    Punct,
}

pub open spec fn spec_char_kind(c: char) -> CharKind {
    if spec_is_whitespace(c) {
        CharKind::Space
    } else if spec_is_alphanumeric(c) || c == '_' {
        CharKind::Word
    } else {
        CharKind::Punct
    }
}

pub fn char_kind(c: char) -> (k: CharKind)
    ensures
        k == spec_char_kind(c),
{
    if is_whitespace(c) {
        CharKind::Space
    } else if is_alphanumeric(c) || c == '_' {
        CharKind::Word
    } else {
        CharKind::Punct
    }
}

/// `(start, end)` is the maximal run of characters of one kind around `at`.
pub open spec fn is_word_run(chars: Seq<char>, at: int, start: int, end: int) -> bool {
    let kind = spec_char_kind(chars[at]);
    &&& 0 <= start <= at < end <= chars.len()
    &&& forall|k: int| start <= k < end ==> spec_char_kind(#[trigger] chars[k]) == kind
    &&& start == 0 || spec_char_kind(chars[start - 1]) != kind
    &&& end == chars.len() || spec_char_kind(chars[end]) != kind
}

/// A character that words are made of: not whitespace, and alphanumeric
/// (letters and digits alike, as `char::is_alphanumeric` says) or `_`.
pub open spec fn is_word_char(c: char) -> bool {
    !spec_is_whitespace(c) && (spec_is_alphanumeric(c) || c == '_')
}

/// Selecting the word under the cursor: when the character there is a word
/// character, the range is the whole run of word characters around it, so
/// letters, digits and `_` next to each other (`x1`, `foo_2`) make one word,
/// ended only by whitespace or punctuation or the line's ends.
pub proof fn lemma_word_range_word_chars(chars: Seq<char>, col: int, r: (usize, usize))
    requires
        is_word_range(chars, col, r),
        chars.len() > 0,
    ensures
        ({
            let at = if col < chars.len() { col } else { chars.len() - 1 };
            is_word_char(chars[at]) ==> {
                &&& r.0 <= at < r.1 <= chars.len()
                &&& forall|k: int| r.0 <= k < r.1 ==> is_word_char(#[trigger] chars[k])
                &&& r.0 == 0 || !is_word_char(chars[r.0 - 1])
                &&& r.1 == chars.len() || !is_word_char(chars[r.1 as int])
            }
        }),
{
    assert forall|c: char| (spec_char_kind(c) == CharKind::Word) <==> is_word_char(c) by {}
}

/// `r` is the word at `col` of `chars`: nothing on an empty line; else,
/// at `col` (or at the last character when `col` is past it), that single
/// whitespace character or the maximal run of its kind.
pub open spec fn is_word_range(chars: Seq<char>, col: int, r: (usize, usize)) -> bool {
    &&& chars.len() == 0 ==> r == (0usize, 0usize)
    &&& chars.len() > 0 ==> {
        let at = if col < chars.len() { col } else { chars.len() - 1 };
        if spec_char_kind(chars[at]) == CharKind::Space {
            r == (at as usize, (at + 1) as usize)
        } else {
            is_word_run(chars, at, r.0 as int, r.1 as int)
        }
    }
}

/// The char-range `[start, end)` of the "word" containing `col` within
/// `chars`. A column past the last character uses the last character; a
/// whitespace character is a word of its own.
pub fn word_range(chars: &[char], col: usize) -> (r: (usize, usize))
    ensures
        is_word_range(chars@, col as int, r),
{
    if chars.len() == 0 {
        return (0, 0);
    }
    let at = if col < chars.len() { col } else { chars.len() - 1 };
    let kind = char_kind(chars[at]);
    if kind == CharKind::Space {
        return (at, at + 1);
    }
    let mut start = at;
    while start > 0 && char_kind(chars[start - 1]) == kind
        invariant
            0 <= start <= at < chars@.len(),
            kind == spec_char_kind(chars@[at as int]),
            forall|k: int| start <= k <= at ==> spec_char_kind(#[trigger] chars@[k]) == kind,
        decreases start,
    {
        start = start - 1;
    }
    let mut end = at + 1;
    while end < chars.len() && char_kind(chars[end]) == kind
        invariant
            at < end <= chars@.len(),
            kind == spec_char_kind(chars@[at as int]),
            forall|k: int| at <= k < end ==> spec_char_kind(#[trigger] chars@[k]) == kind,
        decreases chars.len() - end,
    {
        end = end + 1;
    }
    (start, end)
}

// ---------------------------------------------------------------------------
// Find
// ---------------------------------------------------------------------------

/// The non-overlapping occurrences of `q` in `line` from `col` on,
/// scanning left to right and resuming right after each hit.
pub open spec fn matches_in(line: Seq<char>, q: Seq<char>, col: int) -> Seq<(int, int)>
    decreases line.len() - col,
{
    if q.len() > 0 && 0 <= col && col + q.len() <= line.len() {
        if line.subrange(col, col + q.len()) == q {
            seq![(col, col + q.len())] + matches_in(line, q, col + q.len())
        } else {
            matches_in(line, q, col + 1)
        }
    } else {
        Seq::empty()
    }
}

/// Every match of `q` in the lowercased lines from `row` on, as
/// `(row, start, end)` triples in document order.
pub open spec fn matches_from(lines: Seq<String>, q: Seq<char>, row: int) -> Seq<(int, int, int)>
    decreases lines.len() - row,
{
    if 0 <= row < lines.len() {
        matches_in(spec_to_lowercase(lines[row]@), q, 0).map_values(
            |m: (int, int)| (row, m.0, m.1),
        ) + matches_from(lines, q, row + 1)
    } else {
        Seq::empty()
    }
}

/// Every case-insensitive occurrence of `query` across `lines`.
pub open spec fn spec_find_all_matches(lines: Seq<String>, query: Seq<char>) -> Seq<(int, int, int)> {
    if query.len() == 0 {
        Seq::empty()
    } else {
        matches_from(lines, spec_to_lowercase(query), 0)
    }
}

/// `m` comes before `n` and they do not overlap: an earlier row, or the
/// same row ending at or before `n` starts.
pub open spec fn match_before(m: (int, int, int), n: (int, int, int)) -> bool {
    m.0 < n.0 || (m.0 == n.0 && m.2 <= n.1)
}

proof fn lemma_matches_in(line: Seq<char>, q: Seq<char>, col: int)
    requires
        0 <= col,
    ensures
        forall|k: int|
            0 <= k < matches_in(line, q, col).len() ==> {
                let m = #[trigger] matches_in(line, q, col)[k];
                &&& col <= m.0
                &&& m.1 == m.0 + q.len()
                &&& m.1 <= line.len()
                &&& line.subrange(m.0, m.1) == q
            },
        forall|i: int, j: int|
            0 <= i < j < matches_in(line, q, col).len() ==> #[trigger] matches_in(line, q, col)[i].1
                <= #[trigger] matches_in(line, q, col)[j].0,
    decreases line.len() - col,
{
    if q.len() > 0 && col + q.len() <= line.len() {
        if line.subrange(col, col + q.len()) == q {
            lemma_matches_in(line, q, col + q.len());
            let rest = matches_in(line, q, col + q.len());
            let all = matches_in(line, q, col);
            assert(all == seq![(col, col + q.len())] + rest);
            assert forall|k: int| 0 <= k < all.len() implies ({
                let m = #[trigger] all[k];
                &&& col <= m.0
                &&& m.1 == m.0 + q.len()
                &&& m.1 <= line.len()
                &&& line.subrange(m.0, m.1) == q
            }) by {
                if k > 0 {
                    assert(all[k] == rest[k - 1]);
                }
            }
            assert forall|i: int, j: int| 0 <= i < j < all.len() implies #[trigger] all[i].1 <= #[trigger] all[j].0 by {
                assert(all[j] == rest[j - 1]);
                if i > 0 {
                    assert(all[i] == rest[i - 1]);
                }
            }
        } else {
            lemma_matches_in(line, q, col + 1);
            assert(matches_in(line, q, col) == matches_in(line, q, col + 1));
        }
    } else {
        assert(matches_in(line, q, col).len() == 0);
    }
}

proof fn lemma_matches_from(lines: Seq<String>, q: Seq<char>, row: int)
    requires
        0 <= row,
    ensures
        forall|k: int|
            0 <= k < matches_from(lines, q, row).len() ==> {
                let m = #[trigger] matches_from(lines, q, row)[k];
                &&& row <= m.0 < lines.len()
                &&& m.2 == m.1 + q.len()
                &&& 0 <= m.1
                &&& m.2 <= spec_to_lowercase(lines[m.0]@).len()
                &&& spec_to_lowercase(lines[m.0]@).subrange(m.1, m.2) == q
            },
        forall|i: int, j: int|
            0 <= i < j < matches_from(lines, q, row).len() ==> match_before(
                #[trigger] matches_from(lines, q, row)[i],
                #[trigger] matches_from(lines, q, row)[j],
            ),
    decreases lines.len() - row,
{
    if row < lines.len() {
        let line = spec_to_lowercase(lines[row]@);
        let here = matches_in(line, q, 0);
        let tagged = here.map_values(|m: (int, int)| (row, m.0, m.1));
        lemma_matches_in(line, q, 0);
        lemma_matches_from(lines, q, row + 1);
        let rest = matches_from(lines, q, row + 1);
        let all = matches_from(lines, q, row);
        assert(all == tagged + rest);
        assert forall|k: int| 0 <= k < all.len() implies ({
            let m = #[trigger] all[k];
            &&& row <= m.0 < lines.len()
            &&& m.2 == m.1 + q.len()
            &&& 0 <= m.1
            &&& m.2 <= spec_to_lowercase(lines[m.0]@).len()
            &&& spec_to_lowercase(lines[m.0]@).subrange(m.1, m.2) == q
        }) by {
            if k < tagged.len() {
                assert(all[k] == (row, here[k].0, here[k].1));
            } else {
                assert(all[k] == rest[k - tagged.len()]);
            }
        }
        assert forall|i: int, j: int| 0 <= i < j < all.len() implies match_before(
            #[trigger] all[i],
            #[trigger] all[j],
        ) by {
            if j < tagged.len() {
                assert(all[i] == (row, here[i].0, here[i].1));
                assert(all[j] == (row, here[j].0, here[j].1));
            } else if i < tagged.len() {
                assert(all[i] == (row, here[i].0, here[i].1));
                assert(all[j] == rest[j - tagged.len()]);
            } else {
                assert(all[i] == rest[i - tagged.len()]);
                assert(all[j] == rest[j - tagged.len()]);
            }
        }
    }
}

/// Find matches are what the find bar promises: each is an occurrence of
/// the lowercased query in its lowercased line, and they come in document
/// order without overlapping.
pub proof fn lemma_find_matches_ordered_occurrences(lines: Seq<String>, query: Seq<char>)
    ensures
        forall|k: int|
            0 <= k < spec_find_all_matches(lines, query).len() ==> {
                let m = #[trigger] spec_find_all_matches(lines, query)[k];
                &&& 0 <= m.0 < lines.len()
                &&& 0 <= m.1
                &&& m.2 <= spec_to_lowercase(lines[m.0]@).len()
                &&& spec_to_lowercase(lines[m.0]@).subrange(m.1, m.2) == spec_to_lowercase(query)
            },
        forall|i: int, j: int|
            0 <= i < j < spec_find_all_matches(lines, query).len() ==> match_before(
                #[trigger] spec_find_all_matches(lines, query)[i],
                #[trigger] spec_find_all_matches(lines, query)[j],
            ),
{
    if query.len() > 0 {
        lemma_matches_from(lines, spec_to_lowercase(query), 0);
    }
}

fn same_chars(a: &[char], from: usize, b: &[char]) -> (r: bool)
    requires
        from + b@.len() <= a@.len(),
    ensures
        r == (a@.subrange(from as int, from + b@.len()) == b@),
{
    let alen = a.len();
    let mut k: usize = 0;
    while k < b.len()
        invariant
            alen == a@.len(),
            from + b@.len() <= a@.len(),
            0 <= k <= b@.len(),
            forall|j: int| 0 <= j < k ==> a@[from + j] == b@[j],
        decreases b.len() - k,
    {
        assert(from + k < alen);
        if a[from + k] != b[k] {
            assert(a@.subrange(from as int, from + b@.len())[k as int] != b@[k as int]);
            return false;
        }
        k = k + 1;
    }
    assert(a@.subrange(from as int, from + b@.len()) =~= b@);
    true
}

/// Every occurrence of `query` across `lines`, case-insensitive, as
/// `(row, start_col, end_col)` char-index triples in document order —
/// plain literal substring matching, non-overlapping.
pub fn find_all_matches(lines: &[String], query: &str) -> (r: Vec<(usize, usize, usize)>)
    ensures
        r@.len() == spec_find_all_matches(lines@, query@).len(),
        forall|i: int|
            0 <= i < r@.len() ==> (#[trigger] r@[i].0 as int, r@[i].1 as int, r@[i].2 as int)
                == spec_find_all_matches(lines@, query@)[i],
{
    let mut matches: Vec<(usize, usize, usize)> = Vec::new();
    let qn = query.unicode_len();
    if qn == 0 {
        return matches;
    }
    let query_lower = to_lowercase(query);
    let qlen = query_lower.len();
    let ghost q = query_lower@;
    if qlen == 0 {
        assert(matches_from(lines@, q, 0) =~= Seq::<(int, int, int)>::empty()) by {
            lemma_matches_from_empty_query(lines@, q, 0);
        }
        return matches;
    }
    let mut row: usize = 0;
    while row < lines.len()
        invariant
            qlen == q.len() > 0,
            q == query_lower@,
            query@.len() > 0,
            q == spec_to_lowercase(query@),
            0 <= row <= lines@.len(),
            matches@.map_values(|m: (usize, usize, usize)| (m.0 as int, m.1 as int, m.2 as int))
                + matches_from(lines@, q, row as int) == matches_from(lines@, q, 0),
        decreases lines.len() - row,
    {
        let lower = to_lowercase(lines[row].as_str());
        let ghost line_matches = matches_in(lower@, q, 0);
        let ghost before = matches@.map_values(
            |m: (usize, usize, usize)| (m.0 as int, m.1 as int, m.2 as int),
        );
        let mut col: usize = 0;
        while qlen <= lower.len() && col <= lower.len() - qlen
            invariant
                qlen == q.len() > 0,
                q == query_lower@,
                0 <= col,
                matches@.map_values(|m: (usize, usize, usize)| (m.0 as int, m.1 as int, m.2 as int))
                    + matches_in(lower@, q, col as int).map_values(
                    |m: (int, int)| (row as int, m.0, m.1),
                ) == before + line_matches.map_values(|m: (int, int)| (row as int, m.0, m.1)),
            decreases lower.len() - col,
        {
            let ghost cur = matches@.map_values(
                |m: (usize, usize, usize)| (m.0 as int, m.1 as int, m.2 as int),
            );
            if same_chars(&lower, col, &query_lower) {
                let ghost rest = matches_in(lower@, q, col + qlen);
                assert(matches_in(lower@, q, col as int) == seq![(col as int, col + qlen)] + rest);
                matches.push((row, col, col + qlen));
                assert(matches@.map_values(
                    |m: (usize, usize, usize)| (m.0 as int, m.1 as int, m.2 as int),
                ) =~= cur.push((row as int, col as int, col + qlen)));
                assert(seq![(col as int, col + qlen)].add(rest).map_values(
                    |m: (int, int)| (row as int, m.0, m.1),
                ) =~= seq![(row as int, col as int, col + qlen)].add(
                    rest.map_values(|m: (int, int)| (row as int, m.0, m.1)),
                ));
                col = col + qlen;
            } else {
                col = col + 1;
            }
        }
        assert(matches_in(lower@, q, col as int) =~= Seq::<(int, int)>::empty());
        assert(matches@.map_values(|m: (usize, usize, usize)| (m.0 as int, m.1 as int, m.2 as int))
            + matches_from(lines@, q, row + 1) =~= before + matches_from(lines@, q, row as int));
        row = row + 1;
    }
    assert(matches@.map_values(|m: (usize, usize, usize)| (m.0 as int, m.1 as int, m.2 as int))
        =~= matches_from(lines@, q, 0));
    matches
}

proof fn lemma_matches_from_empty_query(lines: Seq<String>, q: Seq<char>, row: int)
    requires
        q.len() == 0,
    ensures
        matches_from(lines, q, row) =~= Seq::<(int, int, int)>::empty(),
    decreases lines.len() - row,
{
    if 0 <= row < lines.len() {
        lemma_matches_from_empty_query(lines, q, row + 1);
        assert(matches_in(spec_to_lowercase(lines[row]@), q, 0) =~= Seq::<(int, int)>::empty());
    }
}


// ---------------------------------------------------------------------------
// Find next / previous
// ---------------------------------------------------------------------------

/// Document order on `(row, col)` positions.
pub open spec fn pos_lt(a: (int, int), b: (int, int)) -> bool {
    a.0 < b.0 || (a.0 == b.0 && a.1 < b.1)
}

pub open spec fn match_key(m: (usize, usize, usize)) -> (int, int) {
    (m.0 as int, m.1 as int)
}

/// Index of the first match at or after `i` that starts strictly after `from`.
pub open spec fn first_after(ms: Seq<(usize, usize, usize)>, from: (int, int), i: int) -> Option<int>
    decreases ms.len() - i,
{
    if 0 <= i < ms.len() {
        if pos_lt(from, match_key(ms[i])) {
            Some(i)
        } else {
            first_after(ms, from, i + 1)
        }
    } else {
        None
    }
}

/// Index of the last match before index `i` that starts strictly before `from`.
pub open spec fn last_before(ms: Seq<(usize, usize, usize)>, from: (int, int), i: int) -> Option<int>
    decreases i,
{
    if 0 < i <= ms.len() {
        if pos_lt(match_key(ms[i - 1]), from) {
            Some(i - 1)
        } else {
            last_before(ms, from, i - 1)
        }
    } else {
        None
    }
}

/// The next (or, if `backward`, previous) match strictly after/before
/// `from` in document order, wrapping around to the first (last) match
/// when there is none; `None` only when there are no matches at all.
pub open spec fn spec_next_match(
    ms: Seq<(usize, usize, usize)>,
    from: (int, int),
    backward: bool,
) -> Option<(usize, usize, usize)> {
    if ms.len() == 0 {
        None
    } else if !backward {
        match first_after(ms, from, 0) {
            Some(i) => Some(ms[i]),
            None => Some(ms[0]),
        }
    } else {
        match last_before(ms, from, ms.len() as int) {
            Some(i) => Some(ms[i]),
            None => Some(ms[ms.len() - 1]),
        }
    }
}

/// Matches in strictly increasing document order.
pub open spec fn ascending_matches(ms: Seq<(usize, usize, usize)>) -> bool {
    forall|a: int, b: int| 0 <= a < b < ms.len() ==> pos_lt(match_key(#[trigger] ms[a]), match_key(#[trigger] ms[b]))
}

proof fn lemma_first_after_skips(ms: Seq<(usize, usize, usize)>, from: (int, int), i: int, t: int)
    requires
        0 <= i <= t < ms.len(),
        pos_lt(from, match_key(ms[t])),
        forall|a: int| i <= a < t ==> !pos_lt(from, match_key(#[trigger] ms[a])),
    ensures
        first_after(ms, from, i) == Some(t),
    decreases t - i,
{
    if i < t {
        lemma_first_after_skips(ms, from, i + 1, t);
    }
}

proof fn lemma_last_before_skips(ms: Seq<(usize, usize, usize)>, from: (int, int), i: int, t: int)
    requires
        0 <= t < i <= ms.len(),
        pos_lt(match_key(ms[t]), from),
        forall|a: int| t < a < i ==> !pos_lt(match_key(#[trigger] ms[a]), from),
    ensures
        last_before(ms, from, i) == Some(t),
    decreases i - t,
{
    if t < i - 1 {
        lemma_last_before_skips(ms, from, i - 1, t);
    }
}

proof fn lemma_first_after_none(ms: Seq<(usize, usize, usize)>, from: (int, int), i: int)
    requires
        0 <= i <= ms.len(),
        forall|a: int| i <= a < ms.len() ==> !pos_lt(from, match_key(#[trigger] ms[a])),
    ensures
        first_after(ms, from, i) is None,
    decreases ms.len() - i,
{
    if i < ms.len() {
        lemma_first_after_none(ms, from, i + 1);
    }
}

proof fn lemma_last_before_none(ms: Seq<(usize, usize, usize)>, from: (int, int), i: int)
    requires
        0 <= i <= ms.len(),
        forall|a: int| 0 <= a < i ==> !pos_lt(match_key(#[trigger] ms[a]), from),
    ensures
        last_before(ms, from, i) is None,
    decreases i,
{
    if i > 0 {
        lemma_last_before_none(ms, from, i - 1);
    }
}

/// Find next and find previous step through ascending matches one at a
/// time: from the start of one match, next goes to the following match and
/// previous to the one before, wrapping from the last to the first and from
/// the first to the last.
pub proof fn lemma_find_steps_through_matches(ms: Seq<(usize, usize, usize)>, i: int)
    requires
        ascending_matches(ms),
        0 <= i < ms.len(),
    ensures
        spec_next_match(ms, match_key(ms[i]), false) == Some(ms[if i + 1 < ms.len() { i + 1 } else { 0 }]),
        spec_next_match(ms, match_key(ms[i]), true) == Some(ms[if i > 0 { i - 1 } else { ms.len() - 1 }]),
{
    let k = match_key(ms[i]);
    if i + 1 < ms.len() {
        assert(pos_lt(k, match_key(ms[i + 1])));
        assert forall|a: int| 0 <= a < i + 1 implies !pos_lt(k, match_key(#[trigger] ms[a])) by {
            if a < i {
                assert(pos_lt(match_key(ms[a]), match_key(ms[i])));
            }
        }
        lemma_first_after_skips(ms, k, 0, i + 1);
    } else {
        assert forall|a: int| 0 <= a < ms.len() implies !pos_lt(k, match_key(#[trigger] ms[a])) by {
            if a < i {
                assert(pos_lt(match_key(ms[a]), match_key(ms[i])));
            }
        }
        lemma_first_after_none(ms, k, 0);
    }
    if i > 0 {
        assert(pos_lt(match_key(ms[i - 1]), k));
        assert forall|a: int| i - 1 < a < ms.len() implies !pos_lt(match_key(#[trigger] ms[a]), k) by {
            if a > i {
                assert(pos_lt(match_key(ms[i]), match_key(ms[a])));
            }
        }
        lemma_last_before_skips(ms, k, ms.len() as int, i - 1);
    } else {
        assert forall|a: int| 0 <= a < ms.len() implies !pos_lt(match_key(#[trigger] ms[a]), k) by {
            if a > i {
                assert(pos_lt(match_key(ms[i]), match_key(ms[a])));
            }
        }
        lemma_last_before_none(ms, k, ms.len() as int);
    }
}

/// The next (or, if `backward`, previous) match strictly after/before
/// `from` in document order, wrapping around the whole buffer when there
/// is none — the "find next wraps to the top" behavior of a find bar.
pub fn next_match(
    matches: &[(usize, usize, usize)],
    from: (usize, usize),
    backward: bool,
) -> (r: Option<(usize, usize, usize)>)
    ensures
        r == spec_next_match(matches@, (from.0 as int, from.1 as int), backward),
{
    let ghost f = (from.0 as int, from.1 as int);
    let n = matches.len();
    if n == 0 {
        return None;
    }
    if backward {
        let mut i = n;
        while i > 0
            invariant
                n == matches@.len(),
                0 <= i <= n,
                f == (from.0 as int, from.1 as int),
                backward,
                last_before(matches@, f, i as int) == last_before(matches@, f, n as int),
            decreases i,
        {
            let (r, s, _) = matches[i - 1];
            if r < from.0 || (r == from.0 && s < from.1) {
                return Some(matches[i - 1]);
            }
            i = i - 1;
        }
        Some(matches[n - 1])
    } else {
        let mut i: usize = 0;
        while i < n
            invariant
                n == matches@.len(),
                0 <= i <= n,
                f == (from.0 as int, from.1 as int),
                !backward,
                first_after(matches@, f, i as int) == first_after(matches@, f, 0),
            decreases n - i,
        {
            let (r, s, _) = matches[i];
            if r > from.0 || (r == from.0 && s > from.1) {
                return Some(matches[i]);
            }
            i = i + 1;
        }
        Some(matches[0])
    }
}

// ---------------------------------------------------------------------------
// Selected text
// ---------------------------------------------------------------------------

pub open spec fn min_int(a: int, b: int) -> int {
    if a < b {
        a
    } else {
        b
    }
}

/// What row `row` contributes to a multi-row selection from `(sr, sc)` to
/// `(er, ec)`: the tail of the first row, the head of the last, whole rows
/// in between, each but the last followed by a newline.
pub open spec fn selected_row_text(line: Seq<char>, row: int, sr: int, sc: int, er: int, ec: int) -> Seq<
    char,
> {
    let n = line.len() as int;
    let part = if row == sr {
        line.subrange(min_int(sc, n), n)
    } else if row == er {
        line.subrange(0, min_int(ec, n))
    } else {
        line
    };
    if row != er {
        part.push('\n')
    } else {
        part
    }
}

pub open spec fn selected_rows(
    lines: Seq<String>,
    row: int,
    last: int,
    sr: int,
    sc: int,
    er: int,
    ec: int,
) -> Seq<char>
    decreases last + 1 - row,
{
    if 0 <= row <= last && row < lines.len() {
        selected_row_text(lines[row]@, row, sr, sc, er, ec) + selected_rows(
            lines,
            row + 1,
            last,
            sr,
            sc,
            er,
            ec,
        )
    } else {
        Seq::empty()
    }
}

/// The literal text between two `(row, col)` positions, columns clamped to
/// each row's length and rows past the end of the buffer ignored.
pub open spec fn spec_selection_text(lines: Seq<String>, start: (int, int), end: (int, int)) -> Seq<char> {
    let (sr, sc) = start;
    let (er, ec) = end;
    if sr >= lines.len() {
        Seq::empty()
    } else if sr == er {
        let line = lines[sr]@;
        let n = line.len() as int;
        line.subrange(min_int(sc, n), min_int(ec, n))
    } else {
        selected_rows(lines, sr, min_int(er, lines.len() - 1), sr, sc, er, ec)
    }
}

/// The lines from `row` on, joined by newlines.
pub open spec fn joined_from(lines: Seq<String>, row: int) -> Seq<char>
    decreases lines.len() - row,
{
    if row < 0 || row >= lines.len() {
        Seq::empty()
    } else if row == lines.len() - 1 {
        lines[row]@
    } else {
        lines[row]@.push('\n') + joined_from(lines, row + 1)
    }
}

proof fn lemma_selected_rows_whole(lines: Seq<String>, row: int)
    requires
        lines.len() >= 2,
        0 <= row < lines.len(),
    ensures
        selected_rows(
            lines,
            row,
            lines.len() - 1,
            0,
            0,
            lines.len() - 1,
            lines[lines.len() - 1]@.len() as int,
        ) == joined_from(lines, row),
    decreases lines.len() - row,
{
    let line = lines[row]@;
    let n = line.len() as int;
    assert(line.subrange(0, n) =~= line);
    if row + 1 < lines.len() {
        lemma_selected_rows_whole(lines, row + 1);
    } else {
        assert(selected_rows(lines, row + 1, lines.len() - 1, 0, 0, lines.len() - 1, n) =~= Seq::<char>::empty());
    }
}

/// Selecting a whole document, from its first position to the end of its
/// last line, gives its lines joined by newlines.
pub proof fn lemma_select_all_is_joined(lines: Seq<String>)
    requires
        lines.len() >= 1,
    ensures
        spec_selection_text(
            lines,
            (0, 0),
            (lines.len() - 1, lines[lines.len() - 1]@.len() as int),
        ) == joined_from(lines, 0),
{
    if lines.len() == 1 {
        let line = lines[0]@;
        assert(line.subrange(0, line.len() as int) =~= line);
    } else {
        lemma_selected_rows_whole(lines, 0);
    }
}

/// The literal text between two logical `(row, col)` positions (`start`
/// at or before `end` in document order) — used to seed the find query
/// from an existing selection and to read out selected text in general.
pub fn selection_text(lines: &[String], start: (usize, usize), end: (usize, usize)) -> (r: String)
    requires
        start.0 == end.0 && start.0 < lines@.len() ==> min_int(
            start.1 as int,
            lines@[start.0 as int]@.len() as int,
        ) <= min_int(end.1 as int, lines@[start.0 as int]@.len() as int),
    ensures
        r@ == spec_selection_text(
            lines@,
            (start.0 as int, start.1 as int),
            (end.0 as int, end.1 as int),
        ),
{
    let (sr, sc) = start;
    let (er, ec) = end;
    if sr >= lines.len() {
        return string_of(&Vec::new());
    }
    if sr == er {
        let chars = chars_of(lines[sr].as_str());
        let a = if sc < chars.len() { sc } else { chars.len() };
        let b = if ec < chars.len() { ec } else { chars.len() };
        let v = sub_chars(&chars, a, b);
        return string_of(&v);
    }
    let last_row = if er < lines.len() - 1 { er } else { lines.len() - 1 };
    let ghost last = min_int(er as int, lines@.len() - 1);
    let mut out: Vec<char> = Vec::new();
    let mut row = sr;
    while row <= last_row
        invariant
            last_row as int == last,
            last_row < lines@.len(),
            sr <= row,
            row <= last_row + 1 || row == sr,
            out@ + selected_rows(lines@, row as int, last, sr as int, sc as int, er as int, ec as int)
                == selected_rows(lines@, sr as int, last, sr as int, sc as int, er as int, ec as int),
        decreases last_row + 1 - row,
    {
        let chars = chars_of(lines[row].as_str());
        let n = chars.len();
        let ghost before = out@;
        if row == sr {
            let a = if sc < n { sc } else { n };
            let part = sub_chars(&chars, a, n);
            push_all(&mut out, &part);
        } else if row == er {
            let b = if ec < n { ec } else { n };
            let part = sub_chars(&chars, 0, b);
            push_all(&mut out, &part);
        } else {
            push_all(&mut out, &chars);
        }
        if row != er {
            out.push('\n');
        }
        assert(out@ =~= before + selected_row_text(
            lines@[row as int]@,
            row as int,
            sr as int,
            sc as int,
            er as int,
            ec as int,
        ));
        row = row + 1;
    }
    assert(selected_rows(lines@, row as int, last, sr as int, sc as int, er as int, ec as int)
        =~= Seq::<char>::empty());
    assert(out@ =~= out@ + Seq::<char>::empty());
    string_of(&out)
}

// ---------------------------------------------------------------------------
// Viewport and selection highlighting
// ---------------------------------------------------------------------------

/// The smallest scroll adjustment keeping `cursor` inside a `height`-row
/// viewport topped at `prev_top`.
pub open spec fn spec_next_scroll_top(prev_top: int, cursor: int, height: int) -> int {
    if height == 0 {
        0
    } else if cursor < prev_top {
        cursor
    } else if prev_top + height <= cursor {
        cursor + 1 - height
    } else {
        prev_top
    }
}

/// Smallest vertical scroll adjustment that keeps `cursor` inside a
/// `height`-row-tall viewport currently topped at `prev_top` — scrolls up
/// the instant the cursor moves above it, or down the instant it moves
/// past the bottom, and otherwise leaves the viewport where it was.
pub fn next_scroll_top(prev_top: u16, cursor: u16, height: u16) -> (r: u16)
    ensures
        r == spec_next_scroll_top(prev_top as int, cursor as int, height as int),
        height > 0 ==> r <= cursor < r + height,
{
    if height == 0 {
        return 0;
    }
    if cursor < prev_top {
        cursor
    } else if cursor - prev_top >= height {
        cursor - height + 1
    } else {
        prev_top
    }
}

/// Whether `(row, col)` falls within `[start, end)`, every row strictly
/// between them included in full.
pub open spec fn spec_pos_in_range(row: int, col: int, start: (int, int), end: (int, int)) -> bool {
    let (sr, sc) = start;
    let (er, ec) = end;
    if row < sr || row > er {
        false
    } else if sr == er {
        col >= sc && col < ec
    } else if row == sr {
        col >= sc
    } else if row == er {
        col < ec
    } else {
        true
    }
}

pub fn pos_in_range(row: usize, col: usize, start: (usize, usize), end: (usize, usize)) -> (b: bool)
    ensures
        b == spec_pos_in_range(
            row as int,
            col as int,
            (start.0 as int, start.1 as int),
            (end.0 as int, end.1 as int),
        ),
{
    let (sr, sc) = start;
    let (er, ec) = end;
    if row < sr || row > er {
        false
    } else if sr == er {
        col >= sc && col < ec
    } else if row == sr {
        col >= sc
    } else if row == er {
        col < ec
    } else {
        true
    }
}

pub open spec fn pos_of(p: (usize, usize)) -> (int, int) {
    (p.0 as int, p.1 as int)
}

/// The earlier of two positions in document order.
pub open spec fn pos_min(a: (usize, usize), b: (usize, usize)) -> (usize, usize) {
    if pos_lt(pos_of(b), pos_of(a)) {
        b
    } else {
        a
    }
}

/// The later of two positions in document order.
pub open spec fn pos_max(a: (usize, usize), b: (usize, usize)) -> (usize, usize) {
    if pos_lt(pos_of(b), pos_of(a)) {
        a
    } else {
        b
    }
}

/// Whether a secondary cursor's own selection covers `(row, col)`.
pub open spec fn cursor_selects(c: CursorState, row: int, col: int) -> bool {
    match c.anchor {
        Some(a) => spec_pos_in_range(row, col, pos_of(pos_min(a, c.pos)), pos_of(pos_max(a, c.pos))),
        None => false,
    }
}

/// What one visual segment of the editor needs to know to highlight the
/// primary selection and every secondary cursor's own selection.
pub struct SegmentCtx<'a> {
    pub row: usize,
    pub cursor_row: usize,
    pub cursor_col: usize,
    pub is_cursor_segment: bool,
    pub selection: Option<((usize, usize), (usize, usize))>,
    pub secondary: &'a [CursorState],
}

impl<'a> SegmentCtx<'a> {
    /// Whether `(self.row, col)` is inside the primary selection or any
    /// secondary cursor's selection.
    pub fn is_selected(&self, col: usize) -> (b: bool)
        ensures
            b == ((match self.selection {
                Some((s, e)) => spec_pos_in_range(self.row as int, col as int, pos_of(s), pos_of(e)),
                None => false,
            }) || exists|i: int|
                0 <= i < self.secondary@.len() && cursor_selects(
                    #[trigger] self.secondary@[i],
                    self.row as int,
                    col as int,
                )),
    {
        if let Some((start, end)) = self.selection {
            if pos_in_range(self.row, col, start, end) {
                return true;
            }
        }
        let mut i: usize = 0;
        while i < self.secondary.len()
            invariant
                0 <= i <= self.secondary@.len(),
                forall|j: int|
                    0 <= j < i ==> !cursor_selects(#[trigger] self.secondary@[j], self.row as int, col as int),
            decreases self.secondary.len() - i,
        {
            let c = self.secondary[i];
            if let Some(anchor) = c.anchor {
                let earlier = anchor.0 > c.pos.0 || (anchor.0 == c.pos.0 && anchor.1 > c.pos.1);
                let lo = if earlier { c.pos } else { anchor };
                let hi = if earlier { anchor } else { c.pos };
                if pos_in_range(self.row, col, lo, hi) {
                    assert(cursor_selects(self.secondary@[i as int], self.row as int, col as int));
                    return true;
                }
            }
            i = i + 1;
        }
        false
    }

    /// Whether `(self.row, col)` is exactly one of the secondary cursors'
    /// own positions.
    pub fn is_secondary_cursor(&self, col: usize) -> (b: bool)
        ensures
            b == exists|i: int|
                0 <= i < self.secondary@.len() && (#[trigger] self.secondary@[i]).pos == (
                    self.row,
                    col,
                ),
    {
        let mut i: usize = 0;
        while i < self.secondary.len()
            invariant
                0 <= i <= self.secondary@.len(),
                forall|j: int| 0 <= j < i ==> (#[trigger] self.secondary@[j]).pos != (self.row, col),
            decreases self.secondary.len() - i,
        {
            let p = self.secondary[i].pos;
            if p.0 == self.row && p.1 == col {
                assert(self.secondary@[i as int].pos == (self.row, col));
                return true;
            }
            i = i + 1;
        }
        false
    }
}

// ---------------------------------------------------------------------------
// Highlighting one visual segment
// ---------------------------------------------------------------------------

/// How a piece of a segment is drawn: plain text (in the cursor line's
/// style when the segment is on the cursor's row), the primary cursor, a
/// secondary cursor, or selected text.
#[derive(Debug, Clone, Copy, PartialEq, Eq, Structural)]
pub enum SegmentStyle {
    Text,
    CursorLine,
    Cursor,
    SecondaryCursor,
    Selected,
}

impl<'a> SegmentCtx<'a> {
    pub open spec fn spec_selected(&self, col: int) -> bool {
        (match self.selection {
            Some((s, e)) => spec_pos_in_range(self.row as int, col, pos_of(s), pos_of(e)),
            None => false,
        }) || exists|i: int| 0 <= i < self.secondary@.len() && cursor_selects(#[trigger] self.secondary@[i], self.row as int, col)
    }

    pub open spec fn spec_secondary_at(&self, col: int) -> bool {
        exists|i: int| 0 <= i < self.secondary@.len() && (#[trigger] self.secondary@[i]).pos.0 == self.row && self.secondary@[i].pos.1 == col
    }

    pub open spec fn primary_at(&self, col: int) -> bool {
        self.is_cursor_segment && self.row == self.cursor_row && col == self.cursor_col
    }

    /// The style of plain text in this segment.
    pub open spec fn line_style(&self) -> SegmentStyle {
        if self.row == self.cursor_row {
            SegmentStyle::CursorLine
        } else {
            SegmentStyle::Text
        }
    }

    /// The style of the cell at `col`, if it is not plain text: the primary
    /// cursor first, then a secondary cursor, then a selection.
    pub open spec fn marked(&self, col: int) -> Option<SegmentStyle> {
        if self.primary_at(col) {
            Some(SegmentStyle::Cursor)
        } else if self.spec_secondary_at(col) {
            Some(SegmentStyle::SecondaryCursor)
        } else if self.spec_selected(col) {
            Some(SegmentStyle::Selected)
        } else {
            None
        }
    }
}

/// Plain text collected so far, as a span if there is any.
pub open spec fn flush(plain: Seq<char>, style: SegmentStyle) -> Seq<(Seq<char>, SegmentStyle)> {
    if plain.len() > 0 {
        seq![(plain, style)]
    } else {
        Seq::empty()
    }
}

/// The spans for the cells `k..end` of a segment, `plain` holding the
/// plain text not yet emitted: runs of plain cells become one span, every
/// marked cell a span of its own.
pub open spec fn segment_spans(chars: Seq<char>, ctx: SegmentCtx, k: int, end: int, plain: Seq<char>) -> Seq<(Seq<char>, SegmentStyle)>
    decreases end - k,
{
    if k >= end {
        flush(plain, ctx.line_style())
    } else {
        match ctx.marked(k) {
            Some(st) => flush(plain, ctx.line_style()) + seq![(seq![chars[k]], st)] + segment_spans(chars, ctx, k + 1, end, Seq::empty()),
            None => segment_spans(chars, ctx, k + 1, end, plain.push(chars[k])),
        }
    }
}

/// The spans of the segment `chars[start..end]` (cut at the line's end),
/// followed by a one-space cursor cell when the primary (or else a
/// secondary) cursor sits at the segment's end.
pub open spec fn spec_segment_line(chars: Seq<char>, range: (usize, usize), ctx: SegmentCtx) -> Seq<(Seq<char>, SegmentStyle)> {
    let stop = if range.1 < chars.len() {
        range.1 as int
    } else {
        chars.len() as int
    };
    segment_spans(chars, ctx, range.0 as int, stop, Seq::empty()) + if ctx.primary_at(range.1 as int) {
        seq![(seq![' '], SegmentStyle::Cursor)]
    } else if ctx.spec_secondary_at(range.1 as int) {
        seq![(seq![' '], SegmentStyle::SecondaryCursor)]
    } else {
        Seq::empty()
    }
}

pub open spec fn styled_view(v: Seq<(String, SegmentStyle)>) -> Seq<(Seq<char>, SegmentStyle)> {
    v.map_values(|e: (String, SegmentStyle)| (e.0@, e.1))
}

fn push_styled(out: &mut Vec<(String, SegmentStyle)>, text: &Vec<char>, style: SegmentStyle)
    ensures
        styled_view(final(out)@) == styled_view(old(out)@) + flush(text@, style),
{
    if text.len() > 0 {
        let ghost before = out@;
        out.push((string_of(text), style));
        assert(styled_view(out@) =~= styled_view(before) + flush(text@, style));
    } else {
        assert(styled_view(out@) =~= styled_view(old(out)@) + flush(text@, style));
    }
}

/// Splits one visual segment of a line into styled spans (see
/// `spec_segment_line`).
pub fn build_segment_line(chars: &[char], range: (usize, usize), ctx: &SegmentCtx) -> (r: Vec<(String, SegmentStyle)>)
    ensures
        styled_view(r@) == spec_segment_line(chars@, range, *ctx),
{
    let (start, end) = range;
    let line_style = if ctx.row == ctx.cursor_row {
        SegmentStyle::CursorLine
    } else {
        SegmentStyle::Text
    };
    let stop = if end < chars.len() {
        end
    } else {
        chars.len()
    };
    let mut out: Vec<(String, SegmentStyle)> = Vec::new();
    let mut plain: Vec<char> = Vec::new();
    let mut col = start;
    let ghost total = segment_spans(chars@, *ctx, start as int, stop as int, Seq::empty());
    assert(styled_view(out@) =~= Seq::<(Seq<char>, SegmentStyle)>::empty());
    while col < stop
        invariant
            stop <= chars@.len(),
            line_style == ctx.line_style(),
            total == segment_spans(chars@, *ctx, start as int, stop as int, Seq::empty()),
            styled_view(out@) + segment_spans(chars@, *ctx, col as int, stop as int, plain@) == total,
        decreases stop - col,
    {
        let ch = chars[col];
        let primary = ctx.is_cursor_segment && ctx.row == ctx.cursor_row && col == ctx.cursor_col;
        let style = if primary {
            Some(SegmentStyle::Cursor)
        } else if ctx.is_secondary_cursor(col) {
            Some(SegmentStyle::SecondaryCursor)
        } else if ctx.is_selected(col) {
            Some(SegmentStyle::Selected)
        } else {
            None
        };
        proof {
            assert(ctx.spec_secondary_at(col as int) == exists|i: int|
                0 <= i < ctx.secondary@.len() && (#[trigger] ctx.secondary@[i]).pos == (ctx.row, col));
        }
        assert(style == ctx.marked(col as int));
        match style {
            Some(st) => {
                let ghost p0 = plain@;
                push_styled(&mut out, &plain, line_style);
                plain = Vec::new();
                let ghost mid = out@;
                let one = vec![ch];
                assert(one@ =~= seq![ch]);
                let text = string_of(&one);
                out.push((text, st));
                assert(out@ == mid.push((text, st)));
                assert(styled_view(out@) =~= styled_view(mid).push((seq![ch], st)));
                assert(segment_spans(chars@, *ctx, col as int, stop as int, p0) == flush(p0, ctx.line_style()) + seq![
                    (seq![chars@[col as int]], st),
                ] + segment_spans(chars@, *ctx, col + 1, stop as int, Seq::empty()));
                assert(plain@ =~= Seq::<char>::empty());
            },
            None => {
                plain.push(ch);
            },
        }
        col = col + 1;
    }
    push_styled(&mut out, &plain, line_style);
    assert(styled_view(out@) == total);
    let at_end_primary = ctx.is_cursor_segment && ctx.row == ctx.cursor_row && ctx.cursor_col == end;
    let ghost body = out@;
    let space = vec![' '];
    assert(space@ =~= seq![' ']);
    if at_end_primary {
        let text = string_of(&space);
        out.push((text, SegmentStyle::Cursor));
        assert(styled_view(out@) =~= styled_view(body).push((seq![' '], SegmentStyle::Cursor)));
    } else if ctx.is_secondary_cursor(end) {
        let text = string_of(&space);
        out.push((text, SegmentStyle::SecondaryCursor));
        assert(styled_view(out@) =~= styled_view(body).push((seq![' '], SegmentStyle::SecondaryCursor)));
    }
    proof {
        assert(ctx.spec_secondary_at(end as int) == exists|i: int|
            0 <= i < ctx.secondary@.len() && (#[trigger] ctx.secondary@[i]).pos == (ctx.row, end));
    }
    assert(styled_view(out@) =~= spec_segment_line(chars@, range, *ctx));
    out
}

} // verus!
