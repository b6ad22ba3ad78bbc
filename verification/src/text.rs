//! Character-sequence helpers shared by the parsers and renderers: every
//! piece of text is handled as a `Vec<char>` whose view is the `Seq<char>`
//! that the contracts speak of.
use vstd::prelude::*;
use crate::keybindings::ascii_lower_seq;

verus! {

broadcast use vstd::string::group_string_axioms;

/// The characters of `s`, in order.
pub fn chars_of(s: &str) -> (v: Vec<char>)
    ensures
        v@ == s@,
{
    let mut v: Vec<char> = Vec::new();
    for c in it: s.chars()
        invariant
            it.seq() == s@,
            v@ == it.seq().take(it.index()),
    {
        v.push(c);
    }
    v
}

/// Wrapper over std's `FromIterator<char> for String`: the string made of
/// exactly the characters of `v`, in order.
#[verifier::external_body]
pub(crate) fn string_of(v: &[char]) -> (s: String)
    ensures
        s@ == v@,
{
    v.iter().collect()
}


/// ASCII letters `a..=z` and `A..=Z` (std's `char::is_ascii_alphabetic`).
pub open spec fn is_ascii_alpha(c: char) -> bool {
    ('a' <= c && c <= 'z') || ('A' <= c && c <= 'Z')
}

/// ASCII digits `0..=9` (std's `char::is_ascii_digit`).
pub open spec fn is_ascii_digit(c: char) -> bool {
    '0' <= c && c <= '9'
}

/// ASCII letters or digits (std's `char::is_ascii_alphanumeric`).
pub open spec fn is_ascii_alnum(c: char) -> bool {
    is_ascii_alpha(c) || is_ascii_digit(c)
}

pub fn ascii_alpha(c: char) -> (b: bool)
    ensures
        b == is_ascii_alpha(c),
{
    ('a' <= c && c <= 'z') || ('A' <= c && c <= 'Z')
}

pub fn ascii_alnum(c: char) -> (b: bool)
    ensures
        b == is_ascii_alnum(c),
{
    ('a' <= c && c <= 'z') || ('A' <= c && c <= 'Z') || ('0' <= c && c <= '9')
}

/// Whether the characters of `a` are exactly those of `lit`.
pub fn eq_str(a: &[char], lit: &str) -> (b: bool)
    ensures
        b == (a@ == lit@),
{
    let n = lit.unicode_len();
    if a.len() != n {
        return false;
    }
    let mut i: usize = 0;
    while i < n
        invariant
            n == lit@.len(),
            a@.len() == n,
            0 <= i <= n,
            forall|k: int| 0 <= k < i ==> a@[k] == lit@[k],
        decreases n - i,
    {
        if a[i] != lit.get_char(i) {
            return false;
        }
        i = i + 1;
    }
    assert(a@ =~= lit@);
    true
}

/// The characters `s[from..to]` as a vector of their own.
pub fn sub_chars(s: &[char], from: usize, to: usize) -> (v: Vec<char>)
    requires
        from <= to <= s@.len(),
    ensures
        v@ == s@.subrange(from as int, to as int),
{
    let mut v: Vec<char> = Vec::new();
    let mut k = from;
    while k < to
        invariant
            from <= k <= to <= s@.len(),
            v@ == s@.subrange(from as int, k as int),
        decreases to - k,
    {
        v.push(s[k]);
        k = k + 1;
        assert(v@ =~= s@.subrange(from as int, k as int));
    }
    v
}

/// Appends every character of `b` to `a`.
pub fn push_all(a: &mut Vec<char>, b: &[char])
    ensures
        final(a)@ == old(a)@ + b@,
{
    let mut k: usize = 0;
    while k < b.len()
        invariant
            0 <= k <= b@.len(),
            a@ == old(a)@ + b@.take(k as int),
        decreases b.len() - k,
    {
        a.push(b[k]);
        k = k + 1;
        assert(a@ =~= old(a)@ + b@.take(k as int));
    }
    assert(b@.take(b@.len() as int) =~= b@);
}

/// Appends every character of the literal `lit` to `a`.
pub fn push_str(a: &mut Vec<char>, lit: &str)
    ensures
        final(a)@ == old(a)@ + lit@,
{
    let n = lit.unicode_len();
    let mut k: usize = 0;
    while k < n
        invariant
            n == lit@.len(),
            0 <= k <= n,
            a@ == old(a)@ + lit@.take(k as int),
        decreases n - k,
    {
        a.push(lit.get_char(k));
        k = k + 1;
        assert(a@ =~= old(a)@ + lit@.take(k as int));
    }
    assert(lit@.take(n as int) =~= lit@);
}


/// std's `char::is_whitespace`: the Unicode `White_Space` property, which
/// holds of exactly these code points: U+0009..=U+000D, U+0020, U+0085,
/// U+00A0, U+1680, U+2000..=U+200A, U+2028, U+2029, U+202F, U+205F and
/// U+3000.
pub open spec fn spec_is_whitespace(c: char) -> bool {
    ('\u{9}' <= c && c <= '\u{d}') || c == ' ' || c == '\u{85}' || c == '\u{a0}'
        || c == '\u{1680}' || ('\u{2000}' <= c && c <= '\u{200a}') || c == '\u{2028}'
        || c == '\u{2029}' || c == '\u{202f}' || c == '\u{205f}' || c == '\u{3000}'
}

/// What std's `char::is_alphanumeric` answers for `c` (Unicode `Alphabetic`
/// or `Numeric`).
pub uninterp spec fn spec_is_alphanumeric(c: char) -> bool;

/// What std's `str::to_lowercase` gives for a string with characters `s`.
pub uninterp spec fn spec_to_lowercase(s: Seq<char>) -> Seq<char>;

/// Whether `c` is whitespace (see `spec_is_whitespace`).
pub fn is_whitespace(c: char) -> (b: bool)
    ensures
        b == spec_is_whitespace(c),
{
    ('\u{9}' <= c && c <= '\u{d}') || c == ' ' || c == '\u{85}' || c == '\u{a0}'
        || c == '\u{1680}' || ('\u{2000}' <= c && c <= '\u{200a}') || c == '\u{2028}'
        || c == '\u{2029}' || c == '\u{202f}' || c == '\u{205f}' || c == '\u{3000}'
}

/// Wrapper over std's `char::is_alphanumeric`; among ASCII characters
/// exactly the letters and digits are alphanumeric.
#[verifier::external_body]
pub(crate) fn is_alphanumeric(c: char) -> (b: bool)
    ensures
        b == spec_is_alphanumeric(c),
        (c as u32) < 128 ==> (b == is_ascii_alnum(c)),
{
    c.is_alphanumeric()
}

/// Wrapper over std's `str::to_lowercase`, handing back the characters of
/// the lowercased string; a string of ASCII characters is lowercased
/// character by character, `A`..=`Z` to `a`..=`z`.
#[verifier::external_body]
pub(crate) fn to_lowercase(s: &str) -> (v: Vec<char>)
    ensures
        v@ == spec_to_lowercase(s@),
        (forall|i: int| 0 <= i < s@.len() ==> (#[trigger] s@[i] as u32) < 128) ==> v@ == ascii_lower_seq(s@),
{
    s.to_lowercase().chars().collect()
}


// ---------------------------------------------------------------------------
// Trimming, prefixes, searching and line splitting over character sequences
// ---------------------------------------------------------------------------

/// First index at or after `i` holding a non-whitespace character (or the end).
pub open spec fn skip_ws(s: Seq<char>, i: int) -> int
    decreases s.len() - i,
{
    if 0 <= i < s.len() && spec_is_whitespace(s[i]) {
        skip_ws(s, i + 1)
    } else {
        i
    }
}

/// First index at or after `i` holding a whitespace character (or the end).
pub open spec fn skip_word(s: Seq<char>, i: int) -> int
    decreases s.len() - i,
{
    if 0 <= i < s.len() && !spec_is_whitespace(s[i]) {
        skip_word(s, i + 1)
    } else {
        i
    }
}

/// One past the last non-whitespace character before `j` (or 0).
pub open spec fn back_ws(s: Seq<char>, j: int) -> int
    decreases j,
{
    if 0 < j <= s.len() && spec_is_whitespace(s[j - 1]) {
        back_ws(s, j - 1)
    } else {
        j
    }
}

/// `s` without leading and trailing whitespace (std's `str::trim`).
pub open spec fn spec_trim(s: Seq<char>) -> Seq<char> {
    let a = skip_ws(s, 0);
    if a >= s.len() {
        Seq::empty()
    } else {
        s.subrange(a, back_ws(s, s.len() as int))
    }
}

/// `s` without trailing whitespace (std's `str::trim_end`).
pub open spec fn spec_trim_end(s: Seq<char>) -> Seq<char> {
    s.subrange(0, back_ws(s, s.len() as int))
}

/// The first whitespace-separated word of `s`, or empty when it has none.
pub open spec fn first_word(s: Seq<char>) -> Seq<char> {
    let a = skip_ws(s, 0);
    s.subrange(a, skip_word(s, a))
}

/// Whether `s` begins with `p`.
pub open spec fn starts_with(s: Seq<char>, p: Seq<char>) -> bool {
    p.len() <= s.len() && s.subrange(0, p.len() as int) == p
}

/// Whether `s` ends with `p`.
pub open spec fn ends_with(s: Seq<char>, p: Seq<char>) -> bool {
    p.len() <= s.len() && s.subrange(s.len() - p.len(), s.len() as int) == p
}

/// Whether `p` occurs in `s` at index `k`.
pub open spec fn occurs_at(s: Seq<char>, p: Seq<char>, k: int) -> bool {
    0 <= k && k + p.len() <= s.len() && s.subrange(k, k + p.len()) == p
}

/// The first index at or after `i` where `p` occurs in `s`.
pub open spec fn find_from(s: Seq<char>, p: Seq<char>, i: int) -> Option<int>
    decreases s.len() + 1 - i,
{
    if i < 0 || i > s.len() || i + p.len() > s.len() {
        None
    } else if occurs_at(s, p, i) {
        Some(i)
    } else {
        find_from(s, p, i + 1)
    }
}

/// The first index where `p` occurs in `s` (std's `str::find`).
pub open spec fn spec_find(s: Seq<char>, p: Seq<char>) -> Option<int> {
    find_from(s, p, 0)
}

/// The line of `s` that starts at `i`: up to the next `'\n'`, with one
/// `'\r'` just before that newline dropped.
pub open spec fn line_at(s: Seq<char>, i: int) -> Seq<char> {
    match find_from(s, seq!['\n'], i) {
        Some(j) => {
            let l = s.subrange(i, j);
            if l.len() > 0 && l.last() == '\r' {
                l.drop_last()
            } else {
                l
            }
        },
        None => s.subrange(i, s.len() as int),
    }
}

/// Where the line after the one starting at `i` starts.
pub open spec fn next_line(s: Seq<char>, i: int) -> int {
    match find_from(s, seq!['\n'], i) {
        Some(j) => j + 1,
        None => s.len() as int + 1,
    }
}

/// The lines of `s` from index `i` on (std's `str::lines`: a final line
/// ending is optional and yields no empty last line).
pub open spec fn lines_from(s: Seq<char>, i: int) -> Seq<Seq<char>>
    decreases s.len() + 1 - i,
{
    if 0 <= i < s.len() {
        proof {
            lemma_find_from(s, seq!['\n'], i);
        }
        seq![line_at(s, i)] + lines_from(s, next_line(s, i))
    } else {
        Seq::empty()
    }
}

pub open spec fn spec_lines(s: Seq<char>) -> Seq<Seq<char>> {
    lines_from(s, 0)
}

pub proof fn lemma_find_from(s: Seq<char>, p: Seq<char>, i: int)
    requires
        0 <= i,
    ensures
        find_from(s, p, i) matches Some(k) ==> i <= k && occurs_at(s, p, k),
        find_from(s, p, i) matches Some(k) ==> forall|j: int| i <= j < k ==> !occurs_at(s, p, j),
        find_from(s, p, i) is None ==> forall|j: int| i <= j ==> !occurs_at(s, p, j),
    decreases s.len() + 1 - i,
{
    if !(i < 0 || i > s.len() || i + p.len() > s.len()) && !occurs_at(s, p, i) {
        lemma_find_from(s, p, i + 1);
    }
}

pub proof fn lemma_skip_ws(s: Seq<char>, i: int)
    requires
        0 <= i <= s.len(),
    ensures
        i <= skip_ws(s, i) <= s.len(),
        i <= skip_word(s, i) <= s.len(),
    decreases s.len() - i,
{
    if i < s.len() {
        lemma_skip_ws(s, i + 1);
    }
}

pub proof fn lemma_back_ws(s: Seq<char>, j: int)
    requires
        0 <= j <= s.len(),
    ensures
        0 <= back_ws(s, j) <= j,
        forall|k: int| i_le(back_ws(s, j), k) && k < j ==> spec_is_whitespace(s[k]),
    decreases j,
{
    if j > 0 && spec_is_whitespace(s[j - 1]) {
        lemma_back_ws(s, j - 1);
    }
}

pub open spec fn i_le(a: int, b: int) -> bool {
    a <= b
}

pub proof fn lemma_skip_ws_end(s: Seq<char>, i: int)
    requires
        0 <= i <= s.len(),
    ensures
        forall|k: int| i <= k < skip_ws(s, i) ==> spec_is_whitespace(s[k]),
        skip_ws(s, i) < s.len() ==> !spec_is_whitespace(s[skip_ws(s, i)]),
    decreases s.len() - i,
{
    if i < s.len() && spec_is_whitespace(s[i]) {
        lemma_skip_ws_end(s, i + 1);
    }
}

pub proof fn lemma_trim_len(s: Seq<char>)
    ensures
        spec_trim(s).len() <= s.len(),
{
    let a = skip_ws(s, 0);
    lemma_skip_ws(s, 0);
    lemma_skip_ws_end(s, 0);
    lemma_back_ws(s, s.len() as int);
    if a < s.len() && back_ws(s, s.len() as int) <= a {
        assert(i_le(back_ws(s, s.len() as int), a));
    }
}

/// The bounds `[a, b)` of `s[from..to]` with surrounding whitespace removed.
pub fn trim_bounds(s: &[char]) -> (r: (usize, usize))
    ensures
        r.0 <= r.1 <= s@.len(),
        s@.subrange(r.0 as int, r.1 as int) == spec_trim(s@),
{
    let n = s.len();
    let mut a: usize = 0;
    while a < n && is_whitespace(s[a])
        invariant
            n == s@.len(),
            0 <= a <= n,
            skip_ws(s@, a as int) == skip_ws(s@, 0),
        decreases n - a,
    {
        a = a + 1;
    }
    if a >= n {
        return (a, a);
    }
    let mut b: usize = n;
    while b > 0 && is_whitespace(s[b - 1])
        invariant
            n == s@.len(),
            0 <= b <= n,
            back_ws(s@, b as int) == back_ws(s@, n as int),
        decreases b,
    {
        b = b - 1;
    }
    proof {
        lemma_skip_ws_end(s@, 0);
        lemma_back_ws(s@, n as int);
        if b <= a {
            assert(i_le(back_ws(s@, n as int), a as int));
            assert(spec_is_whitespace(s@[a as int]));
        }
    }
    (a, b)
}

/// `s` with surrounding whitespace removed, as a vector of its own.
pub fn trim(s: &[char]) -> (r: Vec<char>)
    ensures
        r@ == spec_trim(s@),
{
    let (a, b) = trim_bounds(s);
    sub_chars(s, a, b)
}

/// Whether the characters of `s` begin with those of `lit`.
pub fn starts_with_str(s: &[char], lit: &str) -> (b: bool)
    ensures
        b == starts_with(s@, lit@),
{
    let n = lit.unicode_len();
    if n > s.len() {
        return false;
    }
    let mut k: usize = 0;
    while k < n
        invariant
            n == lit@.len(),
            n <= s@.len(),
            0 <= k <= n,
            forall|j: int| 0 <= j < k ==> s@[j] == lit@[j],
        decreases n - k,
    {
        if s[k] != lit.get_char(k) {
            assert(s@.subrange(0, n as int)[k as int] != lit@[k as int]);
            return false;
        }
        k = k + 1;
    }
    assert(s@.subrange(0, n as int) =~= lit@);
    true
}

/// Whether the characters of `s` end with those of `lit`.
pub fn ends_with_str(s: &[char], lit: &str) -> (b: bool)
    ensures
        b == ends_with(s@, lit@),
{
    let n = lit.unicode_len();
    if n > s.len() {
        return false;
    }
    let sl = s.len();
    let off = sl - n;
    let mut k: usize = 0;
    while k < n
        invariant
            n == lit@.len(),
            sl == s@.len(),
            off + n == sl,
            0 <= k <= n,
            forall|j: int| 0 <= j < k ==> s@[off + j] == lit@[j],
        decreases n - k,
    {
        if s[off + k] != lit.get_char(k) {
            assert(s@.subrange(off as int, s@.len() as int)[k as int] != lit@[k as int]);
            return false;
        }
        k = k + 1;
    }
    assert(s@.subrange(off as int, s@.len() as int) =~= lit@);
    true
}

/// Whether the characters `lit` occur in `s` at index `k`.
pub fn occurs_at_str(s: &[char], lit: &[char], k: usize) -> (b: bool)
    ensures
        b == occurs_at(s@, lit@, k as int),
{
    let n = lit.len();
    let sl = s.len();
    if k > sl || n > sl - k {
        return false;
    }
    let mut j: usize = 0;
    while j < n
        invariant
            n == lit@.len(),
            sl == s@.len(),
            k + n <= sl,
            0 <= j <= n,
            forall|t: int| 0 <= t < j ==> s@[k + t] == lit@[t],
        decreases n - j,
    {
        if s[k + j] != lit[j] {
            assert(s@.subrange(k as int, k + n)[j as int] != lit@[j as int]);
            return false;
        }
        j = j + 1;
    }
    assert(s@.subrange(k as int, k + n) =~= lit@);
    true
}

/// The first index at or after `from` where `lit` occurs in `s`.
pub fn find_chars_from(s: &[char], lit: &[char], from: usize) -> (r: Option<usize>)
    ensures
        r matches Some(k) ==> find_from(s@, lit@, from as int) == Some(k as int),
        r is None ==> find_from(s@, lit@, from as int) is None,
{
    let n = lit.len();
    if n > s.len() || from > s.len() - n {
        return None;
    }
    if n == 0 {
        assert(occurs_at(s@, lit@, from as int)) by {
            assert(s@.subrange(from as int, from as int) =~= lit@);
        }
        return Some(from);
    }
    let mut k = from;
    while k <= s.len() - n
        invariant
            n == lit@.len(),
            0 < n <= s@.len(),
            from <= k,
            k <= s@.len() - n + 1,
            find_from(s@, lit@, k as int) == find_from(s@, lit@, from as int),
        decreases s@.len() - n + 1 - k,
    {
        if occurs_at_str(s, lit, k) {
            return Some(k);
        }
        k = k + 1;
    }
    None
}

/// The first index where the literal `lit` occurs in `s`.
pub fn find_str(s: &[char], lit: &str) -> (r: Option<usize>)
    ensures
        r matches Some(k) ==> spec_find(s@, lit@) == Some(k as int),
        r is None ==> spec_find(s@, lit@) is None,
{
    let l = chars_of(lit);
    find_chars_from(s, &l, 0)
}

/// The lines of `s` (std's `str::lines`).
pub fn lines_of(s: &[char]) -> (r: Vec<Vec<char>>)
    ensures
        r@.len() == spec_lines(s@).len(),
        forall|k: int| 0 <= k < r@.len() ==> (#[trigger] r@[k])@ == spec_lines(s@)[k],
{
    let mut out: Vec<Vec<char>> = Vec::new();
    let mut i: usize = 0;
    let nl = vec!['\n'];
    assert(nl@ =~= seq!['\n']);
    while i < s.len()
        invariant
            nl@ == seq!['\n'],
            0 <= i <= s@.len(),
            out@.len() + lines_from(s@, i as int).len() == lines_from(s@, 0).len(),
            forall|k: int| 0 <= k < out@.len() ==> (#[trigger] out@[k])@ == lines_from(s@, 0)[k],
            forall|k: int|
                0 <= k < lines_from(s@, i as int).len() ==> #[trigger] lines_from(s@, i as int)[k]
                    == lines_from(s@, 0)[out@.len() + k],
        decreases s@.len() - i,
    {
        let ghost rest = lines_from(s@, i as int);
        proof {
            lemma_find_from(s@, seq!['\n'], i as int);
        }
        let found = find_chars_from(s, &nl, i);
        let (line, next) = match found {
            Some(j) => {
                let mut l = sub_chars(s, i, j);
                if l.len() > 0 && l[l.len() - 1] == '\r' {
                    l.pop();
                }
                (l, j + 1)
            },
            None => (sub_chars(s, i, s.len()), s.len()),
        };
        assert(line@ =~= line_at(s@, i as int));
        let ghost after = lines_from(s@, next as int);
        assert(next as int >= s@.len() ==> after =~= Seq::<Seq<char>>::empty());
        assert(rest == seq![line_at(s@, i as int)] + lines_from(s@, next_line(s@, i as int)));
        assert(found is None ==> lines_from(s@, next_line(s@, i as int)) =~= Seq::<
            Seq<char>,
        >::empty());
        let ghost old_out = out@;
        out.push(line);
        assert forall|k: int| 0 <= k < out@.len() implies (#[trigger] out@[k])@ == lines_from(s@, 0)[k] by {
            if k == old_out.len() {
                assert(rest[0] == lines_from(s@, 0)[old_out.len() as int]);
            } else {
                assert(out@[k] == old_out[k]);
            }
        }
        if found.is_none() {
            assert forall|k: int| 0 <= k < lines_from(s@, s@.len() as int).len() implies #[trigger] lines_from(
                s@,
                s@.len() as int,
            )[k] == lines_from(s@, 0)[out@.len() + k] by {}
        } else {
            assert forall|k: int| 0 <= k < lines_from(s@, next as int).len() implies #[trigger] lines_from(
                s@,
                next as int,
            )[k] == lines_from(s@, 0)[out@.len() + k] by {
                assert(lines_from(s@, next as int)[k] == rest[k + 1]);
            }
        }
        i = next;
    }
    out
}


/// `s` without the literal prefix `lit` (std's `str::strip_prefix`), or
/// `None` when `s` does not start with it.
pub fn strip_prefix_str(s: &[char], lit: &str) -> (r: Option<Vec<char>>)
    ensures
        r is Some <==> starts_with(s@, lit@),
        r matches Some(v) ==> v@ == s@.skip(lit@.len() as int),
{
    if starts_with_str(s, lit) {
        let n = lit.unicode_len();
        let v = sub_chars(s, n, s.len());
        assert(v@ =~= s@.skip(lit@.len() as int));
        Some(v)
    } else {
        None
    }
}

/// `s` with every trailing `'\n'` removed (std's `str::trim_end_matches('\n')`).
pub open spec fn strip_nl_end(s: Seq<char>) -> Seq<char>
    decreases s.len(),
{
    if s.len() > 0 && s.last() == '\n' {
        strip_nl_end(s.drop_last())
    } else {
        s
    }
}

/// The length of `strip_nl_end(s)`.
pub fn strip_nl_end_len(s: &[char]) -> (n: usize)
    ensures
        n <= s@.len(),
        s@.subrange(0, n as int) == strip_nl_end(s@),
{
    let mut n = s.len();
    assert(s@.subrange(0, n as int) =~= s@);
    while n > 0 && s[n - 1] == '\n'
        invariant
            n <= s@.len(),
            strip_nl_end(s@.subrange(0, n as int)) == strip_nl_end(s@),
        decreases n,
    {
        assert(s@.subrange(0, n - 1) =~= s@.subrange(0, n as int).drop_last());
        n = n - 1;
    }
    n
}

// ---------------------------------------------------------------------------
// Lexicographic order (std's `Ord` for `str`, which orders by code point)
// ---------------------------------------------------------------------------

/// Whether `a` sorts strictly before `b`, given that they agree before `i`.
pub open spec fn lex_lt_at(a: Seq<char>, b: Seq<char>, i: int) -> bool
    decreases a.len() - i,
{
    if i < 0 || i >= a.len() {
        i < b.len()
    } else if i >= b.len() {
        false
    } else if a[i] != b[i] {
        a[i] < b[i]
    } else {
        lex_lt_at(a, b, i + 1)
    }
}

/// Whether `a` sorts strictly before `b`.
pub open spec fn lex_lt(a: Seq<char>, b: Seq<char>) -> bool {
    lex_lt_at(a, b, 0)
}

pub proof fn lemma_lex_irreflexive(a: Seq<char>, i: int)
    requires
        0 <= i,
    ensures
        !lex_lt_at(a, a, i),
    decreases a.len() - i,
{
    if i < a.len() {
        lemma_lex_irreflexive(a, i + 1);
    }
}

pub proof fn lemma_lex_transitive(a: Seq<char>, b: Seq<char>, c: Seq<char>, i: int)
    requires
        0 <= i,
        lex_lt_at(a, b, i),
        lex_lt_at(b, c, i),
    ensures
        lex_lt_at(a, c, i),
    decreases a.len() - i,
{
    if i < a.len() && i < b.len() && i < c.len() && a[i] == b[i] && b[i] == c[i] {
        lemma_lex_transitive(a, b, c, i + 1);
    }
}

/// Two different sequences that agree before `i` are ordered one way or
/// the other.
pub proof fn lemma_lex_total(a: Seq<char>, b: Seq<char>, i: int)
    requires
        0 <= i <= a.len(),
        i <= b.len(),
        a.subrange(0, i) == b.subrange(0, i),
        a != b,
    ensures
        lex_lt_at(a, b, i) || lex_lt_at(b, a, i),
    decreases a.len() - i,
{
    if i == a.len() && i == b.len() {
        assert(a =~= a.subrange(0, i));
        assert(b =~= b.subrange(0, i));
    } else if i < a.len() && i < b.len() && a[i] == b[i] {
        assert(a.subrange(0, i + 1) =~= a.subrange(0, i).push(a[i]));
        assert(b.subrange(0, i + 1) =~= b.subrange(0, i).push(b[i]));
        lemma_lex_total(a, b, i + 1);
    }
}

/// Whether `a` sorts strictly before `b` (see `lex_lt`).
pub fn lex_less(a: &[char], b: &[char]) -> (r: bool)
    ensures
        r == lex_lt(a@, b@),
{
    let mut i: usize = 0;
    while i < a.len() && i < b.len() && a[i] == b[i]
        invariant
            0 <= i <= a@.len(),
            i <= b@.len(),
            lex_lt_at(a@, b@, i as int) == lex_lt_at(a@, b@, 0),
        decreases a@.len() - i,
    {
        i = i + 1;
    }
    if i == a.len() {
        i < b.len()
    } else if i == b.len() {
        false
    } else {
        a[i] < b[i]
    }
}

// ---------------------------------------------------------------------------
// Decimal numbers
// ---------------------------------------------------------------------------

pub open spec fn digit_char(d: nat) -> char {
    (('0' as u32) + d) as char
}

/// `n` in decimal, without leading zeros (`"0"` for zero), as std's
/// `Display` for unsigned integers writes it.
pub open spec fn spec_decimal(n: nat) -> Seq<char>
    decreases n,
{
    if n < 10 {
        seq![digit_char(n)]
    } else {
        spec_decimal(n / 10) + seq![digit_char(n % 10)]
    }
}

/// `n` zero-padded to at least two digits (the `%m`, `%d`, `%H`, `%M`
/// fields of a date format).
pub open spec fn spec_two_digits(n: nat) -> Seq<char> {
    if n < 10 {
        seq!['0', digit_char(n)]
    } else {
        spec_decimal(n)
    }
}

fn digit(d: usize) -> (c: char)
    requires
        d < 10,
    ensures
        c == digit_char(d as nat),
{
    let b: u8 = 48u8 + (d as u8);
    b as char
}

/// Appends `n` in decimal to `out`.
pub fn push_decimal(out: &mut Vec<char>, n: usize)
    ensures
        final(out)@ == old(out)@ + spec_decimal(n as nat),
    decreases n,
{
    if n < 10 {
        out.push(digit(n));
    } else {
        push_decimal(out, n / 10);
        out.push(digit(n % 10));
        assert(out@ =~= old(out)@ + spec_decimal(n as nat));
    }
}

/// Appends `n` zero-padded to two digits to `out`.
pub fn push_two_digits(out: &mut Vec<char>, n: usize)
    ensures
        final(out)@ == old(out)@ + spec_two_digits(n as nat),
{
    if n < 10 {
        out.push('0');
        out.push(digit(n));
        assert(out@ =~= old(out)@ + spec_two_digits(n as nat));
    } else {
        push_decimal(out, n);
    }
}

} // verus!
