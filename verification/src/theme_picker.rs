//! The theme picker: its list, the themes whose name or family contains
//! the typed query, ignoring case, grouped by family and then ordered by
//! name; and what its keys do.
use vstd::prelude::*;
use crate::navigation::{shift, spec_shift};
use crate::text::{find_chars_from, lex_lt, lex_less, lemma_lex_total, lemma_lex_transitive, lemma_lex_irreflexive, spec_find, spec_to_lowercase, to_lowercase};

verus! {

/// A theme as the picker lists it.
pub struct ThemeInfo {
    pub name: String,
    pub family: String,
}

/// What a theme is ordered by: its family and its name, lowercased.
pub open spec fn theme_key(t: ThemeInfo) -> (Seq<char>, Seq<char>) {
    (spec_to_lowercase(t.family@), spec_to_lowercase(t.name@))
}

/// Whether `q` occurs in `s`.
pub open spec fn occurs_in(s: Seq<char>, q: Seq<char>) -> bool {
    spec_find(s, q) is Some
}

/// Whether the picker lists `t` for the lowercased query `q`: every theme
/// while the query is empty, else those whose lowercased name or family
/// contains it.
pub open spec fn theme_matches(t: ThemeInfo, q: Seq<char>) -> bool {
    q.len() == 0 || occurs_in(spec_to_lowercase(t.name@), q) || occurs_in(spec_to_lowercase(t.family@), q)
}

/// Key order: by family, then by name.
pub open spec fn key_lt(a: (Seq<char>, Seq<char>), b: (Seq<char>, Seq<char>)) -> bool {
    lex_lt(a.0, b.0) || (a.0 == b.0 && lex_lt(a.1, b.1))
}

/// Whether the theme at position `x` is listed before the one at `y`: by
/// key, and in their original order where the keys are equal (the sort is
/// stable).
pub open spec fn listed_before(themes: Seq<ThemeInfo>, x: int, y: int) -> bool {
    key_lt(theme_key(themes[x]), theme_key(themes[y])) || (theme_key(themes[x]) == theme_key(themes[y])
        && x < y)
}

/// `order` lists, by position in `themes`, exactly the themes that match
/// `q`, each once, in picker order.
pub open spec fn is_picker_order(themes: Seq<ThemeInfo>, q: Seq<char>, order: Seq<usize>) -> bool {
    &&& forall|k: int| 0 <= k < order.len() ==> #[trigger] order[k] < themes.len() && theme_matches(themes[order[k] as int], q)
    &&& forall|i: int| 0 <= i < themes.len() && theme_matches(themes[i], q) ==> #[trigger] order.contains(i as usize)
    &&& forall|a: int, b: int| 0 <= a < b < order.len() ==> listed_before(themes, #[trigger] order[a] as int, #[trigger] order[b] as int)
}

proof fn lemma_lex_asym(a: Seq<char>, b: Seq<char>)
    requires
        lex_lt(a, b),
    ensures
        !lex_lt(b, a),
        a != b,
{
    lemma_lex_irreflexive(a, 0);
    if lex_lt(b, a) {
        lemma_lex_transitive(a, b, a, 0);
    }
}

proof fn lemma_lex_either(a: Seq<char>, b: Seq<char>)
    requires
        a != b,
    ensures
        lex_lt(a, b) || lex_lt(b, a),
{
    assert(a.subrange(0, 0) =~= b.subrange(0, 0));
    lemma_lex_total(a, b, 0);
}

proof fn lemma_key_trans(a: (Seq<char>, Seq<char>), b: (Seq<char>, Seq<char>), c: (Seq<char>, Seq<char>))
    requires
        key_lt(a, b),
        key_lt(b, c),
    ensures
        key_lt(a, c),
{
    if lex_lt(a.0, b.0) && lex_lt(b.0, c.0) {
        lemma_lex_transitive(a.0, b.0, c.0, 0);
    } else if a.0 == b.0 && b.0 == c.0 {
        lemma_lex_transitive(a.1, b.1, c.1, 0);
    }
}

/// Picker order is a strict total order on the positions of a list.
pub proof fn lemma_listed_before_order(themes: Seq<ThemeInfo>, x: int, y: int, z: int)
    ensures
        !listed_before(themes, x, x),
        x != y ==> listed_before(themes, x, y) || listed_before(themes, y, x),
        listed_before(themes, x, y) ==> !listed_before(themes, y, x),
        listed_before(themes, x, y) && listed_before(themes, y, z) ==> listed_before(themes, x, z),
{
    let kx = theme_key(themes[x]);
    let ky = theme_key(themes[y]);
    let kz = theme_key(themes[z]);
    if lex_lt(kx.1, kx.1) {
        lemma_lex_asym(kx.1, kx.1);
    }
    if lex_lt(kx.0, kx.0) {
        lemma_lex_asym(kx.0, kx.0);
    }
    if kx != ky {
        if kx.0 != ky.0 {
            lemma_lex_either(kx.0, ky.0);
        } else {
            lemma_lex_either(kx.1, ky.1);
        }
    }
    if lex_lt(kx.0, ky.0) {
        lemma_lex_asym(kx.0, ky.0);
    }
    if lex_lt(ky.0, kx.0) {
        lemma_lex_asym(ky.0, kx.0);
    }
    if lex_lt(kx.1, ky.1) {
        lemma_lex_asym(kx.1, ky.1);
    }
    if lex_lt(ky.1, kx.1) {
        lemma_lex_asym(ky.1, kx.1);
    }
    if key_lt(kx, ky) && key_lt(ky, kz) {
        lemma_key_trans(kx, ky, kz);
    }
}

/// `s` is in strict picker order.
pub open spec fn in_picker_order(themes: Seq<ThemeInfo>, s: Seq<usize>) -> bool {
    forall|a: int, b: int| 0 <= a < b < s.len() ==> listed_before(themes, #[trigger] s[a] as int, #[trigger] s[b] as int)
}

proof fn lemma_skip_first(themes: Seq<ThemeInfo>, s: Seq<usize>, x: usize)
    requires
        in_picker_order(themes, s),
        s.len() > 0,
    ensures
        in_picker_order(themes, s.skip(1)),
        s.skip(1).contains(x) <==> (s.contains(x) && x != s[0]),
        s == seq![s[0]] + s.skip(1),
{
    let t = s.skip(1);
    assert forall|a: int, b: int| 0 <= a < b < t.len() implies listed_before(themes, #[trigger] t[a] as int, #[trigger] t[b] as int) by {
        assert(t[a] == s[a + 1] && t[b] == s[b + 1]);
    }
    if t.contains(x) {
        let k = choose|k: int| 0 <= k < t.len() && t[k] == x;
        assert(s[k + 1] == x);
        assert(listed_before(themes, s[0] as int, s[k + 1] as int));
        lemma_listed_before_order(themes, s[0] as int, s[0] as int, s[0] as int);
    }
    if s.contains(x) && x != s[0] {
        let k = choose|k: int| 0 <= k < s.len() && s[k] == x;
        assert(k > 0);
        assert(t[k - 1] == x);
    }
    assert(s =~= seq![s[0]] + t);
}

proof fn lemma_sorted_unique(themes: Seq<ThemeInfo>, a: Seq<usize>, b: Seq<usize>)
    requires
        in_picker_order(themes, a),
        in_picker_order(themes, b),
        forall|x: usize| a.contains(x) <==> b.contains(x),
    ensures
        a == b,
    decreases a.len(),
{
    if a.len() == 0 {
        if b.len() > 0 {
            assert(b.contains(b[0]));
        }
        assert(a =~= b);
    } else {
        assert(a.contains(a[0]));
        assert(b.len() > 0);
        assert(b.contains(b[0]));
        if a[0] != b[0] {
            let i = choose|i: int| 0 <= i < a.len() && a[i] == b[0];
            let j = choose|j: int| 0 <= j < b.len() && b[j] == a[0];
            assert(i > 0 && j > 0);
            assert(listed_before(themes, a[0] as int, a[i] as int));
            assert(listed_before(themes, b[0] as int, b[j] as int));
            lemma_listed_before_order(themes, a[0] as int, b[0] as int, a[0] as int);
        }
        assert forall|x: usize| a.skip(1).contains(x) <==> b.skip(1).contains(x) by {
            lemma_skip_first(themes, a, x);
            lemma_skip_first(themes, b, x);
        }
        lemma_skip_first(themes, a, a[0]);
        lemma_skip_first(themes, b, b[0]);
        lemma_sorted_unique(themes, a.skip(1), b.skip(1));
    }
}

/// The picker's list is determined: two lists that both hold exactly the
/// matching themes, each once, in picker order, are the same list (so
/// `theme_picker_filtered`'s contract leaves no choice).
pub proof fn lemma_picker_order_unique(themes: Seq<ThemeInfo>, q: Seq<char>, o1: Seq<usize>, o2: Seq<usize>)
    requires
        is_picker_order(themes, q, o1),
        is_picker_order(themes, q, o2),
    ensures
        o1 == o2,
{
    assert forall|x: usize| o1.contains(x) <==> o2.contains(x) by {
        if o1.contains(x) {
            let k = choose|k: int| 0 <= k < o1.len() && o1[k] == x;
            assert(o1[k] < themes.len() && theme_matches(themes[o1[k] as int], q));
            assert(o2.contains((x as int) as usize));
        }
        if o2.contains(x) {
            let k = choose|k: int| 0 <= k < o2.len() && o2[k] == x;
            assert(o2[k] < themes.len() && theme_matches(themes[o2[k] as int], q));
            assert(o1.contains((x as int) as usize));
        }
    }
    lemma_sorted_unique(themes, o1, o2);
}

fn same_chars(a: &[char], b: &[char]) -> (r: bool)
    ensures
        r == (a@ == b@),
{
    if a.len() != b.len() {
        return false;
    }
    let mut i: usize = 0;
    while i < a.len()
        invariant
            a@.len() == b@.len(),
            0 <= i <= a@.len(),
            forall|j: int| 0 <= j < i ==> a@[j] == b@[j],
        decreases a@.len() - i,
    {
        if a[i] != b[i] {
            return false;
        }
        i = i + 1;
    }
    assert(a@ =~= b@);
    true
}

fn occurs(s: &[char], q: &[char]) -> (b: bool)
    ensures
        b == occurs_in(s@, q@),
{
    find_chars_from(s, q, 0).is_some()
}

/// The first place in `order` holding a theme that the theme at `i` goes
/// before (the end if there is none).
fn insert_position(
    families: &Vec<Vec<char>>,
    names: &Vec<Vec<char>>,
    order: &Vec<usize>,
    i: usize,
    Ghost(ts): Ghost<Seq<ThemeInfo>>,
) -> (p: usize)
    requires
        i < ts.len(),
        families@.len() == i + 1,
        names@.len() == i + 1,
        forall|j: int| #![trigger families@[j]] 0 <= j <= i ==> families@[j]@ == theme_key(ts[j]).0 && names@[j]@ == theme_key(ts[j]).1,
        forall|k: int| 0 <= k < order@.len() ==> #[trigger] order@[k] < i,
    ensures
        0 <= p <= order@.len(),
        forall|k: int| 0 <= k < p ==> !listed_before(ts, i as int, #[trigger] order@[k] as int),
        p < order@.len() ==> listed_before(ts, i as int, order@[p as int] as int),
{
    let mut p: usize = 0;
    while p < order.len()
        invariant
            0 <= p <= order@.len(),
            i < ts.len(),
            families@.len() == i + 1,
            names@.len() == i + 1,
            forall|j: int| #![trigger families@[j]] 0 <= j <= i ==> families@[j]@ == theme_key(ts[j]).0 && names@[j]@ == theme_key(ts[j]).1,
            forall|k: int| 0 <= k < order@.len() ==> #[trigger] order@[k] < i,
            forall|k: int| 0 <= k < p ==> !listed_before(ts, i as int, #[trigger] order@[k] as int),
        decreases order@.len() - p,
    {
        let o = order[p];
        assert(order@[p as int] < i);
        let fo = &families[o];
        let no = &names[o];
        let goes_before = lex_less(families[i].as_slice(), fo.as_slice())
            || (same_chars(families[i].as_slice(), fo.as_slice()) && lex_less(names[i].as_slice(), no.as_slice()));
        proof {
            let ki = theme_key(ts[i as int]);
            let ko = theme_key(ts[o as int]);
            assert(families@[o as int]@ == ko.0);
            assert(families@[i as int]@ == ki.0);
            assert(goes_before == key_lt(ki, ko));
        }
        if goes_before {
            return p;
        }
        p = p + 1;
    }
    p
}

/// The positions in `themes` of the themes that the picker lists for
/// `query`: those whose name or family contains the query, ignoring case
/// (all of them for an empty query), ordered by family and then by name,
/// ignoring case, keeping the list's order between equal keys.
pub fn theme_picker_filtered(themes: &[ThemeInfo], query: &str) -> (r: Vec<usize>)
    ensures
        is_picker_order(themes@, spec_to_lowercase(query@), r@),
{
    let q = to_lowercase(query);
    let ghost ts = themes@;
    let mut families: Vec<Vec<char>> = Vec::new();
    let mut names: Vec<Vec<char>> = Vec::new();
    let mut order: Vec<usize> = Vec::new();
    let mut i: usize = 0;
    while i < themes.len()
        invariant
            ts == themes@,
            0 <= i <= ts.len(),
            families@.len() == i,
            names@.len() == i,
            forall|j: int| #![trigger families@[j]] 0 <= j < i ==> families@[j]@ == theme_key(ts[j]).0 && names@[j]@ == theme_key(ts[j]).1,
            forall|k: int| 0 <= k < order@.len() ==> #[trigger] order@[k] < i && theme_matches(ts[order@[k] as int], q@),
            forall|j: int| 0 <= j < i && theme_matches(ts[j], q@) ==> #[trigger] order@.contains(j as usize),
            forall|a: int, b: int| 0 <= a < b < order@.len() ==> listed_before(ts, #[trigger] order@[a] as int, #[trigger] order@[b] as int),
        decreases ts.len() - i,
    {
        let f = to_lowercase(themes[i].family.as_str());
        let n = to_lowercase(themes[i].name.as_str());
        let keep = q.len() == 0 || occurs(n.as_slice(), q.as_slice()) || occurs(f.as_slice(), q.as_slice());
        let ghost old_f = families@;
        let ghost old_n = names@;
        families.push(f);
        names.push(n);
        assert forall|j: int| 0 <= j < i implies families@[j] == old_f[j] && names@[j] == old_n[j] by {}
        assert(families@[i as int]@ == theme_key(ts[i as int]).0);
        assert(names@[i as int]@ == theme_key(ts[i as int]).1);
        if keep {
            let p = insert_position(&families, &names, &order, i, Ghost(ts));
            proof {
                assert forall|k: int| 0 <= k < p implies listed_before(ts, #[trigger] order@[k] as int, i as int) by {
                    lemma_listed_before_order(ts, i as int, order@[k] as int, i as int);
                }
                if p < order@.len() {
                    assert(listed_before(ts, i as int, order@[p as int] as int));
                    assert forall|k: int| p <= k < order@.len() implies listed_before(ts, i as int, #[trigger] order@[k] as int) by {
                        if k > p {
                            lemma_listed_before_order(ts, i as int, order@[p as int] as int, order@[k] as int);
                        }
                    }
                }
            }
            let ghost old_order = order@;
            order.insert(p, i);
            proof {
                assert forall|a: int, b: int| 0 <= a < b < order@.len() implies listed_before(ts, #[trigger] order@[a] as int, #[trigger] order@[b] as int) by {
                    if b < p {
                        assert(order@[a] == old_order[a] && order@[b] == old_order[b]);
                    } else if b == p {
                        assert(order@[a] == old_order[a]);
                    } else if a < p {
                        assert(order@[a] == old_order[a] && order@[b] == old_order[b - 1]);
                    } else if a == p {
                        assert(order@[b] == old_order[b - 1]);
                    } else {
                        assert(order@[a] == old_order[a - 1] && order@[b] == old_order[b - 1]);
                    }
                }
                assert forall|j: int| 0 <= j <= i && theme_matches(ts[j], q@) implies #[trigger] order@.contains(j as usize) by {
                    if j < i {
                        assert(old_order.contains(j as usize));
                        let k = choose|k: int| 0 <= k < old_order.len() && old_order[k] == j as usize;
                        if k < p {
                            assert(order@[k] == j as usize);
                        } else {
                            assert(order@[k + 1] == j as usize);
                        }
                    } else {
                        assert(order@[p as int] == i);
                    }
                }
                assert forall|k: int| 0 <= k < order@.len() implies #[trigger] order@[k] < i + 1 && theme_matches(ts[order@[k] as int], q@) by {
                    if k < p {
                        assert(order@[k] == old_order[k]);
                    } else if k > p {
                        assert(order@[k] == old_order[k - 1]);
                    }
                }
            }
        } else {
            proof {
                assert forall|j: int| 0 <= j <= i && theme_matches(ts[j], q@) implies #[trigger] order@.contains(j as usize) by {
                    if j == i {
                        assert(false);
                    }
                }
            }
        }
        i = i + 1;
    }
    order
}

// ---------------------------------------------------------------------------
// The picker's keys
// ---------------------------------------------------------------------------

/// A key pressed on the theme picker.
#[derive(Debug, Clone, Copy, PartialEq, Eq, Structural)]
pub enum ThemePickerKey {
    Esc,
    Enter,
    Down,
    Up,
    PageDown,
    PageUp,
    Home,
    End,
    Backspace,
    Char(char),
    Other,
}

/// What a key on the theme picker does. Every move previews the theme on
/// the row it lands on.
#[derive(Debug, Clone, Copy, PartialEq, Eq, Structural)]
pub enum ThemePickerCommand {
    /// Clear the query and go back to the first row.
    ClearQuery,
    /// Put the theme that was active back and close the picker.
    Cancel,
    /// Commit the theme on this row and close the picker.
    Choose(usize),
    /// Highlight (and preview) this row.
    Preview(usize),
    /// Drop the query's last character and go back to the first row.
    Backspace,
    /// Add a character to the query and go back to the first row.
    Type(char),
    Nothing,
}

/// The command for `key`, with the query empty or not, row `index`
/// highlighted and `len` themes listed: `Esc` clears a query, or else
/// cancels; `Enter` chooses the highlighted row if there is one; `j`/`k`
/// and the arrows move one row and the page keys ten, wrapping around the
/// list; `Home` and `End` go to the first and the last row; `Backspace`
/// shortens a query; any other character is typed.
pub open spec fn spec_theme_picker_key(key: ThemePickerKey, query_empty: bool, index: int, len: int) -> ThemePickerCommand {
    let moved = |delta: int| if len == 0 {
        ThemePickerCommand::Nothing
    } else {
        ThemePickerCommand::Preview(spec_shift(index, delta, len) as usize)
    };
    match key {
        ThemePickerKey::Esc => if !query_empty {
            ThemePickerCommand::ClearQuery
        } else {
            ThemePickerCommand::Cancel
        },
        ThemePickerKey::Enter => if 0 <= index < len {
            ThemePickerCommand::Choose(index as usize)
        } else {
            ThemePickerCommand::Nothing
        },
        ThemePickerKey::Down | ThemePickerKey::Char('j') => moved(1),
        ThemePickerKey::Up | ThemePickerKey::Char('k') => moved(-1),
        ThemePickerKey::PageDown => moved(10),
        ThemePickerKey::PageUp => moved(-10),
        ThemePickerKey::Home => if len == 0 {
            ThemePickerCommand::Nothing
        } else {
            ThemePickerCommand::Preview(0)
        },
        ThemePickerKey::End => if len == 0 {
            ThemePickerCommand::Nothing
        } else {
            ThemePickerCommand::Preview((len - 1) as usize)
        },
        ThemePickerKey::Backspace => if !query_empty {
            ThemePickerCommand::Backspace
        } else {
            ThemePickerCommand::Nothing
        },
        ThemePickerKey::Char(c) => ThemePickerCommand::Type(c),
        ThemePickerKey::Other => ThemePickerCommand::Nothing,
    }
}

/// The command for a key pressed on the theme picker (row numbers of a
/// list are below `isize::MAX`, which bounds `index` and `len`).
pub fn theme_picker_key(key: ThemePickerKey, query_empty: bool, index: usize, len: usize) -> (r: ThemePickerCommand)
    requires
        index <= isize::MAX - 10,
        len <= isize::MAX,
    ensures
        r == spec_theme_picker_key(key, query_empty, index as int, len as int),
        r matches ThemePickerCommand::Preview(n) ==> n < len,
{
    let delta: isize = match key {
        ThemePickerKey::Down => 1,
        ThemePickerKey::Up => -1,
        ThemePickerKey::PageDown => 10,
        ThemePickerKey::PageUp => -10,
        ThemePickerKey::Char(c) => if c == 'j' {
            1
        } else if c == 'k' {
            -1
        } else {
            0
        },
        _ => 0,
    };
    match key {
        ThemePickerKey::Esc => if !query_empty {
            ThemePickerCommand::ClearQuery
        } else {
            ThemePickerCommand::Cancel
        },
        ThemePickerKey::Enter => if index < len {
            ThemePickerCommand::Choose(index)
        } else {
            ThemePickerCommand::Nothing
        },
        ThemePickerKey::Home => if len == 0 {
            ThemePickerCommand::Nothing
        } else {
            ThemePickerCommand::Preview(0)
        },
        ThemePickerKey::End => if len == 0 {
            ThemePickerCommand::Nothing
        } else {
            ThemePickerCommand::Preview(len - 1)
        },
        ThemePickerKey::Backspace => if !query_empty {
            ThemePickerCommand::Backspace
        } else {
            ThemePickerCommand::Nothing
        },
        ThemePickerKey::Other => ThemePickerCommand::Nothing,
        _ => if delta == 0 {
            match key {
                ThemePickerKey::Char(c) => ThemePickerCommand::Type(c),
                _ => ThemePickerCommand::Nothing,
            }
        } else if len == 0 {
            ThemePickerCommand::Nothing
        } else {
            ThemePickerCommand::Preview(shift(index, delta, len))
        },
    }
}

} // verus!
