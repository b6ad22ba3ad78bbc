//! What the editor's menus and the prompts read from the text being typed:
//! the `/` command being typed at the start of a line, the `[[` link being
//! typed before the cursor, the `@` quick command in a new-note title, a
//! move target (`notebook/folder/...`), and the small labels and names the
//! screen shows.
use vstd::prelude::*;
use crate::geometry::Rect;
use crate::text::{find_str, lemma_find_from, occurs_at, spec_find, chars_of, push_all, push_decimal, push_str, skip_word, skip_ws, spec_decimal, spec_is_whitespace, string_of, sub_chars, is_whitespace, spec_to_lowercase, to_lowercase, find_chars_from};
use crate::types::QuickCommand;
use crate::which_key::contains_seq;

verus! {

broadcast use vstd::string::group_string_axioms;

// ---------------------------------------------------------------------------
// Queries typed in the editor
// ---------------------------------------------------------------------------

/// The `/` command typed so far: when the line starts with `/` and the
/// cursor is past it, the characters from after the `/` up to the cursor
/// (or the line's end).
pub open spec fn spec_slash_query(line: Seq<char>, col: int) -> Option<Seq<char>> {
    if col == 0 || line.len() == 0 || line[0] != '/' {
        None
    } else {
        Some(line.subrange(1, if col < line.len() { col } else { line.len() as int }))
    }
}

pub fn slash_query(line: &[char], col: usize) -> (r: Option<String>)
    ensures
        match r {
            Some(q) => spec_slash_query(line@, col as int) == Some(q@),
            None => spec_slash_query(line@, col as int) is None,
        },
{
    if col == 0 || line.len() == 0 || line[0] != '/' {
        return None;
    }
    let end = if col < line.len() {
        col
    } else {
        line.len()
    };
    Some(string_of(&sub_chars(line, 1, end)))
}

/// Whether `[[` starts at `i` in `s`.
pub open spec fn opens_link(s: Seq<char>, i: int) -> bool {
    0 <= i && i + 1 < s.len() && s[i] == '[' && s[i + 1] == '['
}

/// The last index before `k` where `[[` starts in `s`.
pub open spec fn last_link_open(s: Seq<char>, k: int) -> Option<int>
    decreases k,
{
    if k <= 0 {
        None
    } else if opens_link(s, k - 1) {
        Some(k - 1)
    } else {
        last_link_open(s, k - 1)
    }
}

/// The `[[` link typed so far: what follows the last `[[` before the
/// cursor, unless it holds a bracket (the link was closed or is something
/// else); nothing without a `[[`.
pub open spec fn spec_wikilink_query(line: Seq<char>, col: int) -> Option<Seq<char>> {
    let upto = line.subrange(0, if col < line.len() { col } else { line.len() as int });
    match last_link_open(upto, upto.len() as int) {
        Some(start) => {
            let q = upto.subrange(start + 2, upto.len() as int);
            if q.contains('[') || q.contains(']') {
                None
            } else {
                Some(q)
            }
        },
        None => None,
    }
}

proof fn lemma_last_link_open(s: Seq<char>, k: int)
    requires
        k <= s.len(),
    ensures
        last_link_open(s, k) matches Some(i) ==> 0 <= i < k && opens_link(s, i),
    decreases k,
{
    if k > 0 && !opens_link(s, k - 1) {
        lemma_last_link_open(s, k - 1);
    }
}

pub fn wikilink_query(line: &[char], col: usize) -> (r: Option<String>)
    ensures
        match r {
            Some(q) => spec_wikilink_query(line@, col as int) == Some(q@),
            None => spec_wikilink_query(line@, col as int) is None,
        },
{
    let end = if col < line.len() {
        col
    } else {
        line.len()
    };
    let upto = sub_chars(line, 0, end);
    let mut k = upto.len();
    while k > 0 && !(k - 1 + 1 < upto.len() && upto[k - 1] == '[' && upto[k] == '[')
        invariant
            0 <= k <= upto@.len(),
            last_link_open(upto@, k as int) == last_link_open(upto@, upto@.len() as int),
        decreases k,
    {
        k = k - 1;
    }
    if k == 0 {
        return None;
    }
    let start = k - 1;
    proof {
        lemma_last_link_open(upto@, upto@.len() as int);
    }
    let q = sub_chars(&upto, start + 2, upto.len());
    let ghost answer = if q@.contains('[') || q@.contains(']') {
        None
    } else {
        Some(q@)
    };
    assert(upto@ == line@.subrange(0, if col < line@.len() { col as int } else { line@.len() as int }));
    assert(spec_wikilink_query(line@, col as int) == answer);
    let mut i: usize = 0;
    while i < q.len()
        invariant
            answer == (if q@.contains('[') || q@.contains(']') {
                None
            } else {
                Some(q@)
            }),
            spec_wikilink_query(line@, col as int) == answer,
            0 <= i <= q@.len(),
            forall|j: int| 0 <= j < i ==> q@[j] != '[' && q@[j] != ']',
        decreases q@.len() - i,
    {
        if q[i] == '[' || q[i] == ']' {
            assert(q@.contains(q@[i as int]));
            assert(q@.contains('[') || q@.contains(']'));
            return None;
        }
        i = i + 1;
    }
    assert(!q@.contains('[') && !q@.contains(']'));
    Some(string_of(&q))
}

/// What follows the last `@` of a new-note title: the quick-command
/// filter (nothing without an `@`).
pub open spec fn spec_after_last_at(s: Seq<char>) -> Option<Seq<char>>
    decreases s.len(),
{
    if s.len() == 0 {
        None
    } else if s.last() == '@' {
        Some(Seq::empty())
    } else {
        match spec_after_last_at(s.drop_last()) {
            Some(q) => Some(q.push(s.last())),
            None => None,
        }
    }
}

pub fn quick_template_query(value: &str) -> (r: Option<String>)
    ensures
        match r {
            Some(q) => spec_after_last_at(value@) == Some(q@),
            None => spec_after_last_at(value@) is None,
        },
{
    let v = chars_of(value);
    let mut k = v.len();
    while k > 0 && v[k - 1] != '@'
        invariant
            0 <= k <= v@.len(),
            forall|j: int| k <= j < v@.len() ==> v@[j] != '@',
        decreases k,
    {
        k = k - 1;
    }
    proof {
        lemma_after_last_at(v@, k as int);
    }
    if k == 0 {
        None
    } else {
        Some(string_of(&sub_chars(&v, k, v.len())))
    }
}

proof fn lemma_after_last_at(s: Seq<char>, k: int)
    requires
        0 <= k <= s.len(),
        forall|j: int| k <= j < s.len() ==> s[j] != '@',
        k > 0 ==> s[k - 1] == '@',
    ensures
        k == 0 ==> spec_after_last_at(s) is None,
        k > 0 ==> spec_after_last_at(s) == Some(s.subrange(k, s.len() as int)),
    decreases s.len(),
{
    if s.len() > 0 {
        if s.len() == k {
            assert(s.subrange(k, s.len() as int) =~= Seq::<char>::empty());
        } else {
            lemma_after_last_at(s.drop_last(), k);
            if k > 0 {
                assert(s.subrange(k, s.len() as int) =~= s.drop_last().subrange(k, s.len() - 1).push(s.last()));
            }
        }
    }
}

// ---------------------------------------------------------------------------
// Labels and names
// ---------------------------------------------------------------------------

/// The first whitespace-separated word of `s`, or all of `s` when it has
/// none.
pub open spec fn first_word_or_all(s: Seq<char>) -> Seq<char> {
    let a = skip_ws(s, 0);
    if a >= s.len() {
        s
    } else {
        s.subrange(a, skip_word(s, a))
    }
}

/// The status bar's editor label: `native` for the built-in editor, else
/// the favorite editor's command name (its first word; the configured
/// editor when no favorite was detected).
pub open spec fn spec_editor_status_label(use_favorite: bool, favorite: Option<Seq<char>>, editor: Seq<char>) -> Seq<char> {
    if use_favorite {
        first_word_or_all(
            match favorite {
                Some(f) => f,
                None => editor,
            },
        )
    } else {
        "native"@
    }
}

pub fn editor_status_label(use_favorite: bool, favorite: Option<&str>, editor: &str) -> (r: String)
    ensures
        r@ == spec_editor_status_label(
            use_favorite,
            match favorite {
                Some(f) => Some(f@),
                None => None,
            },
            editor@,
        ),
{
    if !use_favorite {
        return string_of(&chars_of("native"));
    }
    let e = match favorite {
        Some(f) => chars_of(f),
        None => chars_of(editor),
    };
    let mut a: usize = 0;
    while a < e.len() && is_whitespace(e[a])
        invariant
            0 <= a <= e@.len(),
            skip_ws(e@, a as int) == skip_ws(e@, 0),
        decreases e@.len() - a,
    {
        a = a + 1;
    }
    if a >= e.len() {
        return string_of(&e);
    }
    let mut b = a;
    while b < e.len() && !is_whitespace(e[b])
        invariant
            a <= b <= e@.len(),
            skip_word(e@, b as int) == skip_word(e@, a as int),
        decreases e@.len() - b,
    {
        b = b + 1;
    }
    string_of(&sub_chars(&e, a, b))
}

/// The folder breadcrumb: the path's components joined by ` / `, or
/// nothing at the notebook's root.
pub open spec fn spec_breadcrumb(path: Seq<Seq<char>>) -> Seq<char>
    decreases path.len(),
{
    if path.len() == 0 {
        Seq::empty()
    } else if path.len() == 1 {
        path[0]
    } else {
        spec_breadcrumb(path.drop_last()) + " / "@ + path.last()
    }
}

pub fn notes_breadcrumb(path: &Vec<String>) -> (r: Option<String>)
    ensures
        match r {
            Some(s) => path@.len() > 0 && s@ == spec_breadcrumb(path@.map_values(|c: String| c@)),
            None => path@.len() == 0,
        },
{
    if path.len() == 0 {
        return None;
    }
    let ghost pv = path@.map_values(|c: String| c@);
    let mut v: Vec<char> = Vec::new();
    let mut i: usize = 0;
    while i < path.len()
        invariant
            pv == path@.map_values(|c: String| c@),
            0 <= i <= path@.len(),
            v@ == spec_breadcrumb(pv.take(i as int)),
        decreases path@.len() - i,
    {
        if i > 0 {
            push_str(&mut v, " / ");
        }
        push_all(&mut v, &chars_of(path[i].as_str()));
        proof {
            assert(pv.take(i + 1).drop_last() =~= pv.take(i as int));
            if i == 0 {
                assert(pv.take(0) =~= Seq::<Seq<char>>::empty());
            }
        }
        i = i + 1;
    }
    assert(pv.take(path@.len() as int) =~= pv);
    Some(string_of(&v))
}

/// `parts` joined by `/`.
pub open spec fn slash_joined(parts: Seq<Seq<char>>) -> Seq<char>
    decreases parts.len(),
{
    if parts.len() == 0 {
        Seq::empty()
    } else if parts.len() == 1 {
        parts[0]
    } else {
        slash_joined(parts.drop_last()) + seq!['/'] + parts.last()
    }
}

/// Where NOTES currently is, as an address: the selected notebook's name
/// and the folders entered below it, joined by `/` (empty without a
/// notebook).
pub fn current_address(notebook: Option<&str>, path: &[String]) -> (r: String)
    ensures
        notebook is None ==> r@ == Seq::<char>::empty(),
        notebook matches Some(name) ==> r@ == slash_joined(seq![name@] + path@.map_values(|c: String| c@)),
{
    let name = match notebook {
        None => {
            let v: Vec<char> = Vec::new();
            return string_of(&v);
        },
        Some(name) => name,
    };
    let ghost parts = seq![name@] + path@.map_values(|c: String| c@);
    let mut v = chars_of(name);
    let mut i: usize = 0;
    assert(parts.take(1) =~= seq![name@]);
    while i < path.len()
        invariant
            parts == seq![name@] + path@.map_values(|c: String| c@),
            0 <= i <= path@.len(),
            v@ == slash_joined(parts.take(i + 1)),
        decreases path@.len() - i,
    {
        v.push('/');
        push_all(&mut v, &chars_of(path[i].as_str()));
        assert(parts.take(i + 2).drop_last() =~= parts.take(i + 1));
        assert(parts.take(i + 2).last() == path@[i as int]@);
        i = i + 1;
    }
    assert(parts.take(path@.len() as int + 1) =~= parts);
    string_of(&v)
}

/// The `n`-th name tried for a new notebook when none was typed:
/// `notebook`, then `notebook-2`, `notebook-3`, ….
pub open spec fn spec_default_notebook_name(n: nat) -> Seq<char> {
    if n <= 1 {
        "notebook"@
    } else {
        "notebook-"@ + spec_decimal(n)
    }
}

pub fn default_notebook_name(n: usize) -> (r: String)
    ensures
        r@ == spec_default_notebook_name(n as nat),
{
    if n <= 1 {
        string_of(&chars_of("notebook"))
    } else {
        let mut v = chars_of("notebook-");
        push_decimal(&mut v, n);
        string_of(&v)
    }
}

proof fn lemma_decimal_len(n: nat)
    ensures
        spec_decimal(n).len() >= 1,
        n >= 10 ==> spec_decimal(n).len() >= 2,
    decreases n,
{
    if n >= 10 {
        lemma_decimal_len(n / 10);
    }
}

/// Different numbers are written differently.
proof fn lemma_decimal_injective(a: nat, b: nat)
    requires
        spec_decimal(a) == spec_decimal(b),
    ensures
        a == b,
    decreases a,
{
    lemma_decimal_len(a);
    lemma_decimal_len(b);
    if a < 10 && b < 10 {
        assert(spec_decimal(a) == seq![crate::text::digit_char(a)]);
        assert(spec_decimal(b) == seq![crate::text::digit_char(b)]);
        let x = crate::text::digit_char(a);
        let y = crate::text::digit_char(b);
        assert(seq![x][0] == x);
        assert(seq![y][0] == y);
        assert(x == y);
        assert((('0' as u32) + a) as char == (('0' as u32) + b) as char);
    } else if a >= 10 && b >= 10 {
        let da = spec_decimal(a);
        let db = spec_decimal(b);
        assert(da == spec_decimal(a / 10) + seq![crate::text::digit_char(a % 10)]);
        assert(db == spec_decimal(b / 10) + seq![crate::text::digit_char(b % 10)]);
        assert(da.last() == db.last());
        assert(crate::text::digit_char(a % 10) == crate::text::digit_char(b % 10));
        assert((('0' as u32) + (a % 10)) as char == (('0' as u32) + (b % 10)) as char);
        assert(spec_decimal(a / 10) =~= da.drop_last());
        assert(spec_decimal(b / 10) =~= db.drop_last());
        lemma_decimal_injective(a / 10, b / 10);
    } else {
        assert(spec_decimal(a).len() == spec_decimal(b).len());
    }
}

/// The default names are all different.
proof fn lemma_default_name_injective(a: nat, b: nat)
    requires
        1 <= a,
        1 <= b,
        spec_default_notebook_name(a) == spec_default_notebook_name(b),
    ensures
        a == b,
{
    reveal_strlit("notebook");
    reveal_strlit("notebook-");
    assert("notebook"@.len() == 8);
    assert("notebook-"@.len() == 9);
    if a >= 2 && b >= 2 {
        assert(spec_decimal(a) =~= spec_default_notebook_name(a).skip(9));
        assert(spec_decimal(b) =~= spec_default_notebook_name(b).skip(9));
        lemma_decimal_injective(a, b);
    } else if a >= 2 || b >= 2 {
        lemma_decimal_len(a);
        lemma_decimal_len(b);
        assert(spec_default_notebook_name(a).len() != spec_default_notebook_name(b).len());
    }
}

/// Whether a notebook named `name` is among `existing`.
pub open spec fn name_taken(existing: Seq<String>, name: Seq<char>) -> bool {
    exists|i: int| 0 <= i < existing.len() && (#[trigger] existing[i])@ == name
}

/// Not all of the first `existing.len() + 1` default names can be taken.
proof fn lemma_some_default_name_free(existing: Seq<String>)
    ensures
        exists|n: int| 1 <= n <= existing.len() + 1 && !name_taken(existing, #[trigger] spec_default_notebook_name(n as nat)),
{
    let l = existing.len() as int;
    if forall|n: int| 1 <= n <= l + 1 ==> name_taken(existing, #[trigger] spec_default_notebook_name(n as nat)) {
        let names = |n: int| spec_default_notebook_name(n as nat);
        let xs = vstd::set_lib::set_int_range(1, l + 2);
        vstd::set_lib::lemma_int_range(1, l + 2);
        assert(vstd::relations::injective_on(names, xs)) by {
            assert forall|a: int, b: int| xs.contains(a) && xs.contains(b) && #[trigger] names(a) == #[trigger] names(b) implies a == b by {
                lemma_default_name_injective(a as nat, b as nat);
            }
        }
        let ys = xs.map(names);
        vstd::set_lib::lemma_map_size(xs, ys, names);
        let views = existing.map_values(|e: String| e@);
        let es = views.to_set();
        views.lemma_cardinality_of_set();
        assert(ys.subset_of(es)) by {
            assert forall|y: Seq<char>| ys.contains(y) implies es.contains(y) by {
                let n = choose|n: int| xs.contains(n) && names(n) == y;
                assert(name_taken(existing, spec_default_notebook_name(n as nat)));
                let i = choose|i: int| 0 <= i < existing.len() && (#[trigger] existing[i])@ == spec_default_notebook_name(n as nat);
                assert(views[i] == y);
            }
        }
        vstd::set_lib::lemma_len_subset(ys, es);
        assert(false);
    }
}

/// Whether `n` is the first default name that no notebook of `existing`
/// has.
pub open spec fn first_free_index(existing: Seq<String>, n: int) -> bool {
    &&& 1 <= n
    &&& !name_taken(existing, spec_default_notebook_name(n as nat))
    &&& forall|m: int| 1 <= m < n ==> name_taken(existing, #[trigger] spec_default_notebook_name(m as nat))
}

/// The first of `notebook`, `notebook-2`, `notebook-3`, … that no notebook
/// of `existing` has.
pub open spec fn first_free_default_name(existing: Seq<String>) -> Seq<char> {
    spec_default_notebook_name((choose|n: int| first_free_index(existing, n)) as nat)
}

/// There is exactly one first free name.
pub proof fn lemma_first_free_default_name(existing: Seq<String>, n: int)
    requires
        first_free_index(existing, n),
    ensures
        first_free_default_name(existing) == spec_default_notebook_name(n as nat),
{
    let c = choose|k: int| first_free_index(existing, k);
    assert(first_free_index(existing, c));
    if c < n {
        assert(name_taken(existing, spec_default_notebook_name(c as nat)));
    } else if n < c {
        assert(name_taken(existing, spec_default_notebook_name(n as nat)));
    }
}

/// The name for a new notebook when none was typed: the first of
/// `notebook`, `notebook-2`, `notebook-3`, … that no existing notebook has.
pub fn unique_default_notebook_name(existing: &[String]) -> (r: String)
    requires
        existing@.len() < usize::MAX,
    ensures
        r@ == first_free_default_name(existing@),
        exists|n: int|
            1 <= n && r@ == #[trigger] spec_default_notebook_name(n as nat) && !name_taken(existing@, r@)
                && forall|m: int| 1 <= m < n ==> name_taken(existing@, #[trigger] spec_default_notebook_name(m as nat)),
{
    proof {
        lemma_some_default_name_free(existing@);
    }
    let mut n: usize = 1;
    loop
        invariant
            1 <= n <= existing@.len() + 1,
            existing@.len() < usize::MAX,
            forall|m: int| 1 <= m < n ==> name_taken(existing@, #[trigger] spec_default_notebook_name(m as nat)),
            exists|k: int| n <= k <= existing@.len() + 1 && !name_taken(existing@, #[trigger] spec_default_notebook_name(k as nat)),
        decreases existing@.len() + 1 - n,
    {
        let candidate = default_notebook_name(n);
        let mut taken = false;
        let mut i: usize = 0;
        while i < existing.len()
            invariant
                i <= existing@.len(),
                candidate@ == spec_default_notebook_name(n as nat),
                taken ==> name_taken(existing@, candidate@),
                !taken ==> forall|j: int| 0 <= j < i ==> (#[trigger] existing@[j])@ != candidate@,
            decreases existing@.len() - i,
        {
            if !taken && crate::text::eq_str(&chars_of(existing[i].as_str()), candidate.as_str()) {
                taken = true;
            }
            i = i + 1;
        }
        if !taken {
            assert(!name_taken(existing@, candidate@));
            let ghost k = n as int;
            assert(candidate@ == spec_default_notebook_name(k as nat));
            assert(forall|m: int| 1 <= m < k ==> name_taken(existing@, #[trigger] spec_default_notebook_name(m as nat)));
            assert(first_free_index(existing@, k));
            proof {
                lemma_first_free_default_name(existing@, k);
            }
            return candidate;
        }
        n = n + 1;
    }
}

/// The non-empty `/`-separated parts of `s` from `i` on.
pub open spec fn parts_from(s: Seq<char>, i: int) -> Seq<Seq<char>>
    decreases s.len() - i,
{
    if i >= s.len() || i < 0 {
        Seq::empty()
    } else {
        proof {
            lemma_part_end(s, i);
        }
        let e = part_end(s, i);
        let rest = if e < s.len() {
            parts_from(s, e + 1)
        } else {
            Seq::empty()
        };
        if e > i {
            seq![s.subrange(i, e)] + rest
        } else {
            rest
        }
    }
}

/// Where the part starting at `i` ends: the next `/` or the end.
pub open spec fn part_end(s: Seq<char>, i: int) -> int
    decreases s.len() - i,
{
    if i >= s.len() || i < 0 {
        s.len() as int
    } else if s[i] == '/' {
        i
    } else {
        part_end(s, i + 1)
    }
}

pub proof fn lemma_part_end(s: Seq<char>, i: int)
    requires
        0 <= i <= s.len(),
    ensures
        i <= part_end(s, i) <= s.len(),
        part_end(s, i) < s.len() ==> s[part_end(s, i)] == '/',
        forall|j: int| i <= j < part_end(s, i) ==> s[j] != '/',
    decreases s.len() - i,
{
    if i < s.len() && s[i] != '/' {
        lemma_part_end(s, i + 1);
    }
}

/// A move target `notebook/folder/...`: the notebook's name and the folder
/// path inside it, empty parts (doubled or edge slashes) ignored; nothing
/// for a target without any part.
pub fn split_move_target(value: &str) -> (r: Option<(String, Vec<String>)>)
    ensures
        ({
            let ps = parts_from(value@, 0);
            match r {
                Some((nb, rest)) => ps.len() > 0 && nb@ == ps[0] && rest@.map_values(|c: String| c@) == ps.drop_first(),
                None => ps.len() == 0,
            }
        }),
{
    let v = chars_of(value);
    let ghost ps = parts_from(v@, 0);
    let mut parts: Vec<String> = Vec::new();
    let mut i: usize = 0;
    while i < v.len()
        invariant
            ps == parts_from(v@, 0),
            0 <= i <= v@.len(),
            parts@.map_values(|c: String| c@) + parts_from(v@, i as int) == ps,
        decreases v@.len() - i,
    {
        proof {
            lemma_part_end(v@, i as int);
        }
        let mut e = i;
        while e < v.len() && v[e] != '/'
            invariant
                i <= e <= v@.len(),
                part_end(v@, e as int) == part_end(v@, i as int),
            decreases v@.len() - e,
        {
            e = e + 1;
        }
        let ghost before = parts@.map_values(|c: String| c@);
        if e > i {
            parts.push(string_of(&sub_chars(&v, i, e)));
            assert(parts@.map_values(|c: String| c@) =~= before.push(v@.subrange(i as int, e as int)));
        }
        assert(parts_from(v@, i as int) == (if e > i {
            seq![v@.subrange(i as int, e as int)]
        } else {
            Seq::empty()
        }) + parts_from(v@, e + 1));
        if e < v.len() {
            i = e + 1;
        } else {
            assert(parts_from(v@, e + 1) =~= Seq::<Seq<char>>::empty());
            i = e;
            assert(parts_from(v@, i as int) =~= Seq::<Seq<char>>::empty());
        }
    }
    if parts.len() == 0 {
        return None;
    }
    let nb = parts.remove(0);
    assert(parts@.map_values(|c: String| c@) =~= ps.drop_first());
    Some((nb, parts))
}

// ---------------------------------------------------------------------------
// Clicks on the global search popup
// ---------------------------------------------------------------------------

/// Which result a click at `(col, row)` lands on, `list` being the results
/// list's rect (a bordered box, one result per inner row).
pub open spec fn spec_search_hit(list: Rect, results: usize, col: u16, row: u16) -> Option<usize> {
    let left = list.x + 1;
    let right = list.x + if list.width > 0 { list.width - 1 } else { 0 };
    let top = list.y + 1;
    let bottom = list.y + if list.height > 0 { list.height - 1 } else { 0 };
    if col < left || col >= right || row < top || row >= bottom {
        None
    } else if row - top < results {
        Some((row - top) as usize)
    } else {
        None
    }
}

pub fn global_search_hit_at(list: Rect, results: usize, col: u16, row: u16) -> (r: Option<usize>)
    requires
        list.x < u16::MAX,
        list.y < u16::MAX,
        list.x + list.width <= u16::MAX,
        list.y + list.height <= u16::MAX,
    ensures
        r == spec_search_hit(list, results, col, row),
{
    let inner_left = list.x + 1;
    let inner_right = list.x + list.width.saturating_sub(1);
    let inner_top = list.y + 1;
    let inner_bottom = list.y + list.height.saturating_sub(1);
    if col < inner_left || col >= inner_right || row < inner_top || row >= inner_bottom {
        return None;
    }
    let index = (row - inner_top) as usize;
    if index < results {
        Some(index)
    } else {
        None
    }
}

// ---------------------------------------------------------------------------
// Completing what was typed
// ---------------------------------------------------------------------------

/// Where the `[[` before the cursor at `col` starts: the last `[[` in the
/// line up to the cursor; completing a link replaces from there to the
/// cursor.
pub fn wikilink_start(line: &[char], col: usize) -> (r: Option<usize>)
    ensures
        ({
            let upto = line@.subrange(0, if col < line@.len() { col as int } else { line@.len() as int });
            match r {
                Some(i) => last_link_open(upto, upto.len() as int) == Some(i as int),
                None => last_link_open(upto, upto.len() as int) is None,
            }
        }),
{
    let end = if col < line.len() {
        col
    } else {
        line.len()
    };
    let upto = sub_chars(line, 0, end);
    let mut k = upto.len();
    while k > 0 && !(k < upto.len() && upto[k - 1] == '[' && upto[k] == '[')
        invariant
            0 <= k <= upto@.len(),
            last_link_open(upto@, k as int) == last_link_open(upto@, upto@.len() as int),
        decreases k,
    {
        k = k - 1;
    }
    if k == 0 {
        None
    } else {
        Some(k - 1)
    }
}

/// The number of line feeds in `s`.
pub open spec fn count_newlines(s: Seq<char>) -> int
    decreases s.len(),
{
    if s.len() == 0 {
        0
    } else {
        count_newlines(s.drop_last()) + if s.last() == '\n' { 1int } else { 0int }
    }
}

/// What follows the last line feed of `s` (all of it without one).
pub open spec fn last_line(s: Seq<char>) -> Seq<char>
    decreases s.len(),
{
    if s.len() == 0 {
        s
    } else if s.last() == '\n' {
        Seq::empty()
    } else {
        last_line(s.drop_last()).push(s.last())
    }
}

/// Where the cursor goes after a snippet whose text up to its `{{cursor}}`
/// marker is `before` was inserted at row `insert_row`, column 0: down one
/// row per line feed of `before`, and along the last of its lines.
pub fn cursor_after_insert(insert_row: usize, before: &str) -> (r: (usize, usize))
    requires
        insert_row + count_newlines(before@) <= usize::MAX,
    ensures
        r.0 == insert_row + count_newlines(before@),
        r.1 == last_line(before@).len(),
{
    let v = chars_of(before);
    let mut rows: usize = 0;
    let mut col: usize = 0;
    let mut i: usize = 0;
    proof {
        lemma_count_newlines_prefix(v@, 0);
        assert(v@.take(0) =~= Seq::<char>::empty());
    }
    while i < v.len()
        invariant
            v@ == before@,
            i <= v@.len(),
            rows == count_newlines(v@.take(i as int)),
            col == last_line(v@.take(i as int)).len(),
            insert_row + count_newlines(before@) <= usize::MAX,
            count_newlines(v@.take(i as int)) <= count_newlines(v@),
            col <= i,
        decreases v@.len() - i,
    {
        assert(v@.take(i as int + 1).drop_last() =~= v@.take(i as int));
        proof {
            lemma_count_newlines_prefix(v@, i as int + 1);
        }
        if v[i] == '\n' {
            rows = rows + 1;
            col = 0;
        } else {
            col = col + 1;
        }
        i = i + 1;
    }
    assert(v@.take(v@.len() as int) =~= v@);
    (insert_row + rows, col)
}

proof fn lemma_count_newlines_prefix(s: Seq<char>, k: int)
    requires
        0 <= k <= s.len(),
    ensures
        count_newlines(s.take(k)) <= count_newlines(s),
    decreases s.len() - k,
{
    if k < s.len() {
        lemma_count_newlines_prefix(s, k + 1);
        assert(s.take(k + 1).drop_last() =~= s.take(k));
    } else {
        assert(s.take(k) =~= s);
    }
}

/// The quick commands that the `@` query of a new-note title keeps: those
/// whose label contains the text after the last `@`, ignoring case; none
/// before an `@` is typed.
pub open spec fn spec_quick_filtered(value: Seq<char>, options: Seq<QuickCommand>) -> Seq<QuickCommand>
    decreases options.len(),
{
    if options.len() == 0 {
        options
    } else {
        let kept = spec_quick_filtered(value, options.drop_last());
        match spec_after_last_at(value) {
            Some(q) => if contains_seq(spec_to_lowercase(options.last().spec_label()), spec_to_lowercase(q)) {
                kept.push(options.last())
            } else {
                kept
            },
            None => Seq::empty(),
        }
    }
}

/// The `@` dropdown's entries for the title typed so far.
pub fn quick_template_filtered(value: &str, options: Vec<QuickCommand>) -> (r: Vec<QuickCommand>)
    ensures
        r@ == spec_quick_filtered(value@, options@),
{
    let query = match quick_template_query(value) {
        Some(q) => q,
        None => {
            let ghost all = options@;
            proof {
                lemma_quick_filtered_none(value@, all);
            }
            return Vec::new();
        },
    };
    let q = to_lowercase(query.as_str());
    let ghost all = options@;
    let ghost n0 = options.len();
    let mut out: Vec<QuickCommand> = Vec::new();
    let mut rest = options;
    let mut k: usize = 0;
    assert(all.take(0) =~= Seq::<QuickCommand>::empty());
    while rest.len() > 0
        invariant
            n0 == all.len(),
            n0 <= usize::MAX,
            k + rest@.len() == n0,
            rest@ == all.skip(k as int),
            spec_after_last_at(value@) == Some(query@),
            q@ == spec_to_lowercase(query@),
            out@ == spec_quick_filtered(value@, all.take(k as int)),
        decreases rest@.len(),
    {
        let cmd = rest.remove(0);
        assert(cmd == all[k as int]);
        assert(rest@ =~= all.skip(k as int + 1));
        assert(all.take(k as int + 1).drop_last() =~= all.take(k as int));
        let label = to_lowercase(cmd.label().as_str());
        if find_chars_from(label.as_slice(), q.as_slice(), 0).is_some() {
            out.push(cmd);
        }
        k = k + 1;
    }
    assert(all.take(n0 as int) =~= all);
    out
}

proof fn lemma_quick_filtered_none(value: Seq<char>, options: Seq<QuickCommand>)
    requires
        spec_after_last_at(value) is None,
    ensures
        spec_quick_filtered(value, options) == Seq::<QuickCommand>::empty(),
    decreases options.len(),
{
    if options.len() > 0 {
        lemma_quick_filtered_none(value, options.drop_last());
    }
}

/// A `/` command's rendered body cut at its `{{cursor}}` marker: the text
/// before the first marker and the text after it (the cursor goes between
/// them), or the whole body and nothing when there is no marker.
pub open spec fn spec_split_cursor_marker(body: Seq<char>) -> (Seq<char>, Option<Seq<char>>) {
    match spec_find(body, "{{cursor}}"@) {
        Some(k) => (body.take(k), Some(body.skip(k + "{{cursor}}"@.len()))),
        None => (body, None),
    }
}

pub fn split_cursor_marker(body: &str) -> (r: (String, Option<String>))
    ensures
        (r.0@, match r.1 {
            Some(a) => Some(a@),
            None => None,
        }) == spec_split_cursor_marker(body@),
{
    let v = chars_of(body);
    let marker = "{{cursor}}";
    proof {
        reveal_strlit("{{cursor}}");
        lemma_find_from(v@, marker@, 0);
    }
    match find_str(&v, marker) {
        Some(k) => {
            assert(marker@.len() == 10);
            assert(occurs_at(v@, marker@, k as int));
            let n = v.len();
            assert(k + 10 <= n);
            let m: usize = k + 10;
            let before = sub_chars(&v, 0, k);
            let after = sub_chars(&v, m, n);
            assert(before@ =~= v@.take(k as int));
            assert(after@ =~= v@.skip(k + 10));
            (string_of(&before), Some(string_of(&after)))
        },
        None => (string_of(&v), None),
    }
}

} // verus!
