//! The which-key popup's filter: every binding and navigation row whose
//! key, description or scope contains the typed query, ignoring case.
use vstd::prelude::*;
use crate::keybindings::{
    entries_ascending, entries_view, nav_view, spec_action_label, spec_nav_rows, Action, KeyMaps,
    WhichKeyRow,
};
use crate::text::{find_chars_from, spec_find, spec_to_lowercase, to_lowercase};

verus! {

/// A row as the popup shows it: scope, key, description, and the action
/// that `Enter` runs (none for a navigation row or a note).
pub open spec fn row_view(r: WhichKeyRow) -> (Seq<char>, Seq<char>, Seq<char>, Option<Action>) {
    (
        r.spec_scope(),
        r.spec_key(),
        r.spec_label(),
        match r {
            WhichKeyRow::Bound { action, .. } => Some(action),
            _ => None,
        },
    )
}

pub open spec fn row_views(v: Seq<WhichKeyRow>) -> Seq<(Seq<char>, Seq<char>, Seq<char>, Option<Action>)> {
    v.map_values(|r: WhichKeyRow| row_view(r))
}

/// Whether `q` occurs in `s`.
pub open spec fn contains_seq(s: Seq<char>, q: Seq<char>) -> bool {
    spec_find(s, q) is Some
}

/// Whether a row is kept for the lowercased query `q`: every row for an
/// empty query, else those whose lowercased key, description or scope
/// contains it.
pub open spec fn row_matches(v: (Seq<char>, Seq<char>, Seq<char>, Option<Action>), q: Seq<char>) -> bool {
    q.len() == 0 || contains_seq(spec_to_lowercase(v.1), q) || contains_seq(spec_to_lowercase(v.2), q)
        || contains_seq(spec_to_lowercase(v.0), q)
}

/// The rows of `v` kept for `q`, in order.
pub open spec fn keep_matching(
    v: Seq<(Seq<char>, Seq<char>, Seq<char>, Option<Action>)>,
    q: Seq<char>,
) -> Seq<(Seq<char>, Seq<char>, Seq<char>, Option<Action>)>
    decreases v.len(),
{
    if v.len() == 0 {
        v
    } else {
        let kept = keep_matching(v.drop_last(), q);
        if row_matches(v.last(), q) {
            kept.push(v.last())
        } else {
            kept
        }
    }
}

/// A binding of the listing as a popup row.
pub open spec fn bound_row(e: (Seq<char>, Seq<char>, Action)) -> (Seq<char>, Seq<char>, Seq<char>, Option<Action>) {
    (e.0, e.1, spec_action_label(e.2), Some(e.2))
}

/// A navigation row as a popup row.
pub open spec fn nav_row_view(n: (Seq<char>, Seq<char>, Seq<char>)) -> (Seq<char>, Seq<char>, Seq<char>, Option<Action>) {
    (n.0, n.1, n.2, None)
}

fn contains_chars(s: &[char], q: &[char]) -> (b: bool)
    ensures
        b == contains_seq(s@, q@),
{
    find_chars_from(s, q, 0).is_some()
}

fn row_kept(row: &WhichKeyRow, q: &Vec<char>) -> (b: bool)
    ensures
        b == row_matches(row_view(*row), q@),
{
    if q.len() == 0 {
        return true;
    }
    let key = to_lowercase(row.key());
    if contains_chars(key.as_slice(), q.as_slice()) {
        return true;
    }
    let label = to_lowercase(row.label());
    if contains_chars(label.as_slice(), q.as_slice()) {
        return true;
    }
    let scope = to_lowercase(row.scope());
    contains_chars(scope.as_slice(), q.as_slice())
}

/// The rows of `rows` that the which-key query `query` keeps, in order.
pub fn filter_rows(rows: Vec<WhichKeyRow>, query: &str) -> (r: Vec<WhichKeyRow>)
    ensures
        row_views(r@) == keep_matching(row_views(rows@), spec_to_lowercase(query@)),
{
    let q = to_lowercase(query);
    let ghost all = row_views(rows@);
    let mut out: Vec<WhichKeyRow> = Vec::new();
    let mut rest = rows;
    let ghost n = all.len();
    let mut k: usize = 0;
    let ghost n0 = rest.len();
    assert(all.take(0).len() == 0);
    while rest.len() > 0
        invariant
            n == all.len(),
            n == n0,
            n0 <= usize::MAX,
            k + rest@.len() == n,
            row_views(rest@) == all.skip(k as int),
            row_views(out@) == keep_matching(all.take(k as int), q@),
        decreases rest@.len(),
    {
        let ghost before = rest@;
        let row = rest.remove(0);
        assert(row == before[0]);
        assert(row_views(before)[0] == row_view(before[0]));
        assert(all.skip(k as int)[0] == all[k as int]);
        assert(row_view(row) == all[k as int]);
        assert(rest@ =~= before.subrange(1, before.len() as int));
        assert forall|i: int| 0 <= i < rest@.len() implies #[trigger] row_views(rest@)[i] == all.skip(k as int + 1)[i] by {
            assert(row_views(before)[i + 1] == row_view(before[i + 1]));
            assert(all.skip(k as int)[i + 1] == all[k as int + 1 + i]);
        }
        assert(row_views(rest@) =~= all.skip(k as int + 1));
        assert(all.take(k as int + 1).drop_last() =~= all.take(k as int));
        if row_kept(&row, &q) {
            out.push(row);
            assert(row_views(out@) =~= keep_matching(all.take(k as int + 1), q@));
        } else {
            assert(row_views(out@) =~= keep_matching(all.take(k as int + 1), q@));
        }
        k = k + 1;
    }
    assert(all.take(n as int) =~= all);
    out
}

/// Every binding (grouped by scope, sorted by key) and then every
/// navigation row, as popup rows.
pub fn all_rows(keymaps: &KeyMaps) -> (r: Vec<WhichKeyRow>)
    ensures
        exists|es: Seq<(&'static str, String, Action)>|
            {
                &&& entries_ascending(entries_view(es))
                &&& forall|e: (Seq<char>, Seq<char>, Action)| #[trigger] entries_view(es).contains(e) <==> keymaps.lists(e)
                &&& row_views(r@) == entries_view(es).map_values(|e: (Seq<char>, Seq<char>, Action)| bound_row(e))
                    + spec_nav_rows(keymaps.quit_spec()).map_values(|n: (Seq<char>, Seq<char>, Seq<char>)| nav_row_view(n))
            },
{
    let mut entries = keymaps.entries();
    let mut nav = keymaps.nav_rows();
    let ghost es = entries@;
    let ghost ns = nav@;
    let ghost bound = entries_view(es).map_values(|e: (Seq<char>, Seq<char>, Action)| bound_row(e));
    let ghost navs = nav_view(ns).map_values(|n: (Seq<char>, Seq<char>, Seq<char>)| nav_row_view(n));
    let mut out: Vec<WhichKeyRow> = Vec::new();
    let mut k: usize = 0;
    let ghost n0 = entries.len();
    let ghost m0 = nav.len();
    while entries.len() > 0
        invariant
            es.len() == n0,
            n0 <= usize::MAX,
            k + entries@.len() == es.len(),
            entries@ == es.skip(k as int),
            bound == entries_view(es).map_values(|e: (Seq<char>, Seq<char>, Action)| bound_row(e)),
            row_views(out@) == bound.take(k as int),
        decreases entries@.len(),
    {
        let ghost before_out = out@;
        let (scope, key, action) = entries.remove(0);
        assert(entries@ =~= es.skip(k as int + 1));
        let row = WhichKeyRow::Bound { scope, key, action };
        assert(row_view(row) == bound[k as int]);
        out.push(row);
        assert(out@ == before_out.push(row));
        assert(row_views(out@) =~= row_views(before_out).push(row_view(row)));
        assert(row_views(out@) =~= bound.take(k as int + 1));
        k = k + 1;
    }
    assert(bound.take(k as int) =~= bound);
    let mut j: usize = 0;
    while nav.len() > 0
        invariant
            ns.len() == m0,
            m0 <= usize::MAX,
            j + nav@.len() == ns.len(),
            nav@ == ns.skip(j as int),
            navs == nav_view(ns).map_values(|n: (Seq<char>, Seq<char>, Seq<char>)| nav_row_view(n)),
            row_views(out@) == bound + navs.take(j as int),
        decreases nav@.len(),
    {
        let ghost before_out = out@;
        let (scope, key, label) = nav.remove(0);
        assert(nav@ =~= ns.skip(j as int + 1));
        let row = WhichKeyRow::Nav { scope, key, label };
        assert(row_view(row) == navs[j as int]);
        out.push(row);
        assert(row_views(out@) =~= row_views(before_out).push(row_view(row)));
        assert(row_views(out@) =~= bound + navs.take(j as int + 1));
        j = j + 1;
    }
    assert(navs.take(j as int) =~= navs);
    out
}

/// The which-key popup's rows for the typed `query`: every binding and
/// navigation row whose key, description or scope contains the query,
/// ignoring case (all of them for an empty query).
pub fn which_key_filtered_entries(keymaps: &KeyMaps, query: &str) -> (r: Vec<WhichKeyRow>)
    ensures
        exists|es: Seq<(&'static str, String, Action)>|
            {
                &&& entries_ascending(entries_view(es))
                &&& forall|e: (Seq<char>, Seq<char>, Action)| #[trigger] entries_view(es).contains(e) <==> keymaps.lists(e)
                &&& row_views(r@) == keep_matching(
                    entries_view(es).map_values(|e: (Seq<char>, Seq<char>, Action)| bound_row(e))
                        + spec_nav_rows(keymaps.quit_spec()).map_values(|n: (Seq<char>, Seq<char>, Seq<char>)| nav_row_view(n)),
                    spec_to_lowercase(query@),
                )
            },
{
    let rows = all_rows(keymaps);
    filter_rows(rows, query)
}

} // verus!
