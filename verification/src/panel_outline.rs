//! The outline modal: a note's headings, narrowed by a live filter query.
use vstd::prelude::*;
use crate::text::{find_chars_from, find_from, lemma_find_from, occurs_at, spec_to_lowercase, to_lowercase};

verus! {

/// A `#`..`######` heading of a note: its line, its level and its text.
#[derive(Debug, Clone)]
pub struct Heading {
    pub line: usize,
    pub level: u8,
    pub text: String,
}

/// Whether a heading stays under the (already lowercased) query `q`: every
/// heading does for an empty query, otherwise those whose lowercased text
/// contains it.
pub open spec fn heading_matches(h: Heading, q: Seq<char>) -> bool {
    q.len() == 0 || find_from(spec_to_lowercase(h.text@), q, 0) is Some
}

/// The headings `hs[..k]` that stay under `q`, in order.
pub open spec fn matching(hs: Seq<Heading>, q: Seq<char>, k: int) -> Seq<Heading>
    decreases k,
{
    if k <= 0 || k > hs.len() {
        Seq::empty()
    } else if heading_matches(hs[k - 1], q) {
        matching(hs, q, k - 1).push(hs[k - 1])
    } else {
        matching(hs, q, k - 1)
    }
}

/// Whether the query `q` is found in the heading's lowercased text at some
/// offset (any offset, not only its start); every heading is, for an empty
/// query.
pub open spec fn text_contains_query(h: Heading, q: Seq<char>) -> bool {
    q.len() == 0 || exists|k: int| #[trigger] occurs_at(spec_to_lowercase(h.text@), q, k)
}

/// `text_contains_query` as a filter.
pub open spec fn query_filter(q: Seq<char>) -> spec_fn(Heading) -> bool {
    |h: Heading| text_contains_query(h, q)
}

proof fn lemma_matching_prefix(hs: Seq<Heading>, q: Seq<char>, k: int)
    requires
        0 <= k <= hs.len(),
    ensures
        matching(hs, q, k) == hs.take(k).filter(query_filter(q)),
    decreases k,
{
    let pred = query_filter(q);
    reveal(Seq::filter);
    if k > 0 {
        lemma_matching_prefix(hs, q, k - 1);
        assert(hs.take(k).drop_last() =~= hs.take(k - 1));
        assert(hs.take(k).last() == hs[k - 1]);
        let t = spec_to_lowercase(hs[k - 1].text@);
        lemma_find_from(t, q, 0);
        if q.len() > 0 {
            match find_from(t, q, 0) {
                Some(j) => {
                    assert(occurs_at(t, q, j));
                },
                None => {},
            }
        }
        assert(heading_matches(hs[k - 1], q) == text_contains_query(hs[k - 1], q));
        assert(hs.take(k).filter(pred) == if pred(hs.take(k).last()) {
            hs.take(k).drop_last().filter(pred).push(hs.take(k).last())
        } else {
            hs.take(k).drop_last().filter(pred)
        });
    } else {
        assert(hs.take(0) =~= Seq::<Heading>::empty());
    }
}

/// The outline filter keeps, in their order, exactly the headings whose
/// lowercased text contains the lowercased query somewhere (a match in the
/// middle of a word counts as much as one at its start), and every heading
/// for an empty query.
pub proof fn lemma_filtered_headings_contain(hs: Seq<Heading>, query: Seq<char>)
    ensures
        matching(hs, spec_to_lowercase(query), hs.len() as int) == hs.filter(query_filter(spec_to_lowercase(query))),
{
    lemma_matching_prefix(hs, spec_to_lowercase(query), hs.len() as int);
    assert(hs.take(hs.len() as int) =~= hs);
}

/// The headings whose text contains `query`, ignoring case; all of them
/// for an empty query.
pub fn filtered_headings<'a>(query: &str, headings: &'a [Heading]) -> (r: Vec<&'a Heading>)
    ensures
        r@.map_values(|h: &Heading| *h) == matching(headings@, spec_to_lowercase(query@), headings@.len() as int),
{
    let q = to_lowercase(query);
    let mut out: Vec<&'a Heading> = Vec::new();
    let mut i: usize = 0;
    while i < headings.len()
        invariant
            q@ == spec_to_lowercase(query@),
            0 <= i <= headings@.len(),
            out@.map_values(|h: &Heading| *h) == matching(headings@, q@, i as int),
        decreases headings@.len() - i,
    {
        let h = &headings[i];
        let keep = if q.len() == 0 {
            true
        } else {
            let t = to_lowercase(h.text.as_str());
            find_chars_from(&t, &q, 0).is_some()
        };
        let ghost before = out@;
        if keep {
            out.push(h);
            assert(out@.map_values(|h: &Heading| *h) =~= before.map_values(|h: &Heading| *h).push(*h));
        }
        i = i + 1;
    }
    out
}

} // verus!
