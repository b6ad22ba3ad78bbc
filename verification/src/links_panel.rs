//! The links modal: a note's outgoing `[[wikilinks]]`, the notes linking
//! back to it, and the notes mentioning its title without a link, as one
//! flat list with a display-only header above each non-empty section.
//! Selection skips the headers.
use vstd::prelude::*;
use crate::panel_git::count_set;

verus! {

/// A note a link row leads to.
#[derive(Debug, Clone)]
pub struct LinkedNote {
    pub path: String,
    pub title: String,
}

/// One row of the links list: a section header (never selected), an
/// outgoing link (with the note it resolves to, if any — a broken link is
/// still shown), a backlink, or an unlinked mention.
#[derive(Debug, Clone)]
pub enum LinkRow {
    Header(&'static str),
    Outgoing { text: String, resolved: Option<String> },
    Backlink { note: LinkedNote },
    Mention { note: LinkedNote },
}

/// The kind of a row and, for a header, its title.
pub enum RowKind {
    Header(Seq<char>),
    Outgoing,
    Backlink,
    Mention,
}

pub open spec fn row_kind(r: LinkRow) -> RowKind {
    match r {
        LinkRow::Header(t) => RowKind::Header(t@),
        LinkRow::Outgoing { .. } => RowKind::Outgoing,
        LinkRow::Backlink { .. } => RowKind::Backlink,
        LinkRow::Mention { .. } => RowKind::Mention,
    }
}

pub open spec fn selectable_flags(rows: Seq<LinkRow>) -> Seq<bool> {
    rows.map_values(|r: LinkRow| !(r is Header))
}

/// A section: its header then its rows, or nothing at all when it has no
/// rows.
pub open spec fn section(title: Seq<char>, n: int, kind: RowKind) -> Seq<RowKind> {
    if n == 0 {
        Seq::empty()
    } else {
        seq![RowKind::Header(title)] + Seq::new(n as nat, |i: int| kind)
    }
}

/// The shape of the list: outgoing links, then backlinks, then mentions,
/// each section present only when it has rows.
pub open spec fn spec_layout(outgoing: int, backlinks: int, mentions: int) -> Seq<RowKind> {
    section("Outgoing"@, outgoing, RowKind::Outgoing) + section("Backlinks"@, backlinks, RowKind::Backlink)
        + section("Mentions (unlinked)"@, mentions, RowKind::Mention)
}

fn copy_note(n: &LinkedNote) -> (r: LinkedNote)
    ensures
        r == *n,
{
    LinkedNote { path: n.path.clone(), title: n.title.clone() }
}

fn push_section_header(rows: &mut Vec<LinkRow>, title: &'static str)
    ensures
        final(rows)@ == old(rows)@.push(LinkRow::Header(title)),
{
    rows.push(LinkRow::Header(title));
}

/// Builds the rows from a note's outgoing links (text and the note path it
/// resolves to, in the order they appear), the notes linking back to it,
/// and the notes mentioning it unlinked; an empty section is left out.
pub fn build(outgoing: &[(String, Option<String>)], backlinks: &[LinkedNote], mentions: &[LinkedNote]) -> (rows: Vec<LinkRow>)
    ensures
        rows@.map_values(|r: LinkRow| row_kind(r)) == spec_layout(
            outgoing@.len() as int,
            backlinks@.len() as int,
            mentions@.len() as int,
        ),
        forall|i: int|
            0 <= i < outgoing@.len() ==> rows@[i + 1] == (LinkRow::Outgoing { text: outgoing@[i].0, resolved: outgoing@[i].1 }),
        forall|i: int|
            0 <= i < backlinks@.len() ==> rows@[i + 1 + if outgoing@.len() > 0 {
                outgoing@.len() + 1
            } else {
                0
            }] == (LinkRow::Backlink { note: backlinks@[i] }),
        forall|i: int|
            0 <= i < mentions@.len() ==> rows@[i + 1 + (if outgoing@.len() > 0 {
                outgoing@.len() + 1
            } else {
                0
            }) + (if backlinks@.len() > 0 {
                backlinks@.len() + 1
            } else {
                0
            })] == (LinkRow::Mention { note: mentions@[i] }),
{
    let mut rows: Vec<LinkRow> = Vec::new();
    let no = outgoing.len();
    let nb = backlinks.len();
    let nm = mentions.len();
    let ghost ov = outgoing@;
    let ghost bv = backlinks@;
    if no > 0 {
        push_section_header(&mut rows, "Outgoing");
    }
    let mut i: usize = 0;
    while i < no
        invariant
            ov == outgoing@,
            no == ov.len(),
            0 <= i <= no,
            rows@.len() == if no > 0 { 1 + i } else { 0 },
            no > 0 ==> rows@[0] == LinkRow::Header("Outgoing"),
            forall|j: int| 0 <= j < i ==> rows@[j + 1] == (LinkRow::Outgoing { text: ov[j].0, resolved: ov[j].1 }),
        decreases no - i,
    {
        let text = outgoing[i].0.clone();
        let resolved = match &outgoing[i].1 {
            Some(p) => Some(p.clone()),
            None => None,
        };
        rows.push(LinkRow::Outgoing { text, resolved });
        i = i + 1;
    }
    let ghost after_out = rows@;
    if nb > 0 {
        push_section_header(&mut rows, "Backlinks");
    }
    let base = rows.len();
    let mut j: usize = 0;
    while j < nb
        invariant
            bv == backlinks@,
            nb == bv.len(),
            0 <= j <= nb,
            base == after_out.len() + if nb > 0 { 1int } else { 0int },
            rows@.len() == base + j,
            forall|k: int| 0 <= k < after_out.len() ==> rows@[k] == after_out[k],
            nb > 0 ==> rows@[after_out.len() as int] == LinkRow::Header("Backlinks"),
            forall|k: int| 0 <= k < j ==> rows@[base + k] == (LinkRow::Backlink { note: bv[k] }),
        decreases nb - j,
    {
        let note = copy_note(&backlinks[j]);
        rows.push(LinkRow::Backlink { note });
        j = j + 1;
    }
    let ghost after_back = rows@;
    if nm > 0 {
        push_section_header(&mut rows, "Mentions (unlinked)");
    }
    let base2 = rows.len();
    let ghost mv = mentions@;
    let mut k: usize = 0;
    while k < nm
        invariant
            mv == mentions@,
            nm == mv.len(),
            0 <= k <= nm,
            base2 == after_back.len() + if nm > 0 { 1int } else { 0int },
            rows@.len() == base2 + k,
            forall|q: int| 0 <= q < after_back.len() ==> rows@[q] == after_back[q],
            nm > 0 ==> rows@[after_back.len() as int] == LinkRow::Header("Mentions (unlinked)"),
            forall|q: int| 0 <= q < k ==> rows@[base2 + q] == (LinkRow::Mention { note: mv[q] }),
        decreases nm - k,
    {
        let note = copy_note(&mentions[k]);
        rows.push(LinkRow::Mention { note });
        k = k + 1;
    }
    proof {
        let kinds = rows@.map_values(|r: LinkRow| row_kind(r));
        let lay = spec_layout(no as int, nb as int, nm as int);
        let s1 = section("Outgoing"@, no as int, RowKind::Outgoing);
        let s2 = section("Backlinks"@, nb as int, RowKind::Backlink);
        let s3 = section("Mentions (unlinked)"@, nm as int, RowKind::Mention);
        assert(s1.len() == after_out.len());
        assert(s2.len() + s1.len() == after_back.len());
        assert(lay.len() == kinds.len());
        assert forall|x: int| 0 <= x < kinds.len() implies kinds[x] == lay[x] by {
            assert(kinds[x] == row_kind(rows@[x]));
            if x < s1.len() {
                assert(rows@[x] == after_back[x]);
                assert(after_back[x] == after_out[x]);
                assert(lay[x] == s1[x]);
                if x > 0 {
                    assert(rows@[(x - 1) + 1] == (LinkRow::Outgoing { text: ov[x - 1].0, resolved: ov[x - 1].1 }));
                }
            } else if x < s1.len() + s2.len() {
                assert(rows@[x] == after_back[x]);
                assert(lay[x] == s2[x - s1.len()]);
                if x > s1.len() {
                    let q = x - s1.len() - 1;
                    assert(rows@[base + q] == (LinkRow::Backlink { note: bv[q] }));
                }
            } else {
                assert(lay[x] == s3[x - s1.len() - s2.len()]);
                if x > s1.len() + s2.len() {
                    let q = x - s1.len() - s2.len() - 1;
                    assert(rows@[base2 + q] == (LinkRow::Mention { note: mv[q] }));
                }
            }
        }
        assert(kinds =~= lay);
    }
    rows
}

/// How many rows are selectable (all but the headers): the bound for a
/// selection index.
pub fn selectable_count(rows: &[LinkRow]) -> (n: usize)
    ensures
        n == count_set(selectable_flags(rows@), rows@.len() as int),
{
    let ghost flags = selectable_flags(rows@);
    let mut n: usize = 0;
    let mut i: usize = 0;
    while i < rows.len()
        invariant
            flags == selectable_flags(rows@),
            0 <= i <= rows@.len(),
            n == count_set(flags, i as int),
            n <= i,
        decreases rows@.len() - i,
    {
        let selectable = match &rows[i] {
            LinkRow::Header(_) => false,
            _ => true,
        };
        assert(flags[i as int] == selectable);
        if selectable {
            n = n + 1;
        }
        i = i + 1;
    }
    n
}

/// The row index of the `selected`-th selectable row (headers are
/// interspersed), or `None` when there are not that many.
pub fn selected_row(rows: &[LinkRow], selected: usize) -> (r: Option<usize>)
    ensures
        match r {
            Some(i) => i < rows@.len() && selectable_flags(rows@)[i as int] && count_set(selectable_flags(rows@), i as int)
                == selected,
            None => selected >= count_set(selectable_flags(rows@), rows@.len() as int),
        },
{
    let ghost flags = selectable_flags(rows@);
    let mut n: usize = 0;
    let mut i: usize = 0;
    while i < rows.len()
        invariant
            flags == selectable_flags(rows@),
            0 <= i <= rows@.len(),
            n == count_set(flags, i as int),
            n <= selected,
        decreases rows@.len() - i,
    {
        let selectable = match &rows[i] {
            LinkRow::Header(_) => false,
            _ => true,
        };
        assert(flags[i as int] == selectable);
        if selectable {
            if n == selected {
                return Some(i);
            }
            n = n + 1;
        }
        i = i + 1;
    }
    None
}

} // verus!
