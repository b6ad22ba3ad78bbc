//! The git dashboard: every notebook's sync state in plain language, one
//! line each, with its latest commits underneath. The point is
//! plain wording: the same status the drawer badges show (`+2 ↑1 ↓3`),
//! phrased so that anyone knows what is going on and which key fixes it
//! ("2 uncommitted · 3 on remote — s saves, p pulls"). Only notebook lines
//! are selectable; commit lines are display only.
use vstd::prelude::*;
use crate::text::{chars_of, occurs_at, push_all, push_decimal, push_str, push_two_digits, spec_decimal, spec_two_digits, string_of};

verus! {

broadcast use vstd::string::group_string_axioms;

/// A notebook repository's state, as read from disk.
#[derive(Debug, Clone)]
pub struct GitStatus {
    pub is_repo: bool,
    pub dirty: bool,
    pub dirty_count: usize,
    pub branch: Option<String>,
    pub ahead: usize,
    pub behind: usize,
    /// Why the status could not be read, if it could not.
    pub status_error: Option<String>,
}

/// When a commit was made, in local time: month, day, hour, minute.
#[derive(Debug, Clone, Copy, PartialEq, Eq)]
pub struct CommitTime {
    pub month: u32,
    pub day: u32,
    pub hour: u32,
    pub minute: u32,
}

/// One commit of a notebook.
#[derive(Debug, Clone)]
pub struct FileRevision {
    pub commit_id: String,
    pub date: CommitTime,
    pub message: String,
}

/// What the dashboard knows about one notebook.
#[derive(Debug, Clone)]
pub struct NotebookGitState {
    pub name: String,
    pub status: GitStatus,
    /// A pull came back conflicted and is not resolved yet — the one state
    /// where syncing again is the wrong next move.
    pub merging: bool,
    /// The most recent commits, newest first.
    pub commits: Vec<FileRevision>,
}

/// How worried the reader should be about a status line (its color only;
/// the words carry the meaning).
#[derive(Debug, Clone, Copy, PartialEq, Eq, Structural)]
pub enum Tone {
    /// Nothing to do: committed and pushed.
    Good,
    /// Something pending, with a key that fixes it.
    Attention,
    /// Needs a human decision (conflicts, unreadable repository).
    Problem,
}

/// One dashboard row: a notebook's status line (selectable) or one of its
/// recent commits (display only).
#[derive(Debug, Clone)]
pub enum DashRow {
    Notebook { name: String, line: String, tone: Tone },
    Commit { short: String, date: String, message: String },
}

/// The contents of a dashboard row.
pub enum DashRowV {
    Notebook { name: Seq<char>, line: Seq<char>, tone: Tone },
    Commit { short: Seq<char>, date: Seq<char>, message: Seq<char> },
}

impl View for DashRow {
    type V = DashRowV;

    open spec fn view(&self) -> DashRowV {
        match self {
            DashRow::Notebook { name, line, tone } => DashRowV::Notebook { name: name@, line: line@, tone: *tone },
            DashRow::Commit { short, date, message } => DashRowV::Commit {
                short: short@,
                date: date@,
                message: message@,
            },
        }
    }
}

pub open spec fn rows_view(rows: Seq<DashRow>) -> Seq<DashRowV> {
    rows.map_values(|r: DashRow| r@)
}

// ---------------------------------------------------------------------------
// The status sentence
// ---------------------------------------------------------------------------

/// `parts` joined with `sep` between neighbours.
pub open spec fn join(parts: Seq<Seq<char>>, sep: Seq<char>) -> Seq<char>
    decreases parts.len(),
{
    if parts.len() == 0 {
        Seq::empty()
    } else if parts.len() == 1 {
        parts[0]
    } else {
        join(parts.drop_last(), sep) + sep + parts.last()
    }
}

/// What is pending: uncommitted changes, commits on the remote, unpushed
/// commits, each with its count.
pub open spec fn pending_parts(s: GitStatus) -> Seq<Seq<char>> {
    (if s.dirty_count > 0 {
        seq![spec_decimal(s.dirty_count as nat) + " uncommitted"@]
    } else {
        Seq::empty()
    }) + (if s.behind > 0 {
        seq![spec_decimal(s.behind as nat) + " on remote"@]
    } else {
        Seq::empty()
    }) + (if s.ahead > 0 {
        seq![spec_decimal(s.ahead as nat) + " unpushed"@]
    } else {
        Seq::empty()
    })
}

/// The key that fixes each pending part, in the same order.
pub open spec fn pending_hints(s: GitStatus) -> Seq<Seq<char>> {
    (if s.dirty_count > 0 {
        seq!["s saves"@]
    } else {
        Seq::empty()
    }) + (if s.behind > 0 {
        seq!["p pulls"@]
    } else {
        Seq::empty()
    }) + (if s.ahead > 0 {
        seq!["u pushes"@]
    } else {
        Seq::empty()
    })
}

/// The sentence for a notebook's status and its tone: not a repository;
/// a merge in progress; an unreadable status; everything synced; or what
/// is pending joined by ` · `, then ` — ` and the fixing keys.
pub open spec fn spec_status_line(s: GitStatus, merging: bool) -> (Seq<char>, Tone) {
    if !s.is_repo {
        ("not a git repository yet"@, Tone::Attention)
    } else if merging {
        ("merge in progress \u{2014} resolve conflicts first"@, Tone::Problem)
    } else if s.status_error is Some {
        ("status unavailable ("@ + s.status_error->0@ + ")"@, Tone::Problem)
    } else if pending_parts(s).len() == 0 {
        ("all synced"@, Tone::Good)
    } else {
        (join(pending_parts(s), " \u{B7} "@) + " \u{2014} "@ + join(pending_hints(s), ", "@), Tone::Attention)
    }
}

/// `w` occurs somewhere in `s`.
pub open spec fn contains(s: Seq<char>, w: Seq<char>) -> bool {
    exists|i: int| #[trigger] occurs_at(s, w, i)
}

proof fn lemma_contains_concat(a: Seq<char>, b: Seq<char>, w: Seq<char>)
    ensures
        contains(a, w) ==> contains(a + b, w),
        contains(b, w) ==> contains(a + b, w),
{
    if contains(a, w) {
        let i = choose|i: int| #[trigger] occurs_at(a, w, i);
        assert((a + b).subrange(i, i + w.len()) =~= a.subrange(i, i + w.len()));
        assert(occurs_at(a + b, w, i));
    }
    if contains(b, w) {
        let i = choose|i: int| #[trigger] occurs_at(b, w, i);
        let j = a.len() + i;
        assert((a + b).subrange(j, j + w.len()) =~= b.subrange(i, i + w.len()));
        assert(occurs_at(a + b, w, j));
    }
}

proof fn lemma_join_contains(parts: Seq<Seq<char>>, sep: Seq<char>, j: int)
    requires
        0 <= j < parts.len(),
    ensures
        contains(join(parts, sep), parts[j]),
    decreases parts.len(),
{
    if parts.len() == 1 {
        assert(parts[0].subrange(0, parts[0].len() as int) =~= parts[0]);
        assert(occurs_at(join(parts, sep), parts[j], 0));
    } else {
        let head = join(parts.drop_last(), sep) + sep;
        if j == parts.len() - 1 {
            lemma_contains_concat(head, parts.last(), parts[j]);
            assert(parts.last().subrange(0, parts.last().len() as int) =~= parts.last());
            assert(occurs_at(parts.last(), parts[j], 0));
        } else {
            lemma_join_contains(parts.drop_last(), sep, j);
            assert(parts.drop_last()[j] == parts[j]);
            lemma_contains_concat(join(parts.drop_last(), sep), sep, parts[j]);
            lemma_contains_concat(head, parts.last(), parts[j]);
        }
    }
}

/// A readable repository's status line (no merge in progress): it is
/// "all synced", and good, exactly when nothing is uncommitted, on the
/// remote or unpushed; otherwise it asks for attention and names each
/// pending count with the key that fixes it: `N uncommitted` with
/// `s saves`, `N on remote` with `p pulls`, `N unpushed` with `u pushes`.
pub proof fn lemma_status_line_names_pending(s: GitStatus)
    requires
        s.is_repo,
        s.status_error is None,
    ensures
        (spec_status_line(s, false).1 == Tone::Good) <==> (s.dirty_count == 0 && s.behind == 0 && s.ahead == 0),
        spec_status_line(s, false).1 == Tone::Good ==> spec_status_line(s, false).0 == "all synced"@,
        spec_status_line(s, false).1 != Tone::Good ==> spec_status_line(s, false).1 == Tone::Attention,
        s.dirty_count > 0 ==> contains(spec_status_line(s, false).0, spec_decimal(s.dirty_count as nat) + " uncommitted"@)
            && contains(spec_status_line(s, false).0, "s saves"@),
        s.behind > 0 ==> contains(spec_status_line(s, false).0, spec_decimal(s.behind as nat) + " on remote"@)
            && contains(spec_status_line(s, false).0, "p pulls"@),
        s.ahead > 0 ==> contains(spec_status_line(s, false).0, spec_decimal(s.ahead as nat) + " unpushed"@)
            && contains(spec_status_line(s, false).0, "u pushes"@),
{
    let parts = pending_parts(s);
    let hints = pending_hints(s);
    let sep1 = " \u{B7} "@;
    let mid = " \u{2014} "@;
    let sep2 = ", "@;
    if parts.len() > 0 {
        let head = join(parts, sep1) + mid;
        let line = head + join(hints, sep2);
        assert(spec_status_line(s, false).0 == line);
        let d: int = if s.dirty_count > 0 { 1 } else { 0 };
        let b: int = if s.behind > 0 { 1 } else { 0 };
        if s.dirty_count > 0 {
            assert(parts[0] == spec_decimal(s.dirty_count as nat) + " uncommitted"@);
            assert(hints[0] == "s saves"@);
            lemma_join_contains(parts, sep1, 0);
            lemma_join_contains(hints, sep2, 0);
        }
        if s.behind > 0 {
            assert(parts[d] == spec_decimal(s.behind as nat) + " on remote"@);
            assert(hints[d] == "p pulls"@);
            lemma_join_contains(parts, sep1, d);
            lemma_join_contains(hints, sep2, d);
        }
        if s.ahead > 0 {
            assert(parts[d + b] == spec_decimal(s.ahead as nat) + " unpushed"@);
            assert(hints[d + b] == "u pushes"@);
            lemma_join_contains(parts, sep1, d + b);
            lemma_join_contains(hints, sep2, d + b);
        }
        assert forall|w: Seq<char>| contains(join(parts, sep1), w) implies contains(line, w) by {
            lemma_contains_concat(join(parts, sep1), mid, w);
            lemma_contains_concat(head, join(hints, sep2), w);
        }
        assert forall|w: Seq<char>| contains(join(hints, sep2), w) implies contains(line, w) by {
            lemma_contains_concat(head, join(hints, sep2), w);
        }
    }
}

/// The status lines that are not about pending work: a folder that is not
/// a repository asks for attention (never "all synced"); a merge in
/// progress, or a status that could not be read, is a problem, and the
/// unreadable status quotes the reason.
pub proof fn lemma_status_line_problems(s: GitStatus, merging: bool)
    ensures
        !s.is_repo ==> spec_status_line(s, merging).1 == Tone::Attention,
        s.is_repo && merging ==> spec_status_line(s, merging).1 == Tone::Problem,
        s.is_repo && !merging && s.status_error is Some ==> spec_status_line(s, merging).1 == Tone::Problem
            && contains(spec_status_line(s, merging).0, s.status_error->0@),
{
    if s.is_repo && !merging && s.status_error is Some {
        let e = s.status_error->0@;
        let a = "status unavailable ("@;
        assert(e.subrange(0, e.len() as int) =~= e);
        assert(occurs_at(e, e, 0));
        lemma_contains_concat(a, e, e);
        lemma_contains_concat(a + e, ")"@, e);
    }
}

fn join_into(out: &mut Vec<char>, parts: &Vec<Vec<char>>, sep: &str)
    ensures
        final(out)@ == old(out)@ + join(parts@.map_values(|p: Vec<char>| p@), sep@),
{
    let ghost pv = parts@.map_values(|p: Vec<char>| p@);
    let mut i: usize = 0;
    while i < parts.len()
        invariant
            pv == parts@.map_values(|p: Vec<char>| p@),
            0 <= i <= parts@.len(),
            out@ == old(out)@ + join(pv.take(i as int), sep@),
        decreases parts@.len() - i,
    {
        if i > 0 {
            push_str(out, sep);
        }
        push_all(out, &parts[i]);
        proof {
            assert(pv.take(i + 1).drop_last() =~= pv.take(i as int));
            if i == 0 {
                assert(pv.take(i as int) =~= Seq::<Seq<char>>::empty());
            }
        }
        i = i + 1;
    }
    assert(pv.take(parts@.len() as int) =~= pv);
}

fn number_part(n: usize, what: &str) -> (v: Vec<char>)
    ensures
        v@ == spec_decimal(n as nat) + what@,
{
    let mut v: Vec<char> = Vec::new();
    push_decimal(&mut v, n);
    push_str(&mut v, what);
    v
}

/// The sentence for a notebook's status and its tone (see
/// `spec_status_line`).
pub fn status_line(status: &GitStatus, merging: bool) -> (r: (String, Tone))
    ensures
        r.0@ == spec_status_line(*status, merging).0,
        r.1 == spec_status_line(*status, merging).1,
{
    if !status.is_repo {
        return (string_of(&chars_of("not a git repository yet")), Tone::Attention);
    }
    if merging {
        return (string_of(&chars_of("merge in progress \u{2014} resolve conflicts first")), Tone::Problem);
    }
    if let Some(error) = &status.status_error {
        let mut v = chars_of("status unavailable (");
        push_all(&mut v, &chars_of(error.as_str()));
        push_str(&mut v, ")");
        return (string_of(&v), Tone::Problem);
    }
    let mut parts: Vec<Vec<char>> = Vec::new();
    let mut hints: Vec<Vec<char>> = Vec::new();
    if status.dirty_count > 0 {
        parts.push(number_part(status.dirty_count, " uncommitted"));
        hints.push(chars_of("s saves"));
    }
    if status.behind > 0 {
        parts.push(number_part(status.behind, " on remote"));
        hints.push(chars_of("p pulls"));
    }
    if status.ahead > 0 {
        parts.push(number_part(status.ahead, " unpushed"));
        hints.push(chars_of("u pushes"));
    }
    assert(parts@.map_values(|p: Vec<char>| p@) =~= pending_parts(*status));
    assert(hints@.map_values(|p: Vec<char>| p@) =~= pending_hints(*status));
    if parts.len() == 0 {
        return (string_of(&chars_of("all synced")), Tone::Good);
    }
    let mut v: Vec<char> = Vec::new();
    join_into(&mut v, &parts, " \u{B7} ");
    push_str(&mut v, " \u{2014} ");
    join_into(&mut v, &hints, ", ");
    (string_of(&v), Tone::Attention)
}

// ---------------------------------------------------------------------------
// Rows
// ---------------------------------------------------------------------------

/// A commit time as `MM-DD HH:MM`.
pub open spec fn spec_commit_date(t: CommitTime) -> Seq<char> {
    spec_two_digits(t.month as nat) + seq!['-'] + spec_two_digits(t.day as nat) + seq![' ']
        + spec_two_digits(t.hour as nat) + seq![':'] + spec_two_digits(t.minute as nat)
}

/// A commit's row: the first seven characters of its id, its date and its
/// message.
pub open spec fn commit_row(c: FileRevision) -> DashRowV {
    DashRowV::Commit { short: c.commit_id@.take(if c.commit_id@.len() < 7 { c.commit_id@.len() as int } else { 7 }), date: spec_commit_date(c.date), message: c.message@ }
}

/// A notebook's rows: its status line, then at most its three most recent
/// commits.
pub open spec fn notebook_rows(s: NotebookGitState) -> Seq<DashRowV> {
    let (line, tone) = spec_status_line(s.status, s.merging);
    let shown = if s.commits@.len() < 3 {
        s.commits@
    } else {
        s.commits@.take(3)
    };
    seq![DashRowV::Notebook { name: s.name@, line, tone }] + shown.map_values(|c: FileRevision| commit_row(c))
}

/// Every notebook's rows, in order.
pub open spec fn spec_build_rows(states: Seq<NotebookGitState>) -> Seq<DashRowV>
    decreases states.len(),
{
    if states.len() == 0 {
        Seq::empty()
    } else {
        spec_build_rows(states.drop_last()) + notebook_rows(states.last())
    }
}

/// How many rows the notebooks make: one each, plus its commits up to
/// three.
pub open spec fn row_count(states: Seq<NotebookGitState>) -> nat
    decreases states.len(),
{
    if states.len() == 0 {
        0
    } else {
        row_count(states.drop_last()) + 1 + if states.last().commits@.len() < 3 {
            states.last().commits@.len()
        } else {
            3
        }
    }
}

/// The rows interleave the notebooks and their commits: there are
/// `row_count` of them, and each notebook's rows (its line, then up to
/// three commits) follow the rows of the notebooks before it.
pub proof fn lemma_build_rows_shape(states: Seq<NotebookGitState>)
    ensures
        spec_build_rows(states).len() == row_count(states),
        states.len() > 0 ==> spec_build_rows(states) == spec_build_rows(states.drop_last()) + notebook_rows(
            states.last(),
        ),
    decreases states.len(),
{
    if states.len() > 0 {
        lemma_build_rows_shape(states.drop_last());
    }
}

fn commit_date(t: CommitTime) -> (s: String)
    ensures
        s@ == spec_commit_date(t),
{
    let mut v: Vec<char> = Vec::new();
    push_two_digits(&mut v, t.month as usize);
    v.push('-');
    push_two_digits(&mut v, t.day as usize);
    v.push(' ');
    push_two_digits(&mut v, t.hour as usize);
    v.push(':');
    push_two_digits(&mut v, t.minute as usize);
    assert(v@ =~= spec_commit_date(t));
    string_of(&v)
}

fn push_commit_row(rows: &mut Vec<DashRow>, c: &FileRevision)
    ensures
        rows_view(final(rows)@) == rows_view(old(rows)@).push(commit_row(*c)),
{
    let id = chars_of(c.commit_id.as_str());
    let mut short: Vec<char> = Vec::new();
    let mut k: usize = 0;
    while k < id.len() && k < 7
        invariant
            0 <= k <= id@.len(),
            k <= 7,
            short@ == id@.take(k as int),
        decreases id@.len() - k,
    {
        short.push(id[k]);
        k = k + 1;
        assert(short@ =~= id@.take(k as int));
    }
    let row = DashRow::Commit { short: string_of(&short), date: commit_date(c.date), message: c.message.clone() };
    let ghost before = rows@;
    rows.push(row);
    assert(rows_view(rows@) =~= rows_view(before).push(commit_row(*c)));
}

/// Every notebook as rows: its status line, then up to three recent
/// commits. A notebook without commits still has its line.
pub fn build_rows(states: &[NotebookGitState]) -> (rows: Vec<DashRow>)
    ensures
        rows_view(rows@) == spec_build_rows(states@),
{
    let mut rows: Vec<DashRow> = Vec::new();
    let mut i: usize = 0;
    assert(rows_view(rows@) =~= spec_build_rows(states@.take(0)));
    while i < states.len()
        invariant
            0 <= i <= states@.len(),
            rows_view(rows@) == spec_build_rows(states@.take(i as int)),
        decreases states@.len() - i,
    {
        let state = &states[i];
        let (line, tone) = status_line(&state.status, state.merging);
        let ghost before = rows_view(rows@);
        rows.push(DashRow::Notebook { name: state.name.clone(), line, tone });
        let ghost shown = if state.commits@.len() < 3 {
            state.commits@
        } else {
            state.commits@.take(3)
        };
        let ghost head = rows_view(rows@);
        assert(head =~= before + seq![DashRowV::Notebook { name: state.name@, line: line@, tone }]);
        let mut k: usize = 0;
        while k < state.commits.len() && k < 3
            invariant
                0 <= k <= state.commits@.len(),
                k <= 3,
                shown == if state.commits@.len() < 3 {
                    state.commits@
                } else {
                    state.commits@.take(3)
                },
                rows_view(rows@) == head + shown.take(k as int).map_values(|c: FileRevision| commit_row(c)),
            decreases state.commits@.len() - k,
        {
            push_commit_row(&mut rows, &state.commits[k]);
            assert(shown.take(k + 1) =~= shown.take(k as int).push(state.commits@[k as int]));
            assert(shown.take(k + 1).map_values(|c: FileRevision| commit_row(c)) =~= shown.take(k as int).map_values(
                |c: FileRevision| commit_row(c),
            ).push(commit_row(state.commits@[k as int])));
            k = k + 1;
        }
        assert(shown.take(k as int) =~= shown);
        assert(states@.take(i + 1).drop_last() =~= states@.take(i as int));
        assert(rows_view(rows@) =~= spec_build_rows(states@.take(i + 1)));
        i = i + 1;
    }
    assert(states@.take(states@.len() as int) =~= states@);
    rows
}

// ---------------------------------------------------------------------------
// Selection over rows of which only some are selectable
// ---------------------------------------------------------------------------

/// How many of `flags[..k]` are set.
pub open spec fn count_set(flags: Seq<bool>, k: int) -> nat
    decreases k,
{
    if k <= 0 || k > flags.len() {
        0
    } else {
        count_set(flags, k - 1) + if flags[k - 1] {
            1nat
        } else {
            0nat
        }
    }
}

pub open spec fn notebook_flags(rows: Seq<DashRowV>) -> Seq<bool> {
    rows.map_values(|r: DashRowV| r is Notebook)
}

/// How many rows are selectable (notebook lines): the bound for a
/// selection index.
pub fn selectable_count(rows: &[DashRow]) -> (n: usize)
    ensures
        n == count_set(notebook_flags(rows_view(rows@)), rows@.len() as int),
{
    let ghost flags = notebook_flags(rows_view(rows@));
    let mut n: usize = 0;
    let mut i: usize = 0;
    while i < rows.len()
        invariant
            flags == notebook_flags(rows_view(rows@)),
            0 <= i <= rows@.len(),
            n == count_set(flags, i as int),
            n <= i,
        decreases rows@.len() - i,
    {
        let is_nb = match &rows[i] {
            DashRow::Notebook { .. } => true,
            DashRow::Commit { .. } => false,
        };
        assert(flags[i as int] == is_nb);
        if is_nb {
            n = n + 1;
        }
        i = i + 1;
    }
    n
}

/// The row index of the `selected`-th notebook line (what the list widget
/// highlights), or `None` when there are not that many.
pub fn selected_row(rows: &[DashRow], selected: usize) -> (r: Option<usize>)
    ensures
        match r {
            Some(i) => i < rows@.len() && notebook_flags(rows_view(rows@))[i as int] && count_set(
                notebook_flags(rows_view(rows@)),
                i as int,
            ) == selected,
            None => selected >= count_set(notebook_flags(rows_view(rows@)), rows@.len() as int),
        },
{
    let ghost flags = notebook_flags(rows_view(rows@));
    let mut n: usize = 0;
    let mut i: usize = 0;
    while i < rows.len()
        invariant
            flags == notebook_flags(rows_view(rows@)),
            0 <= i <= rows@.len(),
            n == count_set(flags, i as int),
            n <= selected,
        decreases rows@.len() - i,
    {
        let is_nb = match &rows[i] {
            DashRow::Notebook { .. } => true,
            DashRow::Commit { .. } => false,
        };
        assert(flags[i as int] == is_nb);
        if is_nb {
            if n == selected {
                return Some(i);
            }
            n = n + 1;
        }
        i = i + 1;
    }
    None
}

proof fn lemma_count_append(a: Seq<bool>, b: Seq<bool>, k: int)
    requires
        0 <= k <= b.len(),
    ensures
        count_set(a + b, a.len() + k) == count_set(a, a.len() as int) + count_set(b, k),
    decreases k,
{
    if k > 0 {
        lemma_count_append(a, b, k - 1);
        assert((a + b)[a.len() + k - 1] == b[k - 1]);
    } else {
        lemma_count_prefix(a, a + b, a.len() as int);
    }
}

proof fn lemma_count_prefix(a: Seq<bool>, c: Seq<bool>, k: int)
    requires
        0 <= k <= a.len(),
        k <= c.len(),
        forall|i: int| 0 <= i < k ==> a[i] == c[i],
    ensures
        count_set(a, k) == count_set(c, k),
    decreases k,
{
    if k > 0 {
        lemma_count_prefix(a, c, k - 1);
    }
}

proof fn lemma_one_notebook_line(s: NotebookGitState)
    ensures
        count_set(notebook_flags(notebook_rows(s)), notebook_rows(s).len() as int) == 1,
{
    let rows = notebook_rows(s);
    let f = notebook_flags(rows);
    let shown = if s.commits@.len() < 3 {
        s.commits@
    } else {
        s.commits@.take(3)
    };
    let tail = shown.map_values(|c: FileRevision| commit_row(c));
    assert(f =~= seq![true] + notebook_flags(tail));
    assert forall|i: int| 0 <= i < tail.len() implies !notebook_flags(tail)[i] by {}
    lemma_no_flags(notebook_flags(tail), tail.len() as int);
    lemma_count_append(seq![true], notebook_flags(tail), tail.len() as int);
    assert(count_set(seq![true], 0) == 0);
    assert(count_set(seq![true], 1) == 1);
    assert(rows.len() == 1 + tail.len());
}

proof fn lemma_no_flags(f: Seq<bool>, k: int)
    requires
        0 <= k <= f.len(),
        forall|i: int| 0 <= i < f.len() ==> !f[i],
    ensures
        count_set(f, k) == 0,
    decreases k,
{
    if k > 0 {
        lemma_no_flags(f, k - 1);
    }
}

/// Every notebook has exactly one selectable line on the dashboard, so the
/// selection ranges over the notebooks.
pub proof fn lemma_one_selectable_row_per_notebook(states: Seq<NotebookGitState>)
    ensures
        count_set(notebook_flags(spec_build_rows(states)), spec_build_rows(states).len() as int) == states.len(),
    decreases states.len(),
{
    if states.len() > 0 {
        lemma_one_selectable_row_per_notebook(states.drop_last());
        let a = spec_build_rows(states.drop_last());
        let b = notebook_rows(states.last());
        assert(notebook_flags(a + b) =~= notebook_flags(a) + notebook_flags(b));
        lemma_one_notebook_line(states.last());
        lemma_count_append(notebook_flags(a), notebook_flags(b), b.len() as int);
    }
}

} // verus!
