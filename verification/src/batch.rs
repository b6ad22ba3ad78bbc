//! Moving or copying a visual-mode selection: tallying how the entries
//! went and the status line that reports it.
use vstd::prelude::*;
use crate::text::{chars_of, push_all, push_decimal, push_str, spec_decimal, string_of};

verus! {

broadcast use vstd::string::group_string_axioms;

/// How many of the `outcomes` (one per entry, `Some` holding an error's
/// text) succeeded and failed, and the first error.
pub open spec fn spec_tally(outcomes: Seq<Option<Seq<char>>>) -> (nat, nat, Option<Seq<char>>)
    decreases outcomes.len(),
{
    if outcomes.len() == 0 {
        (0, 0, None)
    } else {
        let (ok, failed, first) = spec_tally(outcomes.drop_last());
        match outcomes.last() {
            None => (ok + 1, failed, first),
            Some(e) => (ok, failed + 1, if first is Some { first } else { Some(e) }),
        }
    }
}

pub open spec fn opt_chars(o: Option<String>) -> Option<Seq<char>> {
    match o {
        Some(s) => Some(s@),
        None => None,
    }
}

pub open spec fn outcomes_view(v: Seq<Option<String>>) -> Seq<Option<Seq<char>>> {
    v.map_values(|o: Option<String>| opt_chars(o))
}

/// The status line after a batch of `count` entries went to `target`:
/// `moved 3 items to 'work'` (`item` for one) when all went, else
/// `moved 2/3 to 'work', 1 failed` followed by ` (` the first error `)`.
pub open spec fn spec_batch_status(copy: bool, count: nat, ok: nat, failed: nat, target: Seq<char>, first_err: Option<Seq<char>>) -> Seq<char> {
    let verb = if copy { "copied"@ } else { "moved"@ };
    if failed == 0 {
        verb + " "@ + spec_decimal(count) + " item"@ + (if count == 1 { ""@ } else { "s"@ }) + " to '"@ + target
            + "'"@
    } else {
        verb + " "@ + spec_decimal(ok) + "/"@ + spec_decimal(count) + " to '"@ + target + "', "@
            + spec_decimal(failed) + " failed"@ + match first_err {
            Some(e) => " ("@ + e + ")"@,
            None => ""@,
        }
    }
}

/// Counts the successes and failures of a batch and keeps the first error.
pub fn tally(outcomes: &Vec<Option<String>>) -> (r: (u32, u32, Option<String>))
    requires
        outcomes@.len() <= u32::MAX,
    ensures
        (r.0 as nat, r.1 as nat, opt_chars(r.2)) == spec_tally(outcomes_view(outcomes@)),
{
    let ghost v = outcomes_view(outcomes@);
    let mut ok: u32 = 0;
    let mut failed: u32 = 0;
    let mut first: Option<String> = None;
    let mut i: usize = 0;
    while i < outcomes.len()
        invariant
            v == outcomes_view(outcomes@),
            outcomes@.len() <= u32::MAX,
            0 <= i <= outcomes@.len(),
            ok + failed == i,
            (ok as nat, failed as nat, opt_chars(first)) == spec_tally(v.take(i as int)),
        decreases outcomes@.len() - i,
    {
        assert(v.take(i as int + 1).drop_last() =~= v.take(i as int));
        assert(v.take(i as int + 1).last() == opt_chars(outcomes@[i as int]));
        match &outcomes[i] {
            None => {
                ok = ok + 1;
            },
            Some(e) => {
                failed = failed + 1;
                if first.is_none() {
                    first = Some(e.clone());
                }
            },
        }
        i = i + 1;
    }
    assert(v.take(i as int) =~= v);
    (ok, failed, first)
}

/// The status line after a batch move (or copy, `copy`) to `target`.
pub fn batch_status(copy: bool, count: usize, ok: u32, failed: u32, target: &str, first_err: Option<&str>) -> (r: String)
    ensures
        r@ == spec_batch_status(
            copy,
            count as nat,
            ok as nat,
            failed as nat,
            target@,
            match first_err {
                Some(e) => Some(e@),
                None => None,
            },
        ),
{
    let mut out: Vec<char> = if copy {
        chars_of("copied")
    } else {
        chars_of("moved")
    };
    push_str(&mut out, " ");
    if failed == 0 {
        push_decimal(&mut out, count);
        push_str(&mut out, " item");
        if count != 1 {
            push_str(&mut out, "s");
        }
        push_str(&mut out, " to '");
        push_str(&mut out, target);
        push_str(&mut out, "'");
    } else {
        push_decimal(&mut out, ok as usize);
        push_str(&mut out, "/");
        push_decimal(&mut out, count);
        push_str(&mut out, " to '");
        push_str(&mut out, target);
        push_str(&mut out, "', ");
        push_decimal(&mut out, failed as usize);
        push_str(&mut out, " failed");
        match first_err {
            Some(e) => {
                push_str(&mut out, " (");
                push_str(&mut out, e);
                push_str(&mut out, ")");
            },
            None => {},
        }
    }
    proof {
        reveal_strlit("");
    }
    string_of(&out)
}

// ---------------------------------------------------------------------------
// Starting a delete, a move or a copy
// ---------------------------------------------------------------------------

/// How many of the entries are notes and how many folders (`true` marks a
/// folder).
pub open spec fn spec_count_kinds(is_folder: Seq<bool>) -> (nat, nat)
    decreases is_folder.len(),
{
    if is_folder.len() == 0 {
        (0, 0)
    } else {
        let (n, f) = spec_count_kinds(is_folder.drop_last());
        if is_folder.last() { (n, f + 1) } else { (n + 1, f) }
    }
}

pub fn count_kinds(is_folder: &[bool]) -> (r: (usize, usize))
    ensures
        (r.0 as nat, r.1 as nat) == spec_count_kinds(is_folder@),
{
    let mut notes: usize = 0;
    let mut folders: usize = 0;
    let mut i: usize = 0;
    while i < is_folder.len()
        invariant
            0 <= i <= is_folder@.len(),
            notes + folders == i,
            (notes as nat, folders as nat) == spec_count_kinds(is_folder@.take(i as int)),
        decreases is_folder@.len() - i,
    {
        assert(is_folder@.take(i as int + 1).drop_last() =~= is_folder@.take(i as int));
        if is_folder[i] {
            folders = folders + 1;
        } else {
            notes = notes + 1;
        }
        i = i + 1;
    }
    assert(is_folder@.take(i as int) =~= is_folder@);
    (notes, folders)
}

/// The question before deleting a visual-mode selection.
pub open spec fn spec_batch_delete_prompt(notes: nat, folders: nat) -> Seq<char> {
    "Delete "@ + spec_decimal(notes) + " note(s) and "@ + spec_decimal(folders)
        + " folder(s) (and everything inside them)? Restorable with leader+u."@
}

pub fn batch_delete_prompt(notes: usize, folders: usize) -> (r: String)
    ensures
        r@ == spec_batch_delete_prompt(notes as nat, folders as nat),
{
    let mut out = chars_of("Delete ");
    push_decimal(&mut out, notes);
    push_str(&mut out, " note(s) and ");
    push_decimal(&mut out, folders);
    push_str(&mut out, " folder(s) (and everything inside them)? Restorable with leader+u.");
    string_of(&out)
}

/// The question before deleting one note (by its file stem) or one folder.
pub open spec fn spec_delete_prompt(folder: bool, name: Seq<char>) -> Seq<char> {
    if folder {
        "Delete folder '"@ + name + "' and everything inside it? Restorable with leader+u."@
    } else {
        "Delete note '"@ + name + "'? Restorable with leader+u."@
    }
}

pub fn delete_prompt(folder: bool, name: &str) -> (r: String)
    ensures
        r@ == spec_delete_prompt(folder, name@),
{
    let mut out = if folder {
        chars_of("Delete folder '")
    } else {
        chars_of("Delete note '")
    };
    push_str(&mut out, name);
    if folder {
        push_str(&mut out, "' and everything inside it? Restorable with leader+u.");
    } else {
        push_str(&mut out, "'? Restorable with leader+u.");
    }
    string_of(&out)
}

/// What a move or copy is about: a visual-mode selection of `n` entries,
/// or one note (by title) or folder (by name).
#[derive(Debug, Clone, Copy, PartialEq, Eq)]
pub enum MoveSubject<'a> {
    Selection(usize),
    Named(&'a str),
}

/// The title of the prompt asking where to move (or `copy`) the subject:
/// ` Move 3 items to ` or ` Copy 'Ideas' to `.
pub open spec fn spec_move_prompt_title(copy: bool, subject: MoveSubject) -> Seq<char> {
    " "@ + (if copy { "Copy"@ } else { "Move"@ }) + " "@ + match subject {
        MoveSubject::Selection(n) => spec_decimal(n as nat) + " items"@,
        MoveSubject::Named(name) => "'"@ + name@ + "'"@,
    } + " to "@
}

pub fn move_prompt_title(copy: bool, subject: MoveSubject) -> (r: String)
    ensures
        r@ == spec_move_prompt_title(copy, subject),
{
    let mut out = if copy {
        chars_of(" Copy ")
    } else {
        chars_of(" Move ")
    };
    proof {
        reveal_strlit(" Copy ");
        reveal_strlit(" Move ");
        reveal_strlit(" ");
        reveal_strlit("Copy");
        reveal_strlit("Move");
    }
    match subject {
        MoveSubject::Selection(n) => {
            push_decimal(&mut out, n);
            push_str(&mut out, " items");
        },
        MoveSubject::Named(name) => {
            push_str(&mut out, "'");
            push_str(&mut out, name);
            push_str(&mut out, "'");
        },
    }
    push_str(&mut out, " to ");
    string_of(&out)
}

/// The status line after restoring the last delete: how many entries came
/// back, and how many failed if any did.
pub open spec fn spec_restore_status(ok: nat, failed: nat) -> Seq<char> {
    "restored "@ + spec_decimal(ok) + " item(s)"@ + if failed == 0 {
        ""@
    } else {
        ", "@ + spec_decimal(failed) + " failed"@
    }
}

pub fn restore_status(ok: u32, failed: u32) -> (r: String)
    ensures
        r@ == spec_restore_status(ok as nat, failed as nat),
{
    let mut out = chars_of("restored ");
    push_decimal(&mut out, ok as usize);
    push_str(&mut out, " item(s)");
    if failed != 0 {
        push_str(&mut out, ", ");
        push_decimal(&mut out, failed as usize);
        push_str(&mut out, " failed");
    }
    proof {
        reveal_strlit("");
    }
    string_of(&out)
}

} // verus!
