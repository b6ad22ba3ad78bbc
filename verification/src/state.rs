//! The application's small state enums: the input mode, which panel has
//! focus (and how focus moves), how the notes list is ordered, and where
//! the update modal is in its lifecycle.
use vstd::prelude::*;
use crate::text::{spec_to_lowercase, spec_trim, starts_with, starts_with_str, string_of, to_lowercase, trim};

verus! {

broadcast use vstd::string::group_string_axioms;

#[derive(Debug, Clone, Copy, PartialEq, Eq, Structural)]
pub enum Mode {
    Normal,
    Insert,
    Edit,
    Visual,
}

/// The panel that has focus, shallowest first.
#[derive(Debug, Clone, Copy, PartialEq, Eq, Structural)]
pub enum Focus {
    Notebooks,
    Notes,
    Preview,
}

pub open spec fn spec_focus_next(f: Focus) -> Focus {
    match f {
        Focus::Notebooks => Focus::Notes,
        Focus::Notes => Focus::Preview,
        Focus::Preview => Focus::Notebooks,
    }
}

pub open spec fn spec_focus_forward(f: Focus) -> Focus {
    match f {
        Focus::Notebooks => Focus::Notes,
        Focus::Notes | Focus::Preview => Focus::Preview,
    }
}

pub open spec fn spec_focus_backward(f: Focus) -> Focus {
    match f {
        Focus::Notebooks | Focus::Notes => Focus::Notebooks,
        Focus::Preview => Focus::Notes,
    }
}

pub open spec fn spec_session_str(f: Focus) -> Seq<char> {
    match f {
        Focus::Notebooks => "notebooks"@,
        Focus::Notes => "notes"@,
        Focus::Preview => "preview"@,
    }
}

impl Focus {
    /// The full cycle `tab` walks: notebooks, notes, preview, notebooks.
    pub fn next(self) -> (r: Self)
        ensures
            r == spec_focus_next(self),
    {
        match self {
            Focus::Notebooks => Focus::Notes,
            Focus::Notes => Focus::Preview,
            Focus::Preview => Focus::Notebooks,
        }
    }

    /// One level deeper (`l` / Right / Enter); stays at the deepest level.
    pub fn forward(self) -> (r: Self)
        ensures
            r == spec_focus_forward(self),
    {
        match self {
            Focus::Notebooks => Focus::Notes,
            Focus::Notes | Focus::Preview => Focus::Preview,
        }
    }

    /// One level back (`h` / Left); stays at the shallowest level.
    pub fn backward(self) -> (r: Self)
        ensures
            r == spec_focus_backward(self),
    {
        match self {
            Focus::Notebooks | Focus::Notes => Focus::Notebooks,
            Focus::Preview => Focus::Notes,
        }
    }

    /// The lowercase name a focus is remembered by between sessions.
    pub fn as_session_str(self) -> (r: &'static str)
        ensures
            r@ == spec_session_str(self),
    {
        match self {
            Focus::Notebooks => "notebooks",
            Focus::Notes => "notes",
            Focus::Preview => "preview",
        }
    }

    /// The focus remembered under `s`, if `s` names one exactly.
    pub fn from_session_str(s: &str) -> (r: Option<Self>)
        ensures
            r matches Some(f) ==> s@ == spec_session_str(f),
            r is None ==> forall|f: Focus| s@ != spec_session_str(f),
    {
        let v = crate::text::chars_of(s);
        if crate::text::eq_str(&v, "notebooks") {
            Some(Focus::Notebooks)
        } else if crate::text::eq_str(&v, "notes") {
            Some(Focus::Notes)
        } else if crate::text::eq_str(&v, "preview") {
            Some(Focus::Preview)
        } else {
            proof {
                assert forall|f: Focus| s@ != spec_session_str(f) by {
                    match f {
                        Focus::Notebooks => {},
                        Focus::Notes => {},
                        Focus::Preview => {},
                    }
                }
            }
            None
        }
    }
}

/// `tab` comes back to where it started after visiting every panel once.
pub proof fn lemma_focus_cycle(f: Focus)
    ensures
        spec_focus_next(spec_focus_next(spec_focus_next(f))) == f,
        spec_focus_next(f) != f,
{
}

/// Moving one level deeper and back again returns to the same panel
/// (except from the deepest one, where `forward` stays put), and the other
/// way round (except from the shallowest one).
pub proof fn lemma_focus_forward_backward(f: Focus)
    ensures
        f != Focus::Preview ==> spec_focus_backward(spec_focus_forward(f)) == f,
        f != Focus::Notebooks ==> spec_focus_forward(spec_focus_backward(f)) == f,
        spec_focus_forward(Focus::Preview) == Focus::Preview,
        spec_focus_backward(Focus::Notebooks) == Focus::Notebooks,
{
}

/// A remembered focus reads back as itself, and no two panels share a name.
pub proof fn lemma_session_str_round_trip(f: Focus, g: Focus)
    ensures
        spec_session_str(f) == spec_session_str(g) ==> f == g,
{
    reveal_strlit("notebooks");
    reveal_strlit("notes");
    reveal_strlit("preview");
    if f != g && spec_session_str(f) == spec_session_str(g) {
        match (f, g) {
            (Focus::Notebooks, Focus::Notes) | (Focus::Notes, Focus::Notebooks) => {
                assert(spec_session_str(Focus::Notebooks).len() != spec_session_str(Focus::Notes).len());
            },
            (Focus::Notebooks, Focus::Preview) | (Focus::Preview, Focus::Notebooks) => {
                assert(spec_session_str(Focus::Notebooks).len() != spec_session_str(Focus::Preview).len());
            },
            _ => {
                assert(spec_session_str(Focus::Notes)[0] != spec_session_str(Focus::Preview)[0]);
            },
        }
    }
}

/// How the notes list is ordered; cycled by the sort action.
#[derive(Debug, Clone, Copy, PartialEq, Eq, Structural)]
pub enum NoteSort {
    Filename,
    TitleAz,
    DateNewest,
}

pub open spec fn spec_sort_next(s: NoteSort) -> NoteSort {
    match s {
        NoteSort::Filename => NoteSort::TitleAz,
        NoteSort::TitleAz => NoteSort::DateNewest,
        NoteSort::DateNewest => NoteSort::Filename,
    }
}

pub open spec fn spec_sort_label(s: NoteSort) -> Seq<char> {
    match s {
        NoteSort::Filename => "filename"@,
        NoteSort::TitleAz => "title A-Z"@,
        NoteSort::DateNewest => "date (newest first)"@,
    }
}

/// The order a configured sort name selects: lowercased and trimmed, a
/// name starting with `title` or `date` picks that order, anything else
/// the filename order.
pub open spec fn spec_sort_from_config(s: Seq<char>) -> NoteSort {
    let l = spec_to_lowercase(spec_trim(s));
    if starts_with(l, "title"@) {
        NoteSort::TitleAz
    } else if starts_with(l, "date"@) {
        NoteSort::DateNewest
    } else {
        NoteSort::Filename
    }
}

impl NoteSort {
    pub fn next(self) -> (r: Self)
        ensures
            r == spec_sort_next(self),
    {
        match self {
            NoteSort::Filename => NoteSort::TitleAz,
            NoteSort::TitleAz => NoteSort::DateNewest,
            NoteSort::DateNewest => NoteSort::Filename,
        }
    }

    pub fn label(self) -> (r: &'static str)
        ensures
            r@ == spec_sort_label(self),
    {
        match self {
            NoteSort::Filename => "filename",
            NoteSort::TitleAz => "title A-Z",
            NoteSort::DateNewest => "date (newest first)",
        }
    }

    /// Reads `general.default_note_sort` leniently (see
    /// `spec_sort_from_config`); an unrecognized name falls back to the
    /// filename order rather than refusing to start.
    pub fn from_config_str(s: &str) -> (r: Self)
        ensures
            r == spec_sort_from_config(s@),
    {
        let v = crate::text::chars_of(s);
        let t = trim(&v);
        let ts = string_of(&t);
        let l = to_lowercase(ts.as_str());
        if starts_with_str(&l, "title") {
            NoteSort::TitleAz
        } else if starts_with_str(&l, "date") {
            NoteSort::DateNewest
        } else {
            NoteSort::Filename
        }
    }
}

impl Default for NoteSort {
    fn default() -> (r: Self)
        ensures
            r == NoteSort::Filename,
    {
        NoteSort::Filename
    }
}

/// Cycling the sort order visits all three orders and comes back.
pub proof fn lemma_sort_cycle(s: NoteSort)
    ensures
        spec_sort_next(spec_sort_next(spec_sort_next(s))) == s,
        spec_sort_next(s) != s,
{
}

/// Where the update modal is: checking, an update available (its
/// version), up to date, downloading, installed (its version), or failed
/// (why).
#[derive(Debug, Clone)]
pub enum UpdateState {
    Checking,
    Available(String),
    UpToDate,
    Downloading,
    Installed(String),
    Error(String),
}

} // verus!
