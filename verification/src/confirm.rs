//! What confirming a prompt decides: from the prompt being answered, the
//! typed text (trimmed) and what is selected, the one thing to do next (the
//! application carries it out on the notebook store, the git repository or
//! the configuration). Every prompt closes the same way: back to normal
//! mode, nothing pending, no custom title.
use vstd::prelude::*;
use crate::navigation::{looks_like_git_url, looks_like_path, spec_looks_like_git_url, spec_looks_like_path};
use crate::prompts::{first_free_default_name, name_taken, unique_default_notebook_name};
use crate::state::Mode;
use crate::text::{occurs_at, chars_of, eq_str, push_all, push_str, spec_trim, string_of, trim};
use crate::types::PendingInput;

verus! {

broadcast use vstd::string::group_string_axioms;

/// A GENERAL settings row.
#[derive(Debug, Clone, Copy, PartialEq, Eq, Structural)]
pub enum GeneralField {
    DefaultNotebook,
    Editor,
    DailyTemplate,
    UseFavoriteEditor,
    MouseDragSelection,
    ShowHints,
    RememberLastSession,
}

/// A GIT settings row.
#[derive(Debug, Clone, Copy, PartialEq, Eq, Structural)]
pub enum GitField {
    AutoSyncEvery,
    RemoteTemplate,
    CommitPrefix,
    Remote,
    Branch,
    AutoCommit,
    AutoPush,
    SignCommits,
    AutoSync,
}

/// What confirming a prompt does; `S` is the text type (a `String`, or its
/// characters in contracts).
#[derive(Debug, Clone, PartialEq, Eq)]
pub enum ConfirmAction<S> {
    /// Nothing (no prompt, or nothing selected to act on).
    Nothing,
    /// Only tells the user something in the status bar.
    Notify(S),
    /// A new note: the typed title (none: the current local time), created
    /// at once with the scratchpad's text when `with_body`, else after
    /// picking a template.
    NewNote { title: Option<S>, with_body: bool },
    CreateFolder(S),
    /// A new notebook cloned from a git URL.
    ImportFromUrl(S),
    /// An existing folder adopted as a notebook.
    AdoptPath(S),
    CreateNotebook(S),
    RenameNote(S),
    RenameNotebook(S),
    /// Jump to the best search hit for the text.
    Jump(S),
    SetRemote(S),
    SetNotebookRemote { notebook: S, url: S },
    /// A notebook's `auto_sync_every` override (none: inherit).
    SetNotebookAutoSync { notebook: S, every: Option<u32> },
    SetGeneral { field: GeneralField, value: S },
    SetGitAutoSync(u32),
    SetGitText { field: GitField, value: S },
    CreateSnippet(S),
    SetSnippetLabel { trigger: S, label: Option<S> },
    /// Tells that the move/copy was cancelled and drops the pending batch.
    CancelMoveOrCopy(S),
    MoveOrCopy(S),
}

/// What the prompt's answer is judged against.
pub struct ConfirmContext<'a> {
    /// A scratchpad's text is waiting to become a note.
    pub has_scratch_body: bool,
    pub has_notebook: bool,
    pub has_note: bool,
    /// The names of the existing notebooks.
    pub notebook_names: &'a [String],
    /// The notebook opened in the settings' NOTEBOOKS section.
    pub notebook_drill: Option<&'a str>,
    /// The snippet opened in the settings' SNIPPETS section.
    pub snippet_drill: Option<&'a str>,
    pub snippet_triggers: &'a [String],
    /// The GENERAL and GIT rows selected in the settings.
    pub general_field: GeneralField,
    pub git_field: GitField,
}

/// What confirming a prompt leaves behind.
pub struct ConfirmOutcome {
    pub action: ConfirmAction<String>,
    /// The settings popup is shown again (the prompt came from it).
    pub show_settings: bool,
    pub mode: Mode,
    pub pending: Option<PendingInput>,
    pub input_title: Option<String>,
}

// ---------------------------------------------------------------------------
// Whole numbers
// ---------------------------------------------------------------------------

pub open spec fn is_digit(c: char) -> bool {
    '0' <= c && c <= '9'
}

/// The number that the decimal digits `d` write.
pub open spec fn digits_value(d: Seq<char>) -> int
    decreases d.len(),
{
    if d.len() == 0 {
        0
    } else {
        digits_value(d.drop_last()) * 10 + (d.last() as int - '0' as int)
    }
}

/// std's `u32::from_str`: an optional `+`, then one or more ASCII digits
/// whose value fits in 32 bits.
pub open spec fn all_digits(d: Seq<char>) -> bool {
    forall|i: int| 0 <= i < d.len() ==> is_digit(#[trigger] d[i])
}

/// `s` without one leading `+`.
pub open spec fn unsigned_part(s: Seq<char>) -> Seq<char> {
    if s.len() > 0 && s[0] == '+' { s.skip(1) } else { s }
}

pub open spec fn spec_parse_u32(s: Seq<char>) -> Option<u32> {
    let d = unsigned_part(s);
    if d.len() > 0 && all_digits(d) && digits_value(d) <= u32::MAX {
        Some(digits_value(d) as u32)
    } else {
        None
    }
}

pub fn parse_u32(s: &[char]) -> (r: Option<u32>)
    ensures
        r == spec_parse_u32(s@),
{
    let start: usize = if s.len() > 0 && s[0] == '+' {
        1
    } else {
        0
    };
    let ghost d = unsigned_part(s@);
    assert(d == s@.skip(start as int));
    assert(d.len() == s@.len() - start);
    if start == s.len() {
        return None;
    }
    let mut v: u64 = 0;
    let mut over = false;
    let mut digits = true;
    let mut i = start;
    while i < s.len()
        invariant
            start <= i <= s@.len(),
            d == s@.skip(start as int),
            digits == (forall|k: int| 0 <= k < i - start ==> is_digit(#[trigger] d[k])),
            digits && !over ==> v == digits_value(d.take(i - start)),
            digits && !over ==> v <= u32::MAX,
            digits && over ==> digits_value(d.take(i - start)) > u32::MAX,
        decreases s@.len() - i,
    {
        let c = s[i];
        let ghost j = i - start;
        assert(d[j] == c);
        assert(d.take(j + 1).drop_last() =~= d.take(j));
        if digits && '0' <= c && c <= '9' {
            let dg = (c as u32 - '0' as u32) as u64;
            if !over {
                let nv = v * 10 + dg;
                if nv > 0xffff_ffff {
                    over = true;
                } else {
                    v = nv;
                }
            }
        } else {
            digits = false;
        }
        i = i + 1;
    }
    assert(d.take(d.len() as int) =~= d);
    assert(i - start == d.len());
    if digits && !over {
        assert(forall|k: int| 0 <= k < d.len() ==> is_digit(#[trigger] d[k]));
        assert(v == digits_value(d));
        Some(v as u32)
    } else if digits {
        assert(digits_value(d) > u32::MAX);
        None
    } else {
        assert(!(forall|k: int| 0 <= k < d.len() ==> is_digit(#[trigger] d[k])));
        None
    }
}

// ---------------------------------------------------------------------------
// The decision
// ---------------------------------------------------------------------------

pub open spec fn opt_text(o: Option<String>) -> Option<Seq<char>> {
    match o {
        Some(s) => Some(s@),
        None => None,
    }
}

/// An action's texts as characters.
pub open spec fn action_view(a: ConfirmAction<String>) -> ConfirmAction<Seq<char>> {
    match a {
        ConfirmAction::Nothing => ConfirmAction::Nothing,
        ConfirmAction::Notify(s) => ConfirmAction::Notify(s@),
        ConfirmAction::NewNote { title, with_body } => ConfirmAction::NewNote { title: opt_text(title), with_body },
        ConfirmAction::CreateFolder(s) => ConfirmAction::CreateFolder(s@),
        ConfirmAction::ImportFromUrl(s) => ConfirmAction::ImportFromUrl(s@),
        ConfirmAction::AdoptPath(s) => ConfirmAction::AdoptPath(s@),
        ConfirmAction::CreateNotebook(s) => ConfirmAction::CreateNotebook(s@),
        ConfirmAction::RenameNote(s) => ConfirmAction::RenameNote(s@),
        ConfirmAction::RenameNotebook(s) => ConfirmAction::RenameNotebook(s@),
        ConfirmAction::Jump(s) => ConfirmAction::Jump(s@),
        ConfirmAction::SetRemote(s) => ConfirmAction::SetRemote(s@),
        ConfirmAction::SetNotebookRemote { notebook, url } => ConfirmAction::SetNotebookRemote {
            notebook: notebook@,
            url: url@,
        },
        ConfirmAction::SetNotebookAutoSync { notebook, every } => ConfirmAction::SetNotebookAutoSync {
            notebook: notebook@,
            every,
        },
        ConfirmAction::SetGeneral { field, value } => ConfirmAction::SetGeneral { field, value: value@ },
        ConfirmAction::SetGitAutoSync(n) => ConfirmAction::SetGitAutoSync(n),
        ConfirmAction::SetGitText { field, value } => ConfirmAction::SetGitText { field, value: value@ },
        ConfirmAction::CreateSnippet(s) => ConfirmAction::CreateSnippet(s@),
        ConfirmAction::SetSnippetLabel { trigger, label } => ConfirmAction::SetSnippetLabel {
            trigger: trigger@,
            label: opt_text(label),
        },
        ConfirmAction::CancelMoveOrCopy(s) => ConfirmAction::CancelMoveOrCopy(s@),
        ConfirmAction::MoveOrCopy(s) => ConfirmAction::MoveOrCopy(s@),
    }
}

pub open spec fn not_a_number(v: Seq<char>) -> ConfirmAction<Seq<char>> {
    ConfirmAction::Notify("'"@ + v + "' isn't a whole number"@)
}

/// What confirming the prompt `kind` with the trimmed text `v` does.
pub open spec fn spec_confirm(kind: Option<PendingInput>, v: Seq<char>, c: ConfirmContext) -> ConfirmAction<Seq<char>> {
    match kind {
        Some(PendingInput::NewNote) => ConfirmAction::NewNote {
            title: if v.len() == 0 { None } else { Some(v) },
            with_body: c.has_scratch_body,
        },
        Some(PendingInput::NewFolder) => if v.len() == 0 {
            ConfirmAction::Notify("new folder cancelled (name can't be empty)"@)
        } else if c.has_notebook {
            ConfirmAction::CreateFolder(v)
        } else {
            ConfirmAction::Notify("create a notebook first"@)
        },
        Some(PendingInput::NewNotebook) => if v.len() > 0 && spec_looks_like_git_url(v) {
            ConfirmAction::ImportFromUrl(v)
        } else if v.len() > 0 && spec_looks_like_path(v) {
            ConfirmAction::AdoptPath(v)
        } else if v.len() == 0 {
            ConfirmAction::CreateNotebook(first_free_default_name(c.notebook_names@))
        } else {
            ConfirmAction::CreateNotebook(v)
        },
        Some(PendingInput::RenameNote) => if v.len() == 0 {
            ConfirmAction::Notify("rename cancelled (title can't be empty)"@)
        } else if c.has_notebook && c.has_note {
            ConfirmAction::RenameNote(v)
        } else {
            ConfirmAction::Nothing
        },
        Some(PendingInput::RenameNotebook) => if v.len() == 0 {
            ConfirmAction::Notify("rename cancelled (name can't be empty)"@)
        } else if c.has_notebook {
            ConfirmAction::RenameNotebook(v)
        } else {
            ConfirmAction::Nothing
        },
        Some(PendingInput::Search) => if v.len() == 0 {
            ConfirmAction::Notify("jump cancelled"@)
        } else {
            ConfirmAction::Jump(v)
        },
        Some(PendingInput::SetRemote) => if v.len() == 0 {
            ConfirmAction::Notify("remote cancelled (empty)"@)
        } else if c.has_notebook {
            ConfirmAction::SetRemote(v)
        } else {
            ConfirmAction::Nothing
        },
        Some(PendingInput::SettingsNotebookRemote) => match c.notebook_drill {
            None => ConfirmAction::Nothing,
            Some(name) => if v.len() == 0 {
                ConfirmAction::Notify("remote unchanged (empty)"@)
            } else if name_taken(c.notebook_names@, name@) {
                ConfirmAction::SetNotebookRemote { notebook: name@, url: v }
            } else {
                ConfirmAction::Nothing
            },
        },
        Some(PendingInput::SettingsNotebookAutoSyncEvery) => match c.notebook_drill {
            None => ConfirmAction::Nothing,
            Some(name) => if v.len() == 0 {
                ConfirmAction::SetNotebookAutoSync { notebook: name@, every: None }
            } else {
                match spec_parse_u32(v) {
                    Some(n) => ConfirmAction::SetNotebookAutoSync { notebook: name@, every: Some(n) },
                    None => not_a_number(v),
                }
            },
        },
        Some(PendingInput::SettingsGeneralText) => if v.len() == 0 {
            ConfirmAction::Notify("unchanged (empty)"@)
        } else {
            ConfirmAction::SetGeneral { field: c.general_field, value: v }
        },
        Some(PendingInput::SettingsGitText) => match c.git_field {
            GitField::AutoSyncEvery => match spec_parse_u32(v) {
                Some(n) => ConfirmAction::SetGitAutoSync(n),
                None => not_a_number(v),
            },
            GitField::RemoteTemplate => ConfirmAction::SetGitText { field: GitField::RemoteTemplate, value: v },
            GitField::CommitPrefix | GitField::Remote | GitField::Branch => if v.len() == 0 {
                ConfirmAction::Notify("unchanged (empty)"@)
            } else {
                ConfirmAction::SetGitText { field: c.git_field, value: v }
            },
            _ => ConfirmAction::Nothing,
        },
        Some(PendingInput::SettingsSnippetTrigger) => if v.len() == 0 {
            ConfirmAction::Notify("new snippet cancelled (trigger can't be empty)"@)
        } else if name_taken(c.snippet_triggers@, v) {
            ConfirmAction::Notify("a snippet with trigger '"@ + v + "' already exists"@)
        } else {
            ConfirmAction::CreateSnippet(v)
        },
        Some(PendingInput::SettingsSnippetLabel) => match c.snippet_drill {
            None => ConfirmAction::Nothing,
            Some(trigger) => ConfirmAction::SetSnippetLabel {
                trigger: trigger@,
                label: if v.len() == 0 { None } else { Some(v) },
            },
        },
        Some(PendingInput::MoveOrCopy) => if v.len() == 0 {
            ConfirmAction::CancelMoveOrCopy("move/copy cancelled (empty)"@)
        } else {
            ConfirmAction::MoveOrCopy(v)
        },
        _ => ConfirmAction::Nothing,
    }
}

/// The status text that an action only reports (a notice, or the
/// cancelled move/copy).
pub open spec fn reported_text(a: ConfirmAction<Seq<char>>) -> Option<Seq<char>> {
    match a {
        ConfirmAction::Notify(t) => Some(t),
        ConfirmAction::CancelMoveOrCopy(t) => Some(t),
        _ => None,
    }
}

/// Whether the word `w` occurs in `t`.
pub open spec fn mentions(t: Seq<char>, w: Seq<char>) -> bool {
    exists|k: int| occurs_at(t, w, k)
}

proof fn lemma_mentions_at(t: Seq<char>, w: Seq<char>, k: int)
    requires
        0 <= k,
        k + w.len() <= t.len(),
        forall|i: int| 0 <= i < w.len() ==> t[k + i] == w[i],
    ensures
        mentions(t, w),
{
    assert(t.subrange(k, k + w.len()) =~= w);
    assert(occurs_at(t, w, k));
}

/// An empty answer to the new-folder, rename, jump, remote or move/copy
/// prompt does nothing but report, in a status text that says it was
/// cancelled.
pub proof fn lemma_empty_answer_cancels(kind: PendingInput, c: ConfirmContext)
    requires
        kind == PendingInput::NewFolder || kind == PendingInput::RenameNote || kind == PendingInput::RenameNotebook
            || kind == PendingInput::Search || kind == PendingInput::SetRemote || kind == PendingInput::MoveOrCopy,
    ensures
        reported_text(spec_confirm(Some(kind), Seq::empty(), c)) matches Some(t) && mentions(t, "cancelled"@),
{
    reveal_strlit("cancelled");
    let w = "cancelled"@;
    let t = reported_text(spec_confirm(Some(kind), Seq::empty(), c))->0;
    if kind == PendingInput::NewFolder {
        reveal_strlit("new folder cancelled (name can't be empty)");
        lemma_mentions_at(t, w, 11);
    } else if kind == PendingInput::RenameNote {
        reveal_strlit("rename cancelled (title can't be empty)");
        lemma_mentions_at(t, w, 7);
    } else if kind == PendingInput::RenameNotebook {
        reveal_strlit("rename cancelled (name can't be empty)");
        lemma_mentions_at(t, w, 7);
    } else if kind == PendingInput::Search {
        reveal_strlit("jump cancelled");
        lemma_mentions_at(t, w, 5);
    } else if kind == PendingInput::SetRemote {
        reveal_strlit("remote cancelled (empty)");
        lemma_mentions_at(t, w, 7);
    } else {
        reveal_strlit("move/copy cancelled (empty)");
        lemma_mentions_at(t, w, 10);
    }
}

/// Whether the prompt was opened from the settings popup.
pub open spec fn from_settings(kind: Option<PendingInput>) -> bool {
    match kind {
        Some(PendingInput::SettingsNotebookRemote) | Some(PendingInput::SettingsNotebookAutoSyncEvery)
        | Some(PendingInput::SettingsGeneralText) | Some(PendingInput::SettingsGitText)
        | Some(PendingInput::SettingsSnippetTrigger) | Some(PendingInput::SettingsSnippetLabel) => true,
        _ => false,
    }
}

fn text_of(lit: &str) -> (s: String)
    ensures
        s@ == lit@,
{
    string_of(&chars_of(lit))
}

fn quoted(pre: &str, v: &[char], post: &str) -> (s: String)
    ensures
        s@ == pre@ + v@ + post@,
{
    let mut out = chars_of(pre);
    push_all(&mut out, v);
    push_str(&mut out, post);
    string_of(&out)
}

fn listed(names: &[String], v: &[char]) -> (b: bool)
    ensures
        b == name_taken(names@, v@),
{
    let mut i: usize = 0;
    while i < names.len()
        invariant
            i <= names@.len(),
            forall|j: int| 0 <= j < i ==> (#[trigger] names@[j])@ != v@,
        decreases names@.len() - i,
    {
        if eq_str(v, names[i].as_str()) {
            return true;
        }
        i = i + 1;
    }
    false
}

fn chars_text(v: &[char]) -> (s: String)
    ensures
        s@ == v@,
{
    string_of(v)
}

fn decide(kind: Option<PendingInput>, v: &[char], c: &ConfirmContext) -> (a: ConfirmAction<String>)
    requires
        c.notebook_names@.len() < usize::MAX,
    ensures
        action_view(a) == spec_confirm(kind, v@, *c),
{
    let empty = v.len() == 0;
    match kind {
        Some(PendingInput::NewNote) => ConfirmAction::NewNote {
            title: if empty { None } else { Some(chars_text(v)) },
            with_body: c.has_scratch_body,
        },
        Some(PendingInput::NewFolder) => if empty {
            ConfirmAction::Notify(text_of("new folder cancelled (name can't be empty)"))
        } else if c.has_notebook {
            ConfirmAction::CreateFolder(chars_text(v))
        } else {
            ConfirmAction::Notify(text_of("create a notebook first"))
        },
        Some(PendingInput::NewNotebook) => {
            let text = chars_text(v);
            if !empty && looks_like_git_url(text.as_str()) {
                ConfirmAction::ImportFromUrl(text)
            } else if !empty && looks_like_path(text.as_str()) {
                ConfirmAction::AdoptPath(text)
            } else if empty {
                ConfirmAction::CreateNotebook(unique_default_notebook_name(c.notebook_names))
            } else {
                ConfirmAction::CreateNotebook(text)
            }
        },
        Some(PendingInput::RenameNote) => if empty {
            ConfirmAction::Notify(text_of("rename cancelled (title can't be empty)"))
        } else if c.has_notebook && c.has_note {
            ConfirmAction::RenameNote(chars_text(v))
        } else {
            ConfirmAction::Nothing
        },
        Some(PendingInput::RenameNotebook) => if empty {
            ConfirmAction::Notify(text_of("rename cancelled (name can't be empty)"))
        } else if c.has_notebook {
            ConfirmAction::RenameNotebook(chars_text(v))
        } else {
            ConfirmAction::Nothing
        },
        Some(PendingInput::Search) => if empty {
            ConfirmAction::Notify(text_of("jump cancelled"))
        } else {
            ConfirmAction::Jump(chars_text(v))
        },
        Some(PendingInput::SetRemote) => if empty {
            ConfirmAction::Notify(text_of("remote cancelled (empty)"))
        } else if c.has_notebook {
            ConfirmAction::SetRemote(chars_text(v))
        } else {
            ConfirmAction::Nothing
        },
        Some(PendingInput::SettingsNotebookRemote) => match c.notebook_drill {
            None => ConfirmAction::Nothing,
            Some(name) => if empty {
                ConfirmAction::Notify(text_of("remote unchanged (empty)"))
            } else if listed(c.notebook_names, &chars_of(name)) {
                ConfirmAction::SetNotebookRemote { notebook: text_of(name), url: chars_text(v) }
            } else {
                ConfirmAction::Nothing
            },
        },
        Some(PendingInput::SettingsNotebookAutoSyncEvery) => match c.notebook_drill {
            None => ConfirmAction::Nothing,
            Some(name) => if empty {
                ConfirmAction::SetNotebookAutoSync { notebook: text_of(name), every: None }
            } else {
                match parse_u32(v) {
                    Some(n) => ConfirmAction::SetNotebookAutoSync { notebook: text_of(name), every: Some(n) },
                    None => ConfirmAction::Notify(quoted("'", v, "' isn't a whole number")),
                }
            },
        },
        Some(PendingInput::SettingsGeneralText) => if empty {
            ConfirmAction::Notify(text_of("unchanged (empty)"))
        } else {
            ConfirmAction::SetGeneral { field: c.general_field, value: chars_text(v) }
        },
        Some(PendingInput::SettingsGitText) => match c.git_field {
            GitField::AutoSyncEvery => match parse_u32(v) {
                Some(n) => ConfirmAction::SetGitAutoSync(n),
                None => ConfirmAction::Notify(quoted("'", v, "' isn't a whole number")),
            },
            GitField::RemoteTemplate => ConfirmAction::SetGitText { field: GitField::RemoteTemplate, value: chars_text(v) },
            GitField::CommitPrefix | GitField::Remote | GitField::Branch => if empty {
                ConfirmAction::Notify(text_of("unchanged (empty)"))
            } else {
                ConfirmAction::SetGitText { field: c.git_field, value: chars_text(v) }
            },
            _ => ConfirmAction::Nothing,
        },
        Some(PendingInput::SettingsSnippetTrigger) => if empty {
            ConfirmAction::Notify(text_of("new snippet cancelled (trigger can't be empty)"))
        } else if listed(c.snippet_triggers, v) {
            ConfirmAction::Notify(quoted("a snippet with trigger '", v, "' already exists"))
        } else {
            ConfirmAction::CreateSnippet(chars_text(v))
        },
        Some(PendingInput::SettingsSnippetLabel) => match c.snippet_drill {
            None => ConfirmAction::Nothing,
            Some(trigger) => ConfirmAction::SetSnippetLabel {
                trigger: text_of(trigger),
                label: if empty { None } else { Some(chars_text(v)) },
            },
        },
        Some(PendingInput::MoveOrCopy) => if empty {
            ConfirmAction::CancelMoveOrCopy(text_of("move/copy cancelled (empty)"))
        } else {
            ConfirmAction::MoveOrCopy(chars_text(v))
        },
        _ => ConfirmAction::Nothing,
    }
}

/// Confirms the prompt `kind` with the typed `value` (trimmed): the action
/// to carry out, whether the settings popup comes back, and the prompt
/// closed (normal mode, nothing pending, no custom title).
pub fn confirm_input(kind: Option<PendingInput>, value: &str, c: &ConfirmContext) -> (r: ConfirmOutcome)
    requires
        c.notebook_names@.len() < usize::MAX,
    ensures
        action_view(r.action) == spec_confirm(kind, spec_trim(value@), *c),
        r.show_settings == from_settings(kind),
        r.mode == Mode::Normal,
        r.pending is None,
        r.input_title is None,
{
    let v = trim(&chars_of(value));
    let action = decide(kind, &v, c);
    let show_settings = match kind {
        Some(PendingInput::SettingsNotebookRemote) | Some(PendingInput::SettingsNotebookAutoSyncEvery)
        | Some(PendingInput::SettingsGeneralText) | Some(PendingInput::SettingsGitText)
        | Some(PendingInput::SettingsSnippetTrigger) | Some(PendingInput::SettingsSnippetLabel) => true,
        _ => false,
    };
    ConfirmOutcome { action, show_settings, mode: Mode::Normal, pending: None, input_title: None }
}

// ---------------------------------------------------------------------------
// Answering a yes/no confirmation
// ---------------------------------------------------------------------------

/// What a pending delete removes.
#[derive(Debug, Clone, Copy, PartialEq, Eq, Structural)]
pub enum DeleteTarget {
    Note,
    Notebook,
    Folder,
}

/// The operations waiting for a yes (their details stay with the
/// application).
#[derive(Debug, Clone, Copy, PartialEq, Eq, Structural)]
pub struct PendingConfirm {
    pub delete: Option<DeleteTarget>,
    pub revert: bool,
    pub clear_logs: bool,
    pub batch_delete: bool,
    pub delete_snippet: bool,
    pub notebook_adopt: bool,
}

/// What a key pressed on the confirmation dialog does.
#[derive(Debug, Clone, Copy, PartialEq, Eq, Structural)]
pub enum ConfirmKeyAction {
    /// A notebook delete has its own dialog, which takes the key.
    NotebookDeleteDialog,
    DeleteNote,
    DeleteFolder,
    Revert,
    ClearLogs,
    BatchDelete,
    DeleteSnippet,
    AdoptNotebook,
    /// A yes with nothing pending.
    Nothing,
    /// Any other key: everything pending is dropped.
    Dismiss,
}

pub open spec fn nothing_pending() -> PendingConfirm {
    PendingConfirm {
        delete: None,
        revert: false,
        clear_logs: false,
        batch_delete: false,
        delete_snippet: false,
        notebook_adopt: false,
    }
}

/// The pending operations afterwards, the action, and whether the dialog
/// stays open: a notebook delete goes to its own dialog; a yes runs the
/// first pending operation (a note or folder delete, a revert, clearing the
/// logs, a batch delete, a snippet delete, adopting a folder as a notebook)
/// and takes only it off; any other key drops them all. The dialog closes
/// except for a notebook delete.
pub open spec fn spec_confirm_key_step(p: PendingConfirm, yes: bool) -> (PendingConfirm, ConfirmKeyAction, bool) {
    if p.delete == Some(DeleteTarget::Notebook) {
        (p, ConfirmKeyAction::NotebookDeleteDialog, true)
    } else if !yes {
        (nothing_pending(), ConfirmKeyAction::Dismiss, false)
    } else if p.delete == Some(DeleteTarget::Note) {
        (PendingConfirm { delete: None, ..p }, ConfirmKeyAction::DeleteNote, false)
    } else if p.delete == Some(DeleteTarget::Folder) {
        (PendingConfirm { delete: None, ..p }, ConfirmKeyAction::DeleteFolder, false)
    } else if p.revert {
        (PendingConfirm { revert: false, ..p }, ConfirmKeyAction::Revert, false)
    } else if p.clear_logs {
        (PendingConfirm { clear_logs: false, ..p }, ConfirmKeyAction::ClearLogs, false)
    } else if p.batch_delete {
        (PendingConfirm { batch_delete: false, ..p }, ConfirmKeyAction::BatchDelete, false)
    } else if p.delete_snippet {
        (PendingConfirm { delete_snippet: false, ..p }, ConfirmKeyAction::DeleteSnippet, false)
    } else if p.notebook_adopt {
        (PendingConfirm { notebook_adopt: false, ..p }, ConfirmKeyAction::AdoptNotebook, false)
    } else {
        (p, ConfirmKeyAction::Nothing, false)
    }
}

/// A key on the confirmation dialog: `yes` for `y` or `Y`.
pub fn confirm_key_step(p: PendingConfirm, yes: bool) -> (r: (PendingConfirm, ConfirmKeyAction, bool))
    ensures
        r == spec_confirm_key_step(p, yes),
{
    match p.delete {
        Some(DeleteTarget::Notebook) => return (p, ConfirmKeyAction::NotebookDeleteDialog, true),
        _ => {},
    }
    if !yes {
        return (
            PendingConfirm {
                delete: None,
                revert: false,
                clear_logs: false,
                batch_delete: false,
                delete_snippet: false,
                notebook_adopt: false,
            },
            ConfirmKeyAction::Dismiss,
            false,
        );
    }
    match p.delete {
        Some(DeleteTarget::Note) => return (PendingConfirm { delete: None, ..p }, ConfirmKeyAction::DeleteNote, false),
        Some(DeleteTarget::Folder) => return (PendingConfirm { delete: None, ..p }, ConfirmKeyAction::DeleteFolder, false),
        _ => {},
    }
    if p.revert {
        (PendingConfirm { revert: false, ..p }, ConfirmKeyAction::Revert, false)
    } else if p.clear_logs {
        (PendingConfirm { clear_logs: false, ..p }, ConfirmKeyAction::ClearLogs, false)
    } else if p.batch_delete {
        (PendingConfirm { batch_delete: false, ..p }, ConfirmKeyAction::BatchDelete, false)
    } else if p.delete_snippet {
        (PendingConfirm { delete_snippet: false, ..p }, ConfirmKeyAction::DeleteSnippet, false)
    } else if p.notebook_adopt {
        (PendingConfirm { notebook_adopt: false, ..p }, ConfirmKeyAction::AdoptNotebook, false)
    } else {
        (p, ConfirmKeyAction::Nothing, false)
    }
}

/// How many operations wait for a yes.
pub open spec fn pending_count(p: PendingConfirm) -> nat {
    (if p.delete is Some { 1nat } else { 0nat }) + (if p.revert { 1nat } else { 0nat })
        + (if p.clear_logs { 1nat } else { 0nat }) + (if p.batch_delete { 1nat } else { 0nat })
        + (if p.delete_snippet { 1nat } else { 0nat }) + (if p.notebook_adopt { 1nat } else { 0nat })
}

/// A yes runs exactly one pending operation and takes exactly it off, so
/// pressing yes repeatedly works through them one at a time; with nothing
/// pending a yes does nothing; any other key leaves nothing pending.
pub proof fn lemma_confirm_key_takes_one(p: PendingConfirm, yes: bool)
    requires
        p.delete != Some(DeleteTarget::Notebook),
    ensures
        !yes ==> spec_confirm_key_step(p, yes).0 == nothing_pending()
            && spec_confirm_key_step(p, yes).1 == ConfirmKeyAction::Dismiss,
        yes && pending_count(p) > 0 ==> pending_count(spec_confirm_key_step(p, yes).0) + 1 == pending_count(p)
            && spec_confirm_key_step(p, yes).1 != ConfirmKeyAction::Nothing,
        yes && pending_count(p) == 0 ==> spec_confirm_key_step(p, yes).1 == ConfirmKeyAction::Nothing
            && spec_confirm_key_step(p, yes).0 == p,
        !spec_confirm_key_step(p, yes).2,
{
    if yes {
        let q = spec_confirm_key_step(p, yes).0;
        match p.delete {
            Some(DeleteTarget::Note) => assert(q == PendingConfirm { delete: None, ..p }),
            Some(DeleteTarget::Folder) => assert(q == PendingConfirm { delete: None, ..p }),
            _ => {
                assert(p.delete is None);
                if p.revert {
                    assert(q == PendingConfirm { revert: false, ..p });
                } else if p.clear_logs {
                    assert(q == PendingConfirm { clear_logs: false, ..p });
                } else if p.batch_delete {
                    assert(q == PendingConfirm { batch_delete: false, ..p });
                } else if p.delete_snippet {
                    assert(q == PendingConfirm { delete_snippet: false, ..p });
                }
            },
        }
    }
}

/// What the notebook-delete dialog's answer does.
#[derive(Debug, Clone, Copy, PartialEq, Eq, Structural)]
pub enum NotebookDeleteChoice {
    /// `d`: delete the notebook and its files.
    Delete,
    /// `r`: stop tracking it (hidden in the configuration), files kept.
    Untrack,
    /// Any other key.
    Cancel,
}

/// The notebook-delete dialog's answer to `key` (`None` for a key that is
/// not a character); the dialog closes and the pending delete is dropped
/// whatever the answer.
pub fn notebook_delete_choice(key: Option<char>) -> (r: NotebookDeleteChoice)
    ensures
        r == (if key == Some('d') || key == Some('D') {
            NotebookDeleteChoice::Delete
        } else if key == Some('r') || key == Some('R') {
            NotebookDeleteChoice::Untrack
        } else {
            NotebookDeleteChoice::Cancel
        }),
{
    match key {
        Some(c) => if c == 'd' || c == 'D' {
            NotebookDeleteChoice::Delete
        } else if c == 'r' || c == 'R' {
            NotebookDeleteChoice::Untrack
        } else {
            NotebookDeleteChoice::Cancel
        },
        None => NotebookDeleteChoice::Cancel,
    }
}

/// The status line after the notebook-delete dialog for notebook `name`
/// at `path`.
pub open spec fn spec_notebook_delete_status(choice: NotebookDeleteChoice, name: Seq<char>, path: Seq<char>) -> Seq<char> {
    match choice {
        NotebookDeleteChoice::Delete => "notebook '"@ + name + "' deleted"@,
        NotebookDeleteChoice::Untrack => "notebook '"@ + name + "' untracked \u{2014} files left in place at '"@ + path
            + "'"@,
        NotebookDeleteChoice::Cancel => "notebook delete cancelled"@,
    }
}

pub fn notebook_delete_status(choice: NotebookDeleteChoice, name: &str, path: &str) -> (r: String)
    ensures
        r@ == spec_notebook_delete_status(choice, name@, path@),
{
    match choice {
        NotebookDeleteChoice::Delete => quoted("notebook '", &chars_of(name), "' deleted"),
        NotebookDeleteChoice::Untrack => {
            let mut out = chars_of("notebook '");
            push_str(&mut out, name);
            push_str(&mut out, "' untracked \u{2014} files left in place at '");
            push_str(&mut out, path);
            push_str(&mut out, "'");
            string_of(&out)
        },
        NotebookDeleteChoice::Cancel => text_of("notebook delete cancelled"),
    }
}

} // verus!
