//! Configurable keybindings: every action a key can trigger, how a key is
//! written in the configuration (`"enter"`, `"tab"`, `"a"`, `"space"`), and
//! the per-scope keymaps built from it. Navigation keys are not configurable
//! and are only documented here (`nav_rows`).
use vstd::prelude::*;
use crate::icons::{
    spec_arrow, spec_calendar, spec_check, spec_clipboard, spec_columns, spec_download, spec_expand,
    spec_eye, spec_filter, spec_gear, spec_git, spec_history, spec_link, spec_list, spec_note,
    spec_notebook, spec_pdf, spec_pencil, spec_search, spec_tag, spec_tree, spec_undo, spec_warning,
    Icon,
};
use crate::state::Focus;
use crate::text::{
    chars_of, eq_str, lemma_lex_irreflexive, lemma_lex_total, lemma_lex_transitive, lex_less,
    lex_lt, lex_lt_at, push_str, string_of,
};

verus! {

broadcast use vstd::string::group_string_axioms;

/// Every action reachable from a keybinding, across every scope.
#[derive(Debug, Clone, Copy, PartialEq, Eq, Hash, Structural)]
pub enum Action {
    // Global (after the leader key)
    ThemePicker,
    GlobalSearch,
    ToggleTags,
    ShowLogs,
    ToggleFavoriteEditor,
    CheckForUpdate,
    ToggleDrawer,
    /// Restores the most recently deleted note, folder or batch.
    UndoDelete,
    ToggleSettings,
    Scratchpad,
    /// Every checkbox task across every notebook.
    ToggleTasks,
    /// The frontmatter query modal.
    ToggleQuery,
    PublishNotebook,
    ExportNotebook,
    /// Full-screen single-panel layout.
    ToggleZenMode,
    // Notebooks panel
    NewNotebook,
    RenameNotebook,
    DeleteNotebook,
    SyncNotebook,
    PullNotebook,
    PullAllNotebooks,
    SetRemote,
    PushNotebook,
    // Notes panel
    NewNote,
    NewFolder,
    RenameNote,
    DeleteNote,
    JumpSearch,
    DailyNote,
    MoveNote,
    SortNotes,
    ToggleTreeView,
    ToggleDates,
    /// Multi-select, anchored at the current selection.
    ToggleVisual,
    /// Copies the visual-mode selection to a prompted target.
    CopyEntries,
    // Notes and preview panels
    EditInline,
    EditExternal,
    // Preview panel
    ShowHistory,
    /// Outgoing links and backlinks of the selected note.
    ShowLinks,
    /// The headings of the selected note.
    ShowOutline,
}

/// A key as the keymaps know it. Bindings match on the key alone, never on
/// modifiers (a typed capital arrives as its own character with Shift set).
#[derive(Debug, Clone, Copy, PartialEq, Eq, Hash, Structural)]
pub enum KeyCode {
    Char(char),
    Enter,
    Tab,
    Esc,
    Backspace,
}

/// The ASCII lowercase of `c` (std's `char::to_ascii_lowercase`).
pub open spec fn spec_ascii_lower(c: char) -> char {
    if 'A' <= c && c <= 'Z' {
        ((c as u32) + 32) as char
    } else {
        c
    }
}

pub open spec fn ascii_lower_seq(s: Seq<char>) -> Seq<char> {
    Seq::new(s.len(), |i: int| spec_ascii_lower(s[i]))
}

/// The key a configuration string names: `enter`, `tab`, `esc` or
/// `escape`, `space` and `backspace` in any ASCII case, or any single
/// character as itself; nothing else names a key.
pub open spec fn spec_parse_key(s: Seq<char>) -> Option<KeyCode> {
    let l = ascii_lower_seq(s);
    if l == "enter"@ {
        Some(KeyCode::Enter)
    } else if l == "tab"@ {
        Some(KeyCode::Tab)
    } else if l == "esc"@ || l == "escape"@ {
        Some(KeyCode::Esc)
    } else if l == "space"@ {
        Some(KeyCode::Char(' '))
    } else if l == "backspace"@ {
        Some(KeyCode::Backspace)
    } else if s.len() == 1 {
        Some(KeyCode::Char(s[0]))
    } else {
        None
    }
}

/// How a key is shown in the help: the names above for the named keys and
/// the space bar, any other character as itself.
pub open spec fn spec_describe_key(k: KeyCode) -> Seq<char> {
    match k {
        KeyCode::Char(c) => if c == ' ' {
            "space"@
        } else {
            seq![c]
        },
        KeyCode::Enter => "enter"@,
        KeyCode::Tab => "tab"@,
        KeyCode::Esc => "esc"@,
        KeyCode::Backspace => "backspace"@,
    }
}

fn ascii_lower(c: char) -> (r: char)
    ensures
        r == spec_ascii_lower(c),
{
    if 'A' <= c && c <= 'Z' {
        let u = (c as u8) + 32;
        u as char
    } else {
        c
    }
}

/// Reads a configuration string as a key (see `spec_parse_key`).
pub fn parse_key(spec: &str) -> (r: Option<KeyCode>)
    ensures
        r == spec_parse_key(spec@),
{
    let s = chars_of(spec);
    let mut l: Vec<char> = Vec::new();
    let mut i: usize = 0;
    while i < s.len()
        invariant
            0 <= i <= s@.len(),
            l@ =~= ascii_lower_seq(s@).take(i as int),
        decreases s@.len() - i,
    {
        l.push(ascii_lower(s[i]));
        i = i + 1;
    }
    assert(l@ =~= ascii_lower_seq(spec@));
    if eq_str(&l, "enter") {
        Some(KeyCode::Enter)
    } else if eq_str(&l, "tab") {
        Some(KeyCode::Tab)
    } else if eq_str(&l, "esc") || eq_str(&l, "escape") {
        Some(KeyCode::Esc)
    } else if eq_str(&l, "space") {
        Some(KeyCode::Char(' '))
    } else if eq_str(&l, "backspace") {
        Some(KeyCode::Backspace)
    } else if s.len() == 1 {
        Some(KeyCode::Char(s[0]))
    } else {
        None
    }
}

/// How a key is shown in the help (see `spec_describe_key`).
pub fn describe_key(code: KeyCode) -> (r: String)
    ensures
        r@ == spec_describe_key(code),
{
    let v = match code {
        KeyCode::Char(c) => if c == ' ' {
            chars_of("space")
        } else {
            vec![c]
        },
        KeyCode::Enter => chars_of("enter"),
        KeyCode::Tab => chars_of("tab"),
        KeyCode::Esc => chars_of("esc"),
        KeyCode::Backspace => chars_of("backspace"),
    };
    string_of(&v)
}

proof fn lemma_named_lower(s: Seq<char>)
    requires
        forall|i: int| 0 <= i < s.len() ==> 'a' <= #[trigger] s[i] <= 'z',
    ensures
        ascii_lower_seq(s) == s,
{
    assert(ascii_lower_seq(s) =~= s);
}

/// A key reads back as itself from the way the help shows it.
pub proof fn lemma_describe_then_parse(k: KeyCode)
    ensures
        spec_parse_key(spec_describe_key(k)) == Some(k),
{
    reveal_strlit("enter");
    reveal_strlit("tab");
    reveal_strlit("esc");
    reveal_strlit("escape");
    reveal_strlit("space");
    reveal_strlit("backspace");
    let d = spec_describe_key(k);
    match k {
        KeyCode::Char(c) => {
            if c == ' ' {
                lemma_named_lower("space"@);
                assert("space"@ != "enter"@ && "space"@ != "escape"@) by {
                    assert("space"@[0] != "enter"@[0]);
                    assert("space"@.len() != "escape"@.len());
                }
            } else {
                assert(ascii_lower_seq(d).len() == 1);
            }
        },
        KeyCode::Enter => {
            lemma_named_lower("enter"@);
        },
        KeyCode::Tab => {
            lemma_named_lower("tab"@);
            assert("tab"@ != "enter"@);
        },
        KeyCode::Esc => {
            lemma_named_lower("esc"@);
            assert("esc"@ != "tab"@) by {
                assert("esc"@[0] != "tab"@[0]);
            }
        },
        KeyCode::Backspace => {
            lemma_named_lower("backspace"@);
        },
    }
}

/// No two keys are shown alike.
pub proof fn lemma_describe_injective(a: KeyCode, b: KeyCode)
    ensures
        spec_describe_key(a) == spec_describe_key(b) ==> a == b,
{
    if spec_describe_key(a) == spec_describe_key(b) {
        lemma_describe_then_parse(a);
        lemma_describe_then_parse(b);
    }
}

// ---------------------------------------------------------------------------
// Configuration and keymaps
// ---------------------------------------------------------------------------

/// The keys bound in the global scope (each used after the leader key).
pub struct GlobalKeys {
    pub theme_picker: String,
    pub global_search: String,
    pub tags_panel: String,
    pub logs: String,
    pub toggle_favorite_editor: String,
    pub check_update: String,
    pub drawer: String,
    pub undo_delete: String,
    pub settings: String,
    pub scratchpad: String,
    pub links: String,
    pub tasks_panel: String,
    pub query_panel: String,
    pub publish: String,
    pub export: String,
    pub zen_mode: String,
}

/// The keys bound while the notebooks panel has focus.
pub struct NotebookKeys {
    pub new: String,
    pub rename: String,
    pub delete: String,
    pub sync: String,
    pub pull: String,
    pub pull_all: String,
    pub set_remote: String,
    pub push: String,
}

/// The keys bound while the notes panel has focus.
pub struct NoteKeys {
    pub new: String,
    pub new_folder: String,
    pub rename: String,
    pub delete: String,
    pub edit_inline: String,
    pub edit_external: String,
    pub search: String,
    pub daily_note: String,
    pub move_to_notebook: String,
    pub sort: String,
    pub tree_view: String,
    pub toggle_dates: String,
    pub visual: String,
    pub copy_entries: String,
}

/// The keys bound while the preview panel has focus.
pub struct PreviewKeys {
    pub edit_inline: String,
    pub edit_external: String,
    pub history: String,
    pub links: String,
    pub outline: String,
}

/// The `[keybindings]` section of the configuration.
pub struct KeybindingsConfig {
    pub leader: String,
    pub quit: String,
    pub global: GlobalKeys,
    pub notebooks: NotebookKeys,
    pub notes: NoteKeys,
    pub preview: PreviewKeys,
}

/// The global scope's bindings, in the order they are applied.
pub open spec fn global_pairs(c: GlobalKeys) -> Seq<(Seq<char>, Action)> {
    seq![
        (c.theme_picker@, Action::ThemePicker),
        (c.global_search@, Action::GlobalSearch),
        (c.tags_panel@, Action::ToggleTags),
        (c.logs@, Action::ShowLogs),
        (c.toggle_favorite_editor@, Action::ToggleFavoriteEditor),
        (c.check_update@, Action::CheckForUpdate),
        (c.drawer@, Action::ToggleDrawer),
        (c.undo_delete@, Action::UndoDelete),
        (c.settings@, Action::ToggleSettings),
        (c.scratchpad@, Action::Scratchpad),
        (c.links@, Action::ShowLinks),
        (c.tasks_panel@, Action::ToggleTasks),
        (c.query_panel@, Action::ToggleQuery),
        (c.publish@, Action::PublishNotebook),
        (c.export@, Action::ExportNotebook),
        (c.zen_mode@, Action::ToggleZenMode),
    ]
}

/// The notebooks panel's bindings, in the order they are applied.
pub open spec fn notebook_pairs(c: NotebookKeys) -> Seq<(Seq<char>, Action)> {
    seq![
        (c.new@, Action::NewNotebook),
        (c.rename@, Action::RenameNotebook),
        (c.delete@, Action::DeleteNotebook),
        (c.sync@, Action::SyncNotebook),
        (c.pull@, Action::PullNotebook),
        (c.pull_all@, Action::PullAllNotebooks),
        (c.set_remote@, Action::SetRemote),
        (c.push@, Action::PushNotebook),
    ]
}

/// The notes panel's bindings, in the order they are applied.
pub open spec fn note_pairs(c: NoteKeys) -> Seq<(Seq<char>, Action)> {
    seq![
        (c.new@, Action::NewNote),
        (c.new_folder@, Action::NewFolder),
        (c.rename@, Action::RenameNote),
        (c.delete@, Action::DeleteNote),
        (c.edit_inline@, Action::EditInline),
        (c.edit_external@, Action::EditExternal),
        (c.search@, Action::JumpSearch),
        (c.daily_note@, Action::DailyNote),
        (c.move_to_notebook@, Action::MoveNote),
        (c.sort@, Action::SortNotes),
        (c.tree_view@, Action::ToggleTreeView),
        (c.toggle_dates@, Action::ToggleDates),
        (c.visual@, Action::ToggleVisual),
        (c.copy_entries@, Action::CopyEntries),
    ]
}

/// The preview panel's bindings, in the order they are applied.
pub open spec fn preview_pairs(c: PreviewKeys) -> Seq<(Seq<char>, Action)> {
    seq![
        (c.edit_inline@, Action::EditInline),
        (c.edit_external@, Action::EditExternal),
        (c.history@, Action::ShowHistory),
        (c.links@, Action::ShowLinks),
        (c.outline@, Action::ShowOutline),
    ]
}

/// The action bound to `k` by a list of (key text, action) bindings: the
/// last binding whose text names `k` wins; text that names no key binds
/// nothing.
pub open spec fn bound_action(pairs: Seq<(Seq<char>, Action)>, k: KeyCode) -> Option<Action>
    decreases pairs.len(),
{
    if pairs.len() == 0 {
        None
    } else if spec_parse_key(pairs.last().0) == Some(k) {
        Some(pairs.last().1)
    } else {
        bound_action(pairs.drop_last(), k)
    }
}

/// The action a keymap stored as (key, action) pairs gives `k`.
pub open spec fn lookup(v: Seq<(KeyCode, Action)>, k: KeyCode) -> Option<Action>
    decreases v.len(),
{
    if v.len() == 0 {
        None
    } else if v.last().0 == k {
        Some(v.last().1)
    } else {
        lookup(v.drop_last(), k)
    }
}

/// No key is stored twice.
pub open spec fn distinct_keys(v: Seq<(KeyCode, Action)>) -> bool {
    forall|i: int, j: int| 0 <= i < j < v.len() ==> v[i].0 != v[j].0
}

proof fn lemma_lookup_update(v: Seq<(KeyCode, Action)>, j: int, a: Action, k2: KeyCode)
    requires
        distinct_keys(v),
        0 <= j < v.len(),
    ensures
        lookup(v.update(j, (v[j].0, a)), k2) == if k2 == v[j].0 {
            Some(a)
        } else {
            lookup(v, k2)
        },
    decreases v.len(),
{
    let w = v.update(j, (v[j].0, a));
    if j < v.len() - 1 {
        assert(v.last().0 != v[j].0);
        assert(w.drop_last() =~= v.drop_last().update(j, (v[j].0, a)));
        lemma_lookup_update(v.drop_last(), j, a, k2);
    } else {
        assert(w.drop_last() =~= v.drop_last());
        if k2 != v[j].0 {
        }
    }
}

proof fn lemma_lookup_member(v: Seq<(KeyCode, Action)>, k: KeyCode, a: Action)
    requires
        distinct_keys(v),
    ensures
        lookup(v, k) == Some(a) <==> exists|j: int| 0 <= j < v.len() && v[j] == (k, a),
        lookup(v, k) is None <==> forall|j: int| 0 <= j < v.len() ==> v[j].0 != k,
    decreases v.len(),
{
    if v.len() > 0 {
        lemma_lookup_member(v.drop_last(), k, a);
        if v.last().0 == k {
            assert(v[v.len() - 1] == v.last());
            if lookup(v, k) != Some(a) {
                assert forall|j: int| 0 <= j < v.len() implies v[j] != (k, a) by {
                    if j < v.len() - 1 {
                        assert(v[j].0 != v[v.len() - 1].0);
                    }
                }
            }
        } else {
            assert forall|j: int| 0 <= j < v.len() - 1 implies v.drop_last()[j] == v[j] by {}
            if exists|j: int| 0 <= j < v.len() && v[j] == (k, a) {
                let j = choose|j: int| 0 <= j < v.len() && v[j] == (k, a);
                assert(v.drop_last()[j] == (k, a));
            }
            if lookup(v, k) is None {
                assert forall|j: int| 0 <= j < v.len() implies v[j].0 != k by {
                    if j < v.len() - 1 {
                        assert(v.drop_last()[j] == v[j]);
                    }
                }
            }
        }
    }
}

/// Binds the key named by `spec` to `action` in `map`, replacing any
/// earlier binding of that key; text that names no key binds nothing.
fn bind(map: &mut Vec<(KeyCode, Action)>, spec: &str, action: Action)
    requires
        distinct_keys(old(map)@),
    ensures
        distinct_keys(final(map)@),
        forall|k: KeyCode| #[trigger] lookup(final(map)@, k) == if spec_parse_key(spec@) == Some(k) {
            Some(action)
        } else {
            lookup(old(map)@, k)
        },
{
    if let Some(code) = parse_key(spec) {
        let mut j: usize = 0;
        while j < map.len()
            invariant
                map@ == old(map)@,
                distinct_keys(map@),
                spec_parse_key(spec@) == Some(code),
                0 <= j <= map@.len(),
                forall|q: int| 0 <= q < j ==> map@[q].0 != code,
            decreases map@.len() - j,
        {
            if map[j].0 == code {
                let ghost before = map@;
                map.set(j, (code, action));
                proof {
                    assert(map@ == before.update(j as int, (before[j as int].0, action)));
                    assert forall|k: KeyCode| #[trigger] lookup(map@, k) == if spec_parse_key(spec@) == Some(k) {
                        Some(action)
                    } else {
                        lookup(before, k)
                    } by {
                        lemma_lookup_update(before, j as int, action, k);
                    }
                    assert forall|a: int, b: int| 0 <= a < b < map@.len() implies map@[a].0 != map@[b].0 by {
                        assert(before[a].0 != before[b].0);
                    }
                }
                return;
            }
            j = j + 1;
        }
        let ghost before = map@;
        map.push((code, action));
        proof {
            assert(map@.drop_last() =~= before);
            assert forall|a: int, b: int| 0 <= a < b < map@.len() implies map@[a].0 != map@[b].0 by {
                if b < before.len() {
                    assert(before[a].0 != before[b].0);
                } else {
                    assert(map@[a] == before[a]);
                }
            }
        }
    }
}

/// Applies a list of bindings in order to an empty keymap.
fn bind_all(pairs: &Vec<(&str, Action)>, Ghost(pv): Ghost<Seq<(Seq<char>, Action)>>) -> (map: Vec<(KeyCode, Action)>)
    requires
        pairs@.len() == pv.len(),
        forall|i: int| 0 <= i < pv.len() ==> (#[trigger] pairs@[i]).0@ == pv[i].0 && pairs@[i].1 == pv[i].1,
    ensures
        distinct_keys(map@),
        forall|k: KeyCode| #[trigger] lookup(map@, k) == bound_action(pv, k),
{
    let mut map: Vec<(KeyCode, Action)> = Vec::new();
    let mut i: usize = 0;
    while i < pairs.len()
        invariant
            pairs@.len() == pv.len(),
            forall|i: int| 0 <= i < pv.len() ==> (#[trigger] pairs@[i]).0@ == pv[i].0 && pairs@[i].1 == pv[i].1,
            0 <= i <= pv.len(),
            distinct_keys(map@),
            forall|k: KeyCode| #[trigger] lookup(map@, k) == bound_action(pv.take(i as int), k),
        decreases pv.len() - i,
    {
        let (spec, action) = pairs[i];
        bind(&mut map, spec, action);
        proof {
            assert(pv.take(i + 1).drop_last() =~= pv.take(i as int));
            assert(pv.take(i + 1).last() == pv[i as int]);
        }
        i = i + 1;
    }
    assert(pv.take(pv.len() as int) =~= pv);
    map
}

/// The keymaps, one per scope: `quit` is bare and universal, the global
/// scope needs the leader key first, and each panel's own scope applies
/// only while that panel has focus.
pub struct KeyMaps {
    leader: KeyCode,
    quit: KeyCode,
    global: Vec<(KeyCode, Action)>,
    notebooks: Vec<(KeyCode, Action)>,
    notes: Vec<(KeyCode, Action)>,
    preview: Vec<(KeyCode, Action)>,
}

impl KeyMaps {
    #[verifier::type_invariant]
    spec fn keys_distinct(self) -> bool {
        &&& distinct_keys(self.global@)
        &&& distinct_keys(self.notebooks@)
        &&& distinct_keys(self.notes@)
        &&& distinct_keys(self.preview@)
    }

    /// The leader key.
    pub closed spec fn leader_spec(self) -> KeyCode {
        self.leader
    }

    /// The quit key.
    pub closed spec fn quit_spec(self) -> KeyCode {
        self.quit
    }

    /// The global action bound to `k`.
    pub closed spec fn global_action(self, k: KeyCode) -> Option<Action> {
        lookup(self.global@, k)
    }

    /// The action bound to `k` in the scope of the panel `focus`.
    pub closed spec fn scoped_action(self, focus: Focus, k: KeyCode) -> Option<Action> {
        match focus {
            Focus::Notebooks => lookup(self.notebooks@, k),
            Focus::Notes => lookup(self.notes@, k),
            Focus::Preview => lookup(self.preview@, k),
        }
    }

    /// Builds the keymaps from the configuration: the leader defaults to
    /// the space bar and quit to `q` when their text names no key; each
    /// scope's bindings apply in order, a later binding of the same key
    /// replacing an earlier one, and text naming no key binding nothing.
    pub fn from_config(cfg: &KeybindingsConfig) -> (r: Self)
        ensures
            r.leader_spec() == match spec_parse_key(cfg.leader@) {
                Some(k) => k,
                None => KeyCode::Char(' '),
            },
            r.quit_spec() == match spec_parse_key(cfg.quit@) {
                Some(k) => k,
                None => KeyCode::Char('q'),
            },
            forall|k: KeyCode| #[trigger] r.global_action(k) == bound_action(global_pairs(cfg.global), k),
            forall|k: KeyCode|
                #[trigger] r.scoped_action(Focus::Notebooks, k) == bound_action(notebook_pairs(cfg.notebooks), k),
            forall|k: KeyCode| #[trigger] r.scoped_action(Focus::Notes, k) == bound_action(note_pairs(cfg.notes), k),
            forall|k: KeyCode|
                #[trigger] r.scoped_action(Focus::Preview, k) == bound_action(preview_pairs(cfg.preview), k),
    {
        let leader = match parse_key(cfg.leader.as_str()) {
            Some(k) => k,
            None => KeyCode::Char(' '),
        };
        let quit = match parse_key(cfg.quit.as_str()) {
            Some(k) => k,
            None => KeyCode::Char('q'),
        };
        let gp = vec![
            (cfg.global.theme_picker.as_str(), Action::ThemePicker),
            (cfg.global.global_search.as_str(), Action::GlobalSearch),
            (cfg.global.tags_panel.as_str(), Action::ToggleTags),
            (cfg.global.logs.as_str(), Action::ShowLogs),
            (cfg.global.toggle_favorite_editor.as_str(), Action::ToggleFavoriteEditor),
            (cfg.global.check_update.as_str(), Action::CheckForUpdate),
            (cfg.global.drawer.as_str(), Action::ToggleDrawer),
            (cfg.global.undo_delete.as_str(), Action::UndoDelete),
            (cfg.global.settings.as_str(), Action::ToggleSettings),
            (cfg.global.scratchpad.as_str(), Action::Scratchpad),
            (cfg.global.links.as_str(), Action::ShowLinks),
            (cfg.global.tasks_panel.as_str(), Action::ToggleTasks),
            (cfg.global.query_panel.as_str(), Action::ToggleQuery),
            (cfg.global.publish.as_str(), Action::PublishNotebook),
            (cfg.global.export.as_str(), Action::ExportNotebook),
            (cfg.global.zen_mode.as_str(), Action::ToggleZenMode),
        ];
        assert(gp@.len() == 16);
        let global = bind_all(&gp, Ghost(global_pairs(cfg.global)));
        let np = vec![
            (cfg.notebooks.new.as_str(), Action::NewNotebook),
            (cfg.notebooks.rename.as_str(), Action::RenameNotebook),
            (cfg.notebooks.delete.as_str(), Action::DeleteNotebook),
            (cfg.notebooks.sync.as_str(), Action::SyncNotebook),
            (cfg.notebooks.pull.as_str(), Action::PullNotebook),
            (cfg.notebooks.pull_all.as_str(), Action::PullAllNotebooks),
            (cfg.notebooks.set_remote.as_str(), Action::SetRemote),
            (cfg.notebooks.push.as_str(), Action::PushNotebook),
        ];
        let notebooks = bind_all(&np, Ghost(notebook_pairs(cfg.notebooks)));
        let tp = vec![
            (cfg.notes.new.as_str(), Action::NewNote),
            (cfg.notes.new_folder.as_str(), Action::NewFolder),
            (cfg.notes.rename.as_str(), Action::RenameNote),
            (cfg.notes.delete.as_str(), Action::DeleteNote),
            (cfg.notes.edit_inline.as_str(), Action::EditInline),
            (cfg.notes.edit_external.as_str(), Action::EditExternal),
            (cfg.notes.search.as_str(), Action::JumpSearch),
            (cfg.notes.daily_note.as_str(), Action::DailyNote),
            (cfg.notes.move_to_notebook.as_str(), Action::MoveNote),
            (cfg.notes.sort.as_str(), Action::SortNotes),
            (cfg.notes.tree_view.as_str(), Action::ToggleTreeView),
            (cfg.notes.toggle_dates.as_str(), Action::ToggleDates),
            (cfg.notes.visual.as_str(), Action::ToggleVisual),
            (cfg.notes.copy_entries.as_str(), Action::CopyEntries),
        ];
        let notes = bind_all(&tp, Ghost(note_pairs(cfg.notes)));
        let pp = vec![
            (cfg.preview.edit_inline.as_str(), Action::EditInline),
            (cfg.preview.edit_external.as_str(), Action::EditExternal),
            (cfg.preview.history.as_str(), Action::ShowHistory),
            (cfg.preview.links.as_str(), Action::ShowLinks),
            (cfg.preview.outline.as_str(), Action::ShowOutline),
        ];
        let preview = bind_all(&pp, Ghost(preview_pairs(cfg.preview)));
        KeyMaps { leader, quit, global, notebooks, notes, preview }
    }

    pub fn is_leader(&self, code: KeyCode) -> (r: bool)
        ensures
            r == (code == self.leader_spec()),
    {
        code == self.leader
    }

    pub fn leader_key(&self) -> (r: KeyCode)
        ensures
            r == self.leader_spec(),
    {
        self.leader
    }

    pub fn is_quit(&self, code: KeyCode) -> (r: bool)
        ensures
            r == (code == self.quit_spec()),
    {
        code == self.quit
    }

    /// The global action bound to `code`, if any.
    pub fn resolve_global(&self, code: KeyCode) -> (r: Option<Action>)
        ensures
            r == self.global_action(code),
    {
        find_binding(&self.global, code)
    }

    /// The action bound to `code` in the scope of the focused panel.
    pub fn resolve_scoped(&self, focus: Focus, code: KeyCode) -> (r: Option<Action>)
        ensures
            r == self.scoped_action(focus, code),
    {
        match focus {
            Focus::Notebooks => find_binding(&self.notebooks, code),
            Focus::Notes => find_binding(&self.notes, code),
            Focus::Preview => find_binding(&self.preview, code),
        }
    }
}

fn find_binding(map: &Vec<(KeyCode, Action)>, code: KeyCode) -> (r: Option<Action>)
    ensures
        r == lookup(map@, code),
{
    let mut j = map.len();
    assert(map@.take(j as int) =~= map@);
    while j > 0
        invariant
            0 <= j <= map@.len(),
            lookup(map@.take(j as int), code) == lookup(map@, code),
        decreases j,
    {
        assert(map@.take(j as int).drop_last() =~= map@.take(j - 1));
        assert(map@.take(j as int).last() == map@[j - 1]);
        if map[j - 1].0 == code {
            return Some(map[j - 1].1);
        }
        j = j - 1;
    }
    None
}

// ---------------------------------------------------------------------------
// The which-key listing
// ---------------------------------------------------------------------------

/// A binding as listed: how its key is shown, and its action.
pub open spec fn shown_binding(p: (KeyCode, Action)) -> (Seq<char>, Action) {
    (spec_describe_key(p.0), p.1)
}

pub open spec fn block_view(b: Seq<(Vec<char>, Action)>) -> Seq<(Seq<char>, Action)> {
    b.map_values(|e: (Vec<char>, Action)| (e.0@, e.1))
}

/// Strictly increasing by the shown key.
#[verifier::opaque]
pub open spec fn keys_ascending(b: Seq<(Seq<char>, Action)>) -> bool {
    forall|i: int, j: int| #![trigger b[i], b[j]] 0 <= i < j < b.len() ==> lex_lt(b[i].0, b[j].0)
}

/// `b` lists exactly the bindings `v[..n]`, as shown.
#[verifier::opaque]
pub open spec fn lists_exactly(b: Seq<(Seq<char>, Action)>, v: Seq<(KeyCode, Action)>, n: int) -> bool {
    &&& forall|i: int| 0 <= i < b.len() ==> exists|q: int| 0 <= q < n && #[trigger] b[i] == shown_binding(v[q])
    &&& forall|q: int| 0 <= q < n ==> exists|i: int| 0 <= i < b.len() && b[i] == #[trigger] shown_binding(v[q])
}

proof fn lemma_new_key_unlisted(b: Seq<(Seq<char>, Action)>, v: Seq<(KeyCode, Action)>, n: int)
    requires
        distinct_keys(v),
        0 <= n < v.len(),
        lists_exactly(b, v, n),
    ensures
        forall|i: int| 0 <= i < b.len() ==> #[trigger] b[i].0 != shown_binding(v[n]).0,
{
    reveal(lists_exactly);
    assert forall|i: int| 0 <= i < b.len() implies #[trigger] b[i].0 != shown_binding(v[n]).0 by {
        let q = choose|q: int| 0 <= q < n && #[trigger] b[i] == shown_binding(v[q]);
        assert(v[q].0 != v[n].0);
        lemma_describe_injective(v[q].0, v[n].0);
    }
}

proof fn lemma_insert_sorted(b: Seq<(Seq<char>, Action)>, x: (Seq<char>, Action), p: int)
    requires
        keys_ascending(b),
        0 <= p <= b.len(),
        forall|i: int| 0 <= i < p ==> !lex_lt(x.0, #[trigger] b[i].0),
        p < b.len() ==> lex_lt(x.0, b[p].0),
        forall|i: int| 0 <= i < b.len() ==> #[trigger] b[i].0 != x.0,
    ensures
        keys_ascending(b.insert(p, x)),
{
    reveal(keys_ascending);
    let b2 = b.insert(p, x);
    b.insert_ensures(p, x);
    assert forall|i: int, j: int| #![trigger b2[i], b2[j]] 0 <= i < j < b2.len() implies lex_lt(b2[i].0, b2[j].0) by {
        if j < p {
            assert(b2[i] == b[i] && b2[j] == b[j]);
        } else if j == p {
            assert(b2[i] == b[i]);
            assert(b[i].0 != x.0);
            assert(b[i].0.subrange(0, 0) =~= x.0.subrange(0, 0));
            lemma_lex_total(b[i].0, x.0, 0);
        } else if i < p {
            assert(b2[i] == b[i]);
            assert(b2[j] == b[j - 1]);
        } else if i == p {
            assert(b2[j] == b[j - 1]);
            if j - 1 > p {
                assert(lex_lt(b[p].0, b[j - 1].0));
                lemma_lex_transitive(x.0, b[p].0, b[j - 1].0, 0);
            }
        } else {
            assert(b2[i] == b[i - 1] && b2[j] == b[j - 1]);
        }
    }
}

proof fn lemma_insert_lists(b: Seq<(Seq<char>, Action)>, v: Seq<(KeyCode, Action)>, n: int, p: int)
    requires
        0 <= n < v.len(),
        lists_exactly(b, v, n),
        0 <= p <= b.len(),
    ensures
        lists_exactly(b.insert(p, shown_binding(v[n])), v, n + 1),
{
    reveal(lists_exactly);
    let x = shown_binding(v[n]);
    let b2 = b.insert(p, x);
    b.insert_ensures(p, x);
    assert forall|i: int| 0 <= i < b2.len() implies exists|q: int| 0 <= q < n + 1 && #[trigger] b2[i] == shown_binding(v[q]) by {
        if i < p {
            assert(b2[i] == b[i]);
        } else if i == p {
            assert(b2[i] == shown_binding(v[n]));
        } else {
            assert(b2[i] == b[i - 1]);
        }
    }
    assert forall|q: int| 0 <= q < n + 1 implies exists|i: int| 0 <= i < b2.len() && b2[i] == #[trigger] shown_binding(v[q]) by {
        if q == n {
            assert(b2[p] == shown_binding(v[q]));
        } else {
            let i = choose|i: int| 0 <= i < b.len() && b[i] == #[trigger] shown_binding(v[q]);
            if i < p {
                assert(b2[i] == b[i]);
            } else {
                assert(b2[i + 1] == b[i]);
            }
        }
    }
}

/// The bindings of one scope, listed in ascending order of the shown key.
fn sorted_block(v: &Vec<(KeyCode, Action)>) -> (out: Vec<(Vec<char>, Action)>)
    requires
        distinct_keys(v@),
    ensures
        keys_ascending(block_view(out@)),
        lists_exactly(block_view(out@), v@, v@.len() as int),
{
    let mut out: Vec<(Vec<char>, Action)> = Vec::new();
    let mut n: usize = 0;
    assert(block_view(out@) =~= Seq::<(Seq<char>, Action)>::empty());
    proof {
        reveal(keys_ascending);
        reveal(lists_exactly);
    }
    while n < v.len()
        invariant
            distinct_keys(v@),
            0 <= n <= v@.len(),
            keys_ascending(block_view(out@)),
            lists_exactly(block_view(out@), v@, n as int),
        decreases v@.len() - n,
    {
        let (code, action) = v[n];
        let ds = describe_key(code);
        let d = chars_of(ds.as_str());
        let ghost b = block_view(out@);
        let ghost x = shown_binding(v@[n as int]);
        proof {
            lemma_new_key_unlisted(b, v@, n as int);
        }
        let mut p: usize = 0;
        while p < out.len() && !lex_less(&d, &out[p].0)
            invariant
                b == block_view(out@),
                d@ == x.0,
                0 <= p <= out@.len(),
                forall|i: int| 0 <= i < p ==> !lex_lt(x.0, #[trigger] b[i].0),
            decreases out@.len() - p,
        {
            assert(b[p as int].0 == out@[p as int].0@);
            p = p + 1;
        }
        proof {
            if p < out@.len() {
                assert(b[p as int].0 == out@[p as int].0@);
            }
            lemma_insert_sorted(b, x, p as int);
            lemma_insert_lists(b, v@, n as int, p as int);
        }
        out.insert(p, (d, action));
        assert(block_view(out@) =~= b.insert(p as int, x));
        n = n + 1;
    }
    out
}

pub open spec fn entry_view(e: (&'static str, String, Action)) -> (Seq<char>, Seq<char>, Action) {
    (e.0@, e.1@, e.2)
}

pub open spec fn entries_view(v: Seq<(&'static str, String, Action)>) -> Seq<(Seq<char>, Seq<char>, Action)> {
    v.map_values(|e: (&'static str, String, Action)| entry_view(e))
}

/// Ordered by scope label, then by shown key.
pub open spec fn entry_lt(a: (Seq<char>, Seq<char>, Action), b: (Seq<char>, Seq<char>, Action)) -> bool {
    lex_lt(a.0, b.0) || (a.0 == b.0 && lex_lt(a.1, b.1))
}

pub open spec fn entries_ascending(x: Seq<(Seq<char>, Seq<char>, Action)>) -> bool {
    forall|i: int, j: int| #![trigger x[i], x[j]] 0 <= i < j < x.len() ==> entry_lt(x[i], x[j])
}

/// A scope's block, each row labelled with the scope.
pub open spec fn labelled(s: Seq<char>, b: Seq<(Seq<char>, Action)>) -> Seq<(Seq<char>, Seq<char>, Action)> {
    b.map_values(|e: (Seq<char>, Action)| (s, e.0, e.1))
}

/// Whether `key` is shown for a binding of `action` in the keymap `v`.
pub open spec fn shows(v: Seq<(KeyCode, Action)>, key: Seq<char>, action: Action) -> bool {
    exists|k: KeyCode| lookup(v, k) == Some(action) && spec_describe_key(k) == key
}

/// Appends a sorted block to the listing, labelled with its scope.
fn append_block(out: &mut Vec<(&'static str, String, Action)>, scope: &'static str, block: &Vec<(Vec<char>, Action)>)
    ensures
        entries_view(final(out)@) == entries_view(old(out)@) + labelled(scope@, block_view(block@)),
{
    let mut i: usize = 0;
    while i < block.len()
        invariant
            0 <= i <= block@.len(),
            entries_view(out@) == entries_view(old(out)@) + labelled(scope@, block_view(block@)).take(i as int),
        decreases block@.len() - i,
    {
        let key = string_of(&block[i].0);
        let ghost before = out@;
        let ghost lb = labelled(scope@, block_view(block@));
        out.push((scope, key, block[i].1));
        assert(out@ == before.push((scope, key, block@[i as int].1)));
        assert(entries_view(out@) =~= entries_view(before).push(entry_view((scope, key, block@[i as int].1))));
        assert(lb[i as int] == (scope@, block@[i as int].0@, block@[i as int].1));
        assert(lb.take(i + 1) =~= lb.take(i as int).push(lb[i as int]));
        assert(entries_view(out@) =~= entries_view(old(out)@) + lb.take(i + 1));
        i = i + 1;
    }
    assert(labelled(scope@, block_view(block@)).take(block@.len() as int) =~= labelled(scope@, block_view(block@)));
}

proof fn lemma_labelled_block(s: Seq<char>, b: Seq<(Seq<char>, Action)>, v: Seq<(KeyCode, Action)>)
    requires
        distinct_keys(v),
        keys_ascending(b),
        lists_exactly(b, v, v.len() as int),
    ensures
        entries_ascending(labelled(s, b)),
        forall|i: int| 0 <= i < labelled(s, b).len() ==> (#[trigger] labelled(s, b)[i]).0 == s,
        forall|e: (Seq<char>, Seq<char>, Action)| #[trigger] labelled(s, b).contains(e) <==> (e.0 == s && shows(v, e.1, e.2)),
{
    reveal(keys_ascending);
    reveal(lists_exactly);
    let l = labelled(s, b);
    assert forall|i: int, j: int| #![trigger l[i], l[j]] 0 <= i < j < l.len() implies entry_lt(l[i], l[j]) by {
        assert(lex_lt(b[i].0, b[j].0));
    }
    assert forall|e: (Seq<char>, Seq<char>, Action)| #[trigger] l.contains(e) <==> (e.0 == s && shows(v, e.1, e.2)) by {
        if l.contains(e) {
            let i = choose|i: int| 0 <= i < l.len() && l[i] == e;
            let q = choose|q: int| 0 <= q < v.len() && #[trigger] b[i] == shown_binding(v[q]);
            lemma_lookup_member(v, v[q].0, v[q].1);
            assert(lookup(v, v[q].0) == Some(e.2));
        }
        if e.0 == s && shows(v, e.1, e.2) {
            let k = choose|k: KeyCode| lookup(v, k) == Some(e.2) && spec_describe_key(k) == e.1;
            lemma_lookup_member(v, k, e.2);
            let q = choose|q: int| 0 <= q < v.len() && v[q] == (k, e.2);
            assert(shown_binding(v[q]) == (e.1, e.2));
            let i = choose|i: int| 0 <= i < b.len() && b[i] == #[trigger] shown_binding(v[q]);
            assert(l[i] == e);
        }
    }
}

proof fn lemma_concat_ascending(x: Seq<(Seq<char>, Seq<char>, Action)>, y: Seq<(Seq<char>, Seq<char>, Action)>, s: Seq<char>)
    requires
        entries_ascending(x),
        entries_ascending(y),
        forall|i: int| 0 <= i < x.len() ==> lex_lt(#[trigger] x[i].0, s),
        forall|j: int| 0 <= j < y.len() ==> (#[trigger] y[j]).0 == s,
    ensures
        entries_ascending(x + y),
{
    let z = x + y;
    assert forall|i: int, j: int| #![trigger z[i], z[j]] 0 <= i < j < z.len() implies entry_lt(z[i], z[j]) by {
        if j < x.len() {
            assert(z[i] == x[i] && z[j] == x[j]);
        } else if i < x.len() {
            assert(z[i] == x[i] && z[j] == y[j - x.len()]);
            assert(lex_lt(x[i].0, s));
        } else {
            assert(z[i] == y[i - x.len()] && z[j] == y[j - x.len()]);
        }
    }
}

/// The scope labels of the listing, in ascending order.
proof fn lemma_scope_order()
    ensures
        lex_lt("GLOBAL (leader)"@, "NOTEBOOKS"@),
        lex_lt("NOTEBOOKS"@, "NOTES"@),
        lex_lt("NOTES"@, "PREVIEW"@),
        lex_lt("GLOBAL (leader)"@, "NOTES"@),
        lex_lt("GLOBAL (leader)"@, "PREVIEW"@),
        lex_lt("NOTEBOOKS"@, "PREVIEW"@),
{
    reveal_strlit("GLOBAL (leader)");
    reveal_strlit("NOTEBOOKS");
    reveal_strlit("NOTES");
    reveal_strlit("PREVIEW");
    reveal_with_fuel(lex_lt_at, 6);
}

impl KeyMaps {
    /// Whether the which-key listing holds the row `e` (scope label, shown
    /// key, action): every binding of every scope, labelled with its scope.
    pub open spec fn lists(self, e: (Seq<char>, Seq<char>, Action)) -> bool {
        ||| e.0 == "GLOBAL (leader)"@ && exists|k: KeyCode| self.global_action(k) == Some(e.2) && spec_describe_key(k) == e.1
        ||| e.0 == "NOTEBOOKS"@ && exists|k: KeyCode| self.scoped_action(Focus::Notebooks, k) == Some(e.2) && spec_describe_key(k) == e.1
        ||| e.0 == "NOTES"@ && exists|k: KeyCode| self.scoped_action(Focus::Notes, k) == Some(e.2) && spec_describe_key(k) == e.1
        ||| e.0 == "PREVIEW"@ && exists|k: KeyCode| self.scoped_action(Focus::Preview, k) == Some(e.2) && spec_describe_key(k) == e.1
    }

    /// (scope label, shown key, action) for every binding, grouped by scope
    /// and sorted by key within each scope.
    pub fn entries(&self) -> (r: Vec<(&'static str, String, Action)>)
        ensures
            entries_ascending(entries_view(r@)),
            forall|e: (Seq<char>, Seq<char>, Action)| #[trigger] entries_view(r@).contains(e) <==> self.lists(e),
    {
        proof {
            use_type_invariant(self);
        }
        let g = sorted_block(&self.global);
        let nb = sorted_block(&self.notebooks);
        let nt = sorted_block(&self.notes);
        let pv = sorted_block(&self.preview);
        let mut out: Vec<(&'static str, String, Action)> = Vec::new();
        append_block(&mut out, "GLOBAL (leader)", &g);
        append_block(&mut out, "NOTEBOOKS", &nb);
        append_block(&mut out, "NOTES", &nt);
        append_block(&mut out, "PREVIEW", &pv);
        proof {
            let lg = labelled("GLOBAL (leader)"@, block_view(g@));
            let lnb = labelled("NOTEBOOKS"@, block_view(nb@));
            let lnt = labelled("NOTES"@, block_view(nt@));
            let lpv = labelled("PREVIEW"@, block_view(pv@));
            assert(entries_view(out@) =~= lg + lnb + lnt + lpv) by {
                assert(entries_view(Seq::<(&'static str, String, Action)>::empty()) =~= Seq::<(Seq<char>, Seq<char>, Action)>::empty());
            }
            lemma_labelled_block("GLOBAL (leader)"@, block_view(g@), self.global@);
            lemma_labelled_block("NOTEBOOKS"@, block_view(nb@), self.notebooks@);
            lemma_labelled_block("NOTES"@, block_view(nt@), self.notes@);
            lemma_labelled_block("PREVIEW"@, block_view(pv@), self.preview@);
            lemma_scope_order();
            lemma_concat_ascending(lg, lnb, "NOTEBOOKS"@);
            let a = lg + lnb;
            assert forall|i: int| 0 <= i < a.len() implies lex_lt(#[trigger] a[i].0, "NOTES"@) by {
                if i < lg.len() {
                    assert(a[i] == lg[i]);
                } else {
                    assert(a[i] == lnb[i - lg.len()]);
                }
            }
            lemma_concat_ascending(a, lnt, "NOTES"@);
            let b = a + lnt;
            assert forall|i: int| 0 <= i < b.len() implies lex_lt(#[trigger] b[i].0, "PREVIEW"@) by {
                if i < a.len() {
                    assert(b[i] == a[i]);
                    if i < lg.len() {
                        assert(a[i] == lg[i]);
                    } else {
                        assert(a[i] == lnb[i - lg.len()]);
                    }
                } else {
                    assert(b[i] == lnt[i - a.len()]);
                }
            }
            lemma_concat_ascending(b, lpv, "PREVIEW"@);
            let all = b + lpv;
            assert forall|e: (Seq<char>, Seq<char>, Action)| #[trigger] all.contains(e) <==> self.lists(e) by {
                assert(all.contains(e) <==> (lg.contains(e) || lnb.contains(e) || lnt.contains(e) || lpv.contains(e))) by {
                    if all.contains(e) {
                        let i = choose|i: int| 0 <= i < all.len() && all[i] == e;
                        if i < lg.len() {
                            assert(lg[i] == e);
                        } else if i < a.len() {
                            assert(lnb[i - lg.len()] == e);
                        } else if i < b.len() {
                            assert(lnt[i - a.len()] == e);
                        } else {
                            assert(lpv[i - b.len()] == e);
                        }
                    }
                    if lg.contains(e) {
                        let i = choose|i: int| 0 <= i < lg.len() && lg[i] == e;
                        assert(all[i] == e);
                    }
                    if lnb.contains(e) {
                        let i = choose|i: int| 0 <= i < lnb.len() && lnb[i] == e;
                        assert(all[lg.len() + i] == e);
                    }
                    if lnt.contains(e) {
                        let i = choose|i: int| 0 <= i < lnt.len() && lnt[i] == e;
                        assert(all[a.len() + i] == e);
                    }
                    if lpv.contains(e) {
                        let i = choose|i: int| 0 <= i < lpv.len() && lpv[i] == e;
                        assert(all[b.len() + i] == e);
                    }
                }
                assert(shows(self.global@, e.1, e.2) == exists|k: KeyCode| self.global_action(k) == Some(e.2) && spec_describe_key(k) == e.1);
            }
        }
        out
    }
}

/// What the help says an action does.
pub open spec fn spec_action_label(a: Action) -> Seq<char> {
    match a {
        Action::ThemePicker => "pick theme"@,
        Action::GlobalSearch => "search all notes"@,
        Action::ToggleTags => "tags panel"@,
        Action::ShowLogs => "view logs"@,
        Action::ToggleFavoriteEditor => "toggle favorite editor"@,
        Action::CheckForUpdate => "check for update"@,
        Action::ToggleDrawer => "toggle notebook drawer"@,
        Action::UndoDelete => "undo last delete"@,
        Action::ToggleSettings => "settings (view + edit config.toml)"@,
        Action::Scratchpad => "open scratchpad"@,
        Action::NewNotebook => "new notebook"@,
        Action::RenameNotebook => "rename notebook"@,
        Action::DeleteNotebook => "delete notebook"@,
        Action::SyncNotebook => "git sync"@,
        Action::PullNotebook => "git pull"@,
        Action::PullAllNotebooks => "git pull (all notebooks)"@,
        Action::SetRemote => "set git remote"@,
        Action::PushNotebook => "sync + push now (ignores auto_push)"@,
        Action::NewNote => "new note"@,
        Action::NewFolder => "new folder"@,
        Action::RenameNote => "rename note"@,
        Action::DeleteNote => "delete note"@,
        Action::JumpSearch => "jump to note (fuzzy)"@,
        Action::DailyNote => "daily note"@,
        Action::MoveNote => "move to notebook"@,
        Action::SortNotes => "cycle sort order"@,
        Action::ToggleTreeView => "notebook tree (all notes)"@,
        Action::ToggleDates => "toggle note dates in list"@,
        Action::ToggleVisual => "select mode (multi-select)"@,
        Action::CopyEntries => "copy selection to… (visual mode)"@,
        Action::EditInline => "edit (insert mode)"@,
        Action::EditExternal => "edit externally ($EDITOR)"@,
        Action::ShowHistory => "note history (view/revert)"@,
        Action::ShowLinks => "links (outgoing / backlinks / mentions)"@,
        Action::ToggleTasks => "tasks (all notebooks)"@,
        Action::ToggleQuery => "query notes (frontmatter filter/sort)"@,
        Action::PublishNotebook => "publish notebook to PDF"@,
        Action::ExportNotebook => "export notebook to HTML/Markdown"@,
        Action::ToggleZenMode => "zen mode (full-screen, hide side panels)"@,
        Action::ShowOutline => "outline (jump to a heading)"@,
    }
}

/// What the help says an action does.
pub fn action_label(action: Action) -> (r: &'static str)
    ensures
        r@ == spec_action_label(action),
{
    match action {
        Action::ThemePicker => "pick theme",
        Action::GlobalSearch => "search all notes",
        Action::ToggleTags => "tags panel",
        Action::ShowLogs => "view logs",
        Action::ToggleFavoriteEditor => "toggle favorite editor",
        Action::CheckForUpdate => "check for update",
        Action::ToggleDrawer => "toggle notebook drawer",
        Action::UndoDelete => "undo last delete",
        Action::ToggleSettings => "settings (view + edit config.toml)",
        Action::Scratchpad => "open scratchpad",
        Action::NewNotebook => "new notebook",
        Action::RenameNotebook => "rename notebook",
        Action::DeleteNotebook => "delete notebook",
        Action::SyncNotebook => "git sync",
        Action::PullNotebook => "git pull",
        Action::PullAllNotebooks => "git pull (all notebooks)",
        Action::SetRemote => "set git remote",
        Action::PushNotebook => "sync + push now (ignores auto_push)",
        Action::NewNote => "new note",
        Action::NewFolder => "new folder",
        Action::RenameNote => "rename note",
        Action::DeleteNote => "delete note",
        Action::JumpSearch => "jump to note (fuzzy)",
        Action::DailyNote => "daily note",
        Action::MoveNote => "move to notebook",
        Action::SortNotes => "cycle sort order",
        Action::ToggleTreeView => "notebook tree (all notes)",
        Action::ToggleDates => "toggle note dates in list",
        Action::ToggleVisual => "select mode (multi-select)",
        Action::CopyEntries => "copy selection to… (visual mode)",
        Action::EditInline => "edit (insert mode)",
        Action::EditExternal => "edit externally ($EDITOR)",
        Action::ShowHistory => "note history (view/revert)",
        Action::ShowLinks => "links (outgoing / backlinks / mentions)",
        Action::ToggleTasks => "tasks (all notebooks)",
        Action::ToggleQuery => "query notes (frontmatter filter/sort)",
        Action::PublishNotebook => "publish notebook to PDF",
        Action::ExportNotebook => "export notebook to HTML/Markdown",
        Action::ToggleZenMode => "zen mode (full-screen, hide side panels)",
        Action::ShowOutline => "outline (jump to a heading)",
    }
}

/// The icon the help shows beside an action.
pub open spec fn spec_action_icon(a: Action) -> Icon {
    match a {
        Action::ThemePicker => spec_eye(),
        Action::GlobalSearch => spec_search(),
        Action::JumpSearch => spec_search(),
        Action::ToggleTags => spec_tag(),
        Action::ShowLogs => spec_list(),
        Action::ToggleFavoriteEditor => spec_pencil(),
        Action::CheckForUpdate => spec_download(),
        Action::ToggleDrawer => spec_columns(),
        Action::NewNotebook => spec_note(),
        Action::NewNote => spec_note(),
        Action::NewFolder => spec_notebook(),
        Action::RenameNotebook => spec_pencil(),
        Action::RenameNote => spec_pencil(),
        Action::DeleteNotebook => spec_warning(),
        Action::DeleteNote => spec_warning(),
        Action::SyncNotebook => spec_git(),
        Action::PullNotebook => spec_git(),
        Action::PullAllNotebooks => spec_git(),
        Action::SetRemote => spec_git(),
        Action::PushNotebook => spec_git(),
        Action::EditInline => spec_pencil(),
        Action::EditExternal => spec_pencil(),
        Action::DailyNote => spec_calendar(),
        Action::MoveNote => spec_arrow(),
        Action::SortNotes => spec_columns(),
        Action::ToggleTreeView => spec_tree(),
        Action::ToggleDates => spec_history(),
        Action::ShowHistory => spec_history(),
        Action::ToggleVisual => spec_check(),
        Action::ToggleTasks => spec_check(),
        Action::ToggleQuery => spec_filter(),
        Action::CopyEntries => spec_clipboard(),
        Action::ShowLinks => spec_link(),
        Action::UndoDelete => spec_undo(),
        Action::ToggleSettings => spec_gear(),
        Action::Scratchpad => spec_pencil(),
        Action::PublishNotebook => spec_pdf(),
        Action::ExportNotebook => spec_note(),
        Action::ToggleZenMode => spec_expand(),
        Action::ShowOutline => spec_tree(),
    }
}

/// The icon the help shows beside an action.
pub fn action_icon(action: Action) -> (r: Icon)
    ensures
        r == spec_action_icon(action),
{
    match action {
        Action::ThemePicker => crate::icons::eye(),
        Action::GlobalSearch => crate::icons::search(),
        Action::JumpSearch => crate::icons::search(),
        Action::ToggleTags => crate::icons::tag(),
        Action::ShowLogs => crate::icons::list(),
        Action::ToggleFavoriteEditor => crate::icons::pencil(),
        Action::CheckForUpdate => crate::icons::download(),
        Action::ToggleDrawer => crate::icons::columns(),
        Action::NewNotebook => crate::icons::note(),
        Action::NewNote => crate::icons::note(),
        Action::NewFolder => crate::icons::notebook(),
        Action::RenameNotebook => crate::icons::pencil(),
        Action::RenameNote => crate::icons::pencil(),
        Action::DeleteNotebook => crate::icons::warning(),
        Action::DeleteNote => crate::icons::warning(),
        Action::SyncNotebook => crate::icons::git(),
        Action::PullNotebook => crate::icons::git(),
        Action::PullAllNotebooks => crate::icons::git(),
        Action::SetRemote => crate::icons::git(),
        Action::PushNotebook => crate::icons::git(),
        Action::EditInline => crate::icons::pencil(),
        Action::EditExternal => crate::icons::pencil(),
        Action::DailyNote => crate::icons::calendar(),
        Action::MoveNote => crate::icons::arrow(),
        Action::SortNotes => crate::icons::columns(),
        Action::ToggleTreeView => crate::icons::tree(),
        Action::ToggleDates => crate::icons::history(),
        Action::ShowHistory => crate::icons::history(),
        Action::ToggleVisual => crate::icons::check(),
        Action::ToggleTasks => crate::icons::check(),
        Action::ToggleQuery => crate::icons::filter(),
        Action::CopyEntries => crate::icons::clipboard(),
        Action::ShowLinks => crate::icons::link(),
        Action::UndoDelete => crate::icons::undo(),
        Action::ToggleSettings => crate::icons::gear(),
        Action::Scratchpad => crate::icons::pencil(),
        Action::PublishNotebook => crate::icons::pdf(),
        Action::ExportNotebook => crate::icons::note(),
        Action::ToggleZenMode => crate::icons::expand(),
        Action::ShowOutline => crate::icons::tree(),
    }
}

pub open spec fn nav_view(v: Seq<(&'static str, String, &'static str)>) -> Seq<(Seq<char>, Seq<char>, Seq<char>)> {
    v.map_values(|e: (&'static str, String, &'static str)| (e.0@, e.1@, e.2@))
}

/// The hardcoded navigation rows of the help, ending with the quit key.
pub open spec fn spec_nav_rows(quit: KeyCode) -> Seq<(Seq<char>, Seq<char>, Seq<char>)> {
    seq![
        ("NAVIGATION"@, "j / ↓"@, "move down"@),
        ("NAVIGATION"@, "k / ↑"@, "move up"@),
        ("NAVIGATION"@, "PageDown"@, "move down a page"@),
        ("NAVIGATION"@, "PageUp"@, "move up a page"@),
        ("NAVIGATION"@, "Home"@, "jump to the top"@),
        ("NAVIGATION"@, "End"@, "jump to the bottom"@),
        ("NAVIGATION"@, "l / → / enter"@, "open (a folder, or the next panel)"@),
        ("NAVIGATION"@, "h / ←"@, "back (up a folder, or the previous panel)"@),
        ("NAVIGATION"@, "Tab"@, "switch panel"@),
        ("NAVIGATION"@, "?"@, "this help / command palette"@),
        ("NAVIGATION"@, spec_describe_key(quit), "quit shiki"@),
    ]
}

fn nav_row(key: &str, label: &'static str) -> (r: (&'static str, String, &'static str))
    ensures
        r.0@ == "NAVIGATION"@,
        r.1@ == key@,
        r.2@ == label@,
{
    let k = chars_of(key);
    ("NAVIGATION", string_of(&k), label)
}

impl KeyMaps {
    /// The navigation and quit keys for the help: these behave the same in
    /// every scope and are not configurable, so they have no action behind
    /// them.
    pub fn nav_rows(&self) -> (r: Vec<(&'static str, String, &'static str)>)
        ensures
            nav_view(r@) == spec_nav_rows(self.quit_spec()),
    {
        let quit = ("NAVIGATION", describe_key(self.quit), "quit shiki");
        let r = vec![
        nav_row("j / ↓", "move down"),
        nav_row("k / ↑", "move up"),
        nav_row("PageDown", "move down a page"),
        nav_row("PageUp", "move up a page"),
        nav_row("Home", "jump to the top"),
        nav_row("End", "jump to the bottom"),
        nav_row("l / → / enter", "open (a folder, or the next panel)"),
        nav_row("h / ←", "back (up a folder, or the previous panel)"),
        nav_row("Tab", "switch panel"),
        nav_row("?", "this help / command palette"),
            quit,
        ];
        assert(nav_view(r@) =~= spec_nav_rows(self.quit_spec()));
        r
    }
}

/// A row of the which-key popup: a dispatchable binding, a documented
/// navigation key with nothing to dispatch, or a note matching the filter
/// (`pool_index` into the global search pool).
#[derive(Debug, Clone)]
pub enum WhichKeyRow {
    Bound { scope: &'static str, key: String, action: Action },
    Nav { scope: &'static str, key: String, label: &'static str },
    NoteHit { pool_index: usize, label: String },
}

impl WhichKeyRow {
    pub open spec fn spec_scope(&self) -> Seq<char> {
        match self {
            WhichKeyRow::Bound { scope, .. } => scope@,
            WhichKeyRow::Nav { scope, .. } => scope@,
            WhichKeyRow::NoteHit { .. } => "notes"@,
        }
    }

    pub open spec fn spec_key(&self) -> Seq<char> {
        match self {
            WhichKeyRow::Bound { key, .. } => key@,
            WhichKeyRow::Nav { key, .. } => key@,
            WhichKeyRow::NoteHit { .. } => Seq::empty(),
        }
    }

    pub open spec fn spec_label(&self) -> Seq<char> {
        match self {
            WhichKeyRow::Bound { action, .. } => spec_action_label(*action),
            WhichKeyRow::Nav { label, .. } => label@,
            WhichKeyRow::NoteHit { label, .. } => label@,
        }
    }

    pub open spec fn spec_icon(&self) -> Icon {
        match self {
            WhichKeyRow::Bound { action, .. } => spec_action_icon(*action),
            WhichKeyRow::Nav { .. } => spec_arrow(),
            WhichKeyRow::NoteHit { .. } => spec_note(),
        }
    }

    /// The scope column; a note hit is listed under `notes`.
    pub fn scope(&self) -> (r: &'static str)
        ensures
            r@ == self.spec_scope(),
    {
        match self {
            WhichKeyRow::Bound { scope, .. } => scope,
            WhichKeyRow::Nav { scope, .. } => scope,
            WhichKeyRow::NoteHit { .. } => "notes",
        }
    }

    /// The key column; a note hit has no key.
    pub fn key(&self) -> (r: &str)
        ensures
            r@ == self.spec_key(),
    {
        match self {
            WhichKeyRow::Bound { key, .. } => key.as_str(),
            WhichKeyRow::Nav { key, .. } => key.as_str(),
            WhichKeyRow::NoteHit { .. } => {
                proof {
                    reveal_strlit("");
                }
                ""
            },
        }
    }

    /// The description column: the action's label, or the row's own text.
    pub fn label(&self) -> (r: &str)
        ensures
            r@ == self.spec_label(),
    {
        match self {
            WhichKeyRow::Bound { action, .. } => action_label(*action),
            WhichKeyRow::Nav { label, .. } => label,
            WhichKeyRow::NoteHit { label, .. } => label.as_str(),
        }
    }

    /// The icon column: the action's icon, the arrow for navigation, the
    /// note icon for a note hit.
    pub fn icon(&self) -> (r: Icon)
        ensures
            r == self.spec_icon(),
    {
        match self {
            WhichKeyRow::Bound { action, .. } => action_icon(*action),
            WhichKeyRow::Nav { .. } => crate::icons::arrow(),
            WhichKeyRow::NoteHit { .. } => crate::icons::note(),
        }
    }
}

/// The help never shows the same words for two actions, nor an empty
/// label: every action's label is non-empty and differs from every other
/// action's.
pub proof fn lemma_action_labels_distinct(a: Action, b: Action)
    ensures
        spec_action_label(a).len() > 0,
        a != b ==> spec_action_label(a) != spec_action_label(b),
{
    reveal_strlit("pick theme");
    assert("pick theme"@.len() == 10);
    reveal_strlit("search all notes");
    assert("search all notes"@.len() == 16);
    reveal_strlit("tags panel");
    assert("tags panel"@.len() == 10);
    reveal_strlit("view logs");
    assert("view logs"@.len() == 9);
    reveal_strlit("toggle favorite editor");
    assert("toggle favorite editor"@.len() == 22);
    reveal_strlit("check for update");
    assert("check for update"@.len() == 16);
    reveal_strlit("toggle notebook drawer");
    assert("toggle notebook drawer"@.len() == 22);
    reveal_strlit("undo last delete");
    assert("undo last delete"@.len() == 16);
    reveal_strlit("settings (view + edit config.toml)");
    assert("settings (view + edit config.toml)"@.len() == 34);
    reveal_strlit("open scratchpad");
    assert("open scratchpad"@.len() == 15);
    reveal_strlit("new notebook");
    assert("new notebook"@.len() == 12);
    reveal_strlit("rename notebook");
    assert("rename notebook"@.len() == 15);
    reveal_strlit("delete notebook");
    assert("delete notebook"@.len() == 15);
    reveal_strlit("git sync");
    assert("git sync"@.len() == 8);
    reveal_strlit("git pull");
    assert("git pull"@.len() == 8);
    reveal_strlit("git pull (all notebooks)");
    assert("git pull (all notebooks)"@.len() == 24);
    reveal_strlit("set git remote");
    assert("set git remote"@.len() == 14);
    reveal_strlit("sync + push now (ignores auto_push)");
    assert("sync + push now (ignores auto_push)"@.len() == 35);
    reveal_strlit("new note");
    assert("new note"@.len() == 8);
    reveal_strlit("new folder");
    assert("new folder"@.len() == 10);
    reveal_strlit("rename note");
    assert("rename note"@.len() == 11);
    reveal_strlit("delete note");
    assert("delete note"@.len() == 11);
    reveal_strlit("jump to note (fuzzy)");
    assert("jump to note (fuzzy)"@.len() == 20);
    reveal_strlit("daily note");
    assert("daily note"@.len() == 10);
    reveal_strlit("move to notebook");
    assert("move to notebook"@.len() == 16);
    reveal_strlit("cycle sort order");
    assert("cycle sort order"@.len() == 16);
    reveal_strlit("notebook tree (all notes)");
    assert("notebook tree (all notes)"@.len() == 25);
    reveal_strlit("toggle note dates in list");
    assert("toggle note dates in list"@.len() == 25);
    reveal_strlit("select mode (multi-select)");
    assert("select mode (multi-select)"@.len() == 26);
    reveal_strlit("copy selection to… (visual mode)");
    assert("copy selection to… (visual mode)"@.len() == 32);
    reveal_strlit("edit (insert mode)");
    assert("edit (insert mode)"@.len() == 18);
    reveal_strlit("edit externally ($EDITOR)");
    assert("edit externally ($EDITOR)"@.len() == 25);
    reveal_strlit("note history (view/revert)");
    assert("note history (view/revert)"@.len() == 26);
    reveal_strlit("links (outgoing / backlinks / mentions)");
    assert("links (outgoing / backlinks / mentions)"@.len() == 39);
    reveal_strlit("tasks (all notebooks)");
    assert("tasks (all notebooks)"@.len() == 21);
    reveal_strlit("query notes (frontmatter filter/sort)");
    assert("query notes (frontmatter filter/sort)"@.len() == 37);
    reveal_strlit("publish notebook to PDF");
    assert("publish notebook to PDF"@.len() == 23);
    reveal_strlit("export notebook to HTML/Markdown");
    assert("export notebook to HTML/Markdown"@.len() == 32);
    reveal_strlit("zen mode (full-screen, hide side panels)");
    assert("zen mode (full-screen, hide side panels)"@.len() == 40);
    reveal_strlit("outline (jump to a heading)");
    assert("outline (jump to a heading)"@.len() == 27);
    match a {
        Action::ThemePicker => {
            assert("pick theme"@[0] != "tags panel"@[0]);
            assert("pick theme"@[0] != "new folder"@[0]);
            assert("pick theme"@[0] != "daily note"@[0]);
        },
        Action::GlobalSearch => {
            assert("search all notes"@[0] != "check for update"@[0]);
            assert("search all notes"@[0] != "undo last delete"@[0]);
            assert("search all notes"@[0] != "move to notebook"@[0]);
            assert("search all notes"@[0] != "cycle sort order"@[0]);
        },
        Action::ToggleTags => {
            assert("tags panel"@[0] != "pick theme"@[0]);
            assert("tags panel"@[0] != "new folder"@[0]);
            assert("tags panel"@[0] != "daily note"@[0]);
        },
        Action::ShowLogs => {
        },
        Action::ToggleFavoriteEditor => {
            assert("toggle favorite editor"@[7] != "toggle notebook drawer"@[7]);
        },
        Action::CheckForUpdate => {
            assert("check for update"@[0] != "search all notes"@[0]);
            assert("check for update"@[0] != "undo last delete"@[0]);
            assert("check for update"@[0] != "move to notebook"@[0]);
            assert("check for update"@[1] != "cycle sort order"@[1]);
        },
        Action::ToggleDrawer => {
            assert("toggle notebook drawer"@[7] != "toggle favorite editor"@[7]);
        },
        Action::UndoDelete => {
            assert("undo last delete"@[0] != "search all notes"@[0]);
            assert("undo last delete"@[0] != "check for update"@[0]);
            assert("undo last delete"@[0] != "move to notebook"@[0]);
            assert("undo last delete"@[0] != "cycle sort order"@[0]);
        },
        Action::ToggleSettings => {
        },
        Action::Scratchpad => {
            assert("open scratchpad"@[0] != "rename notebook"@[0]);
            assert("open scratchpad"@[0] != "delete notebook"@[0]);
        },
        Action::NewNotebook => {
        },
        Action::RenameNotebook => {
            assert("rename notebook"@[0] != "open scratchpad"@[0]);
            assert("rename notebook"@[0] != "delete notebook"@[0]);
        },
        Action::DeleteNotebook => {
            assert("delete notebook"@[0] != "open scratchpad"@[0]);
            assert("delete notebook"@[0] != "rename notebook"@[0]);
        },
        Action::SyncNotebook => {
            assert("git sync"@[4] != "git pull"@[4]);
            assert("git sync"@[0] != "new note"@[0]);
        },
        Action::PullNotebook => {
            assert("git pull"@[4] != "git sync"@[4]);
            assert("git pull"@[0] != "new note"@[0]);
        },
        Action::PullAllNotebooks => {
        },
        Action::SetRemote => {
        },
        Action::PushNotebook => {
        },
        Action::NewNote => {
            assert("new note"@[0] != "git sync"@[0]);
            assert("new note"@[0] != "git pull"@[0]);
        },
        Action::NewFolder => {
            assert("new folder"@[0] != "pick theme"@[0]);
            assert("new folder"@[0] != "tags panel"@[0]);
            assert("new folder"@[0] != "daily note"@[0]);
        },
        Action::RenameNote => {
            assert("rename note"@[0] != "delete note"@[0]);
        },
        Action::DeleteNote => {
            assert("delete note"@[0] != "rename note"@[0]);
        },
        Action::JumpSearch => {
        },
        Action::DailyNote => {
            assert("daily note"@[0] != "pick theme"@[0]);
            assert("daily note"@[0] != "tags panel"@[0]);
            assert("daily note"@[0] != "new folder"@[0]);
        },
        Action::MoveNote => {
            assert("move to notebook"@[0] != "search all notes"@[0]);
            assert("move to notebook"@[0] != "check for update"@[0]);
            assert("move to notebook"@[0] != "undo last delete"@[0]);
            assert("move to notebook"@[0] != "cycle sort order"@[0]);
        },
        Action::SortNotes => {
            assert("cycle sort order"@[0] != "search all notes"@[0]);
            assert("cycle sort order"@[1] != "check for update"@[1]);
            assert("cycle sort order"@[0] != "undo last delete"@[0]);
            assert("cycle sort order"@[0] != "move to notebook"@[0]);
        },
        Action::ToggleTreeView => {
            assert("notebook tree (all notes)"@[0] != "toggle note dates in list"@[0]);
            assert("notebook tree (all notes)"@[0] != "edit externally ($EDITOR)"@[0]);
        },
        Action::ToggleDates => {
            assert("toggle note dates in list"@[0] != "notebook tree (all notes)"@[0]);
            assert("toggle note dates in list"@[0] != "edit externally ($EDITOR)"@[0]);
        },
        Action::ToggleVisual => {
            assert("select mode (multi-select)"@[0] != "note history (view/revert)"@[0]);
        },
        Action::CopyEntries => {
            assert("copy selection to… (visual mode)"@[0] != "export notebook to HTML/Markdown"@[0]);
        },
        Action::EditInline => {
        },
        Action::EditExternal => {
            assert("edit externally ($EDITOR)"@[0] != "notebook tree (all notes)"@[0]);
            assert("edit externally ($EDITOR)"@[0] != "toggle note dates in list"@[0]);
        },
        Action::ShowHistory => {
            assert("note history (view/revert)"@[0] != "select mode (multi-select)"@[0]);
        },
        Action::ShowLinks => {
        },
        Action::ToggleTasks => {
        },
        Action::ToggleQuery => {
        },
        Action::PublishNotebook => {
        },
        Action::ExportNotebook => {
            assert("export notebook to HTML/Markdown"@[0] != "copy selection to… (visual mode)"@[0]);
        },
        Action::ToggleZenMode => {
        },
        Action::ShowOutline => {
        },
    }
}

} // verus!
