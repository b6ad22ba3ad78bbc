//! The settings popup's keyboard: which command a key stands for, given the
//! tab that is open, whether a notebook or a snippet is drilled into, and
//! the highlighted row.
use vstd::prelude::*;
use crate::list_nav::{list_step, spec_list_step, ListKey};

verus! {

/// The tabs of the settings popup.
#[derive(Debug, Clone, Copy, PartialEq, Eq, Structural)]
pub enum SettingsSection {
    General,
    Theme,
    Git,
    Editor,
    Notebooks,
    Snippets,
}

/// A key pressed on the settings popup.
#[derive(Debug, Clone, Copy, PartialEq, Eq, Structural)]
pub enum SettingsKey {
    Left,
    Right,
    Esc,
    Down,
    Up,
    PageDown,
    PageUp,
    Home,
    End,
    Enter,
    Backspace,
    Char(char),
    Other,
}

/// What the popup shows and where its highlight is.
#[derive(Debug, Clone, Copy, PartialEq, Eq, Structural)]
pub struct SettingsView {
    pub section: SettingsSection,
    /// A notebook's own fields are open.
    pub notebook_drill: bool,
    /// A snippet's own fields are open.
    pub snippet_drill: bool,
    /// The highlighted row.
    pub selected: usize,
    /// How many rows the open tab has.
    pub rows: usize,
    /// How many rows a page holds.
    pub page: usize,
    /// How many notebooks the Notebooks tab lists.
    pub notebooks: usize,
    /// How many snippets the Snippets tab lists.
    pub snippets: usize,
    /// `i` opens the favorite editor rather than the inline one.
    pub use_favorite_editor: bool,
}

/// What a key on the settings popup does.
#[derive(Debug, Clone, Copy, PartialEq, Eq, Structural)]
pub enum SettingsCommand {
    /// Open the next (`forward`) or previous tab, on its first row, with
    /// no drill open.
    SwitchSection { forward: bool },
    /// The key goes to the open notebook's fields.
    NotebookFieldKey,
    /// The key goes to the open snippet's fields.
    SnippetFieldKey,
    /// Close the popup.
    Close,
    /// Highlight this row.
    Select(usize),
    /// Act on the highlighted row of the tab that is open.
    GeneralFieldEnter,
    ThemeFieldEnter,
    GitFieldEnter,
    EditorFieldEnter,
    /// Open the fields of the notebook (or snippet) listed on this row.
    DrillNotebook(usize),
    DrillSnippet(usize),
    NewSnippet,
    DeleteSnippet,
    /// Close the popup and edit the configuration file in the favorite
    /// editor, inline, or in the configured editor.
    EditConfigFavorite,
    EditConfigInline,
    EditConfigExternal,
    Nothing,
}

/// The navigation key among the popup's keys (`j` and `k` move too).
pub open spec fn nav_key(key: SettingsKey) -> Option<ListKey> {
    match key {
        SettingsKey::Down | SettingsKey::Char('j') => Some(ListKey::Down),
        SettingsKey::Up | SettingsKey::Char('k') => Some(ListKey::Up),
        SettingsKey::PageDown => Some(ListKey::PageDown),
        SettingsKey::PageUp => Some(ListKey::PageUp),
        SettingsKey::Home => Some(ListKey::Home),
        SettingsKey::End => Some(ListKey::End),
        _ => None,
    }
}

/// The command for `key`: the arrows left and right switch tabs whatever is
/// open; a drilled-in notebook or snippet takes every other key; then
/// `Esc`/`q` close, the navigation keys move the highlight, `Enter`/`l` act
/// on the highlighted row (on the Notebooks and Snippets tabs, drill into
/// the row's entry if there is one), `a` and `d` add and delete a snippet
/// on the Snippets tab, `i` edits the configuration in the favorite or the
/// inline editor, `E` in the configured editor.
pub open spec fn spec_settings_command(key: SettingsKey, s: SettingsView) -> SettingsCommand {
    if key == SettingsKey::Left {
        SettingsCommand::SwitchSection { forward: false }
    } else if key == SettingsKey::Right {
        SettingsCommand::SwitchSection { forward: true }
    } else if s.notebook_drill {
        SettingsCommand::NotebookFieldKey
    } else if s.snippet_drill {
        SettingsCommand::SnippetFieldKey
    } else if key == SettingsKey::Esc || key == SettingsKey::Char('q') {
        SettingsCommand::Close
    } else if nav_key(key) is Some {
        SettingsCommand::Select(
            spec_list_step(s.selected as int, s.rows as int, nav_key(key)->0, s.page as int) as usize,
        )
    } else if key == SettingsKey::Enter || key == SettingsKey::Char('l') {
        match s.section {
            SettingsSection::General => SettingsCommand::GeneralFieldEnter,
            SettingsSection::Theme => SettingsCommand::ThemeFieldEnter,
            SettingsSection::Git => SettingsCommand::GitFieldEnter,
            SettingsSection::Editor => SettingsCommand::EditorFieldEnter,
            SettingsSection::Notebooks => if s.selected < s.notebooks {
                SettingsCommand::DrillNotebook(s.selected)
            } else {
                SettingsCommand::Nothing
            },
            SettingsSection::Snippets => if s.selected < s.snippets {
                SettingsCommand::DrillSnippet(s.selected)
            } else {
                SettingsCommand::Nothing
            },
        }
    } else if key == SettingsKey::Char('a') && s.section == SettingsSection::Snippets {
        SettingsCommand::NewSnippet
    } else if key == SettingsKey::Char('d') && s.section == SettingsSection::Snippets {
        SettingsCommand::DeleteSnippet
    } else if key == SettingsKey::Char('i') {
        if s.use_favorite_editor {
            SettingsCommand::EditConfigFavorite
        } else {
            SettingsCommand::EditConfigInline
        }
    } else if key == SettingsKey::Char('E') {
        SettingsCommand::EditConfigExternal
    } else {
        SettingsCommand::Nothing
    }
}

fn to_list_key(key: SettingsKey) -> (r: Option<ListKey>)
    ensures
        r == nav_key(key),
{
    match key {
        SettingsKey::Down => Some(ListKey::Down),
        SettingsKey::Up => Some(ListKey::Up),
        SettingsKey::PageDown => Some(ListKey::PageDown),
        SettingsKey::PageUp => Some(ListKey::PageUp),
        SettingsKey::Home => Some(ListKey::Home),
        SettingsKey::End => Some(ListKey::End),
        SettingsKey::Char(c) => if c == 'j' {
            Some(ListKey::Down)
        } else if c == 'k' {
            Some(ListKey::Up)
        } else {
            None
        },
        _ => None,
    }
}

/// The command for a key pressed on the settings popup.
pub fn settings_command(key: SettingsKey, s: &SettingsView) -> (r: SettingsCommand)
    ensures
        r == spec_settings_command(key, *s),
{
    match key {
        SettingsKey::Left => return SettingsCommand::SwitchSection { forward: false },
        SettingsKey::Right => return SettingsCommand::SwitchSection { forward: true },
        _ => {},
    }
    if s.notebook_drill {
        return SettingsCommand::NotebookFieldKey;
    }
    if s.snippet_drill {
        return SettingsCommand::SnippetFieldKey;
    }
    let c: char = match key {
        SettingsKey::Char(c) => c,
        _ => '\0',
    };
    let is_char = match key {
        SettingsKey::Char(_) => true,
        _ => false,
    };
    if (match key { SettingsKey::Esc => true, _ => false }) || (is_char && c == 'q') {
        return SettingsCommand::Close;
    }
    match to_list_key(key) {
        Some(k) => return SettingsCommand::Select(list_step(s.selected, s.rows, k, s.page)),
        None => {},
    }
    if (match key { SettingsKey::Enter => true, _ => false }) || (is_char && c == 'l') {
        return match s.section {
            SettingsSection::General => SettingsCommand::GeneralFieldEnter,
            SettingsSection::Theme => SettingsCommand::ThemeFieldEnter,
            SettingsSection::Git => SettingsCommand::GitFieldEnter,
            SettingsSection::Editor => SettingsCommand::EditorFieldEnter,
            SettingsSection::Notebooks => if s.selected < s.notebooks {
                SettingsCommand::DrillNotebook(s.selected)
            } else {
                SettingsCommand::Nothing
            },
            SettingsSection::Snippets => if s.selected < s.snippets {
                SettingsCommand::DrillSnippet(s.selected)
            } else {
                SettingsCommand::Nothing
            },
        };
    }
    let snippets_tab = match s.section {
        SettingsSection::Snippets => true,
        _ => false,
    };
    if is_char && c == 'a' && snippets_tab {
        SettingsCommand::NewSnippet
    } else if is_char && c == 'd' && snippets_tab {
        SettingsCommand::DeleteSnippet
    } else if is_char && c == 'i' {
        if s.use_favorite_editor {
            SettingsCommand::EditConfigFavorite
        } else {
            SettingsCommand::EditConfigInline
        }
    } else if is_char && c == 'E' {
        SettingsCommand::EditConfigExternal
    } else {
        SettingsCommand::Nothing
    }
}

/// The highlight never leaves the tab: on a tab with rows, from a row of
/// it, every key that moves the highlight lands on a row, and a drill opens
/// only an entry that is listed.
pub proof fn lemma_settings_highlight_stays(key: SettingsKey, s: SettingsView)
    requires
        s.selected < s.rows,
    ensures
        spec_settings_command(key, s) matches SettingsCommand::Select(n) ==> n < s.rows,
        spec_settings_command(key, s) matches SettingsCommand::DrillNotebook(n) ==> n < s.notebooks,
        spec_settings_command(key, s) matches SettingsCommand::DrillSnippet(n) ==> n < s.snippets,
{
    if nav_key(key) is Some {
        crate::list_nav::lemma_list_step_stays_in_list(
            s.selected as int,
            s.rows as int,
            nav_key(key)->0,
            s.page as int,
        );
    }
}

} // verus!
