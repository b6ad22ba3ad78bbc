//! The settings popup's rows: what `Enter` on a GENERAL or GIT row does,
//! the keys of a drilled-in notebook or snippet, and the three-way cycle of
//! a notebook's overrides.
use vstd::prelude::*;
use crate::confirm::{GeneralField, GitField};
use crate::settings_keys::SettingsKey;

verus! {

/// What `Enter` on a row does: flip a switch in place, or open a prompt
/// titled with the setting's name.
#[derive(Debug, Clone, Copy, PartialEq, Eq)]
pub enum RowEnter<F> {
    Toggle(F),
    Prompt(F),
}

/// The name a GENERAL row's prompt is titled with.
pub open spec fn spec_general_label(f: GeneralField) -> Seq<char> {
    match f {
        GeneralField::DefaultNotebook => "default_notebook"@,
        GeneralField::Editor => "editor"@,
        GeneralField::DailyTemplate => "daily_template"@,
        GeneralField::UseFavoriteEditor => "use_favorite_editor"@,
        GeneralField::MouseDragSelection => "mouse_drag_selection"@,
        GeneralField::ShowHints => "show_hints"@,
        GeneralField::RememberLastSession => "remember_last_session"@,
    }
}

pub fn general_label(f: GeneralField) -> (r: &'static str)
    ensures
        r@ == spec_general_label(f),
{
    match f {
        GeneralField::DefaultNotebook => "default_notebook",
        GeneralField::Editor => "editor",
        GeneralField::DailyTemplate => "daily_template",
        GeneralField::UseFavoriteEditor => "use_favorite_editor",
        GeneralField::MouseDragSelection => "mouse_drag_selection",
        GeneralField::ShowHints => "show_hints",
        GeneralField::RememberLastSession => "remember_last_session",
    }
}

/// Whether a GENERAL row is a switch.
pub open spec fn is_general_switch(f: GeneralField) -> bool {
    f == GeneralField::UseFavoriteEditor || f == GeneralField::MouseDragSelection || f == GeneralField::ShowHints
        || f == GeneralField::RememberLastSession
}

/// `Enter` on a GENERAL row: the four switches flip, the default notebook,
/// the editor and the daily template open a prompt.
pub fn general_field_enter(f: GeneralField) -> (r: RowEnter<GeneralField>)
    ensures
        r == (if is_general_switch(f) { RowEnter::Toggle(f) } else { RowEnter::Prompt(f) }),
{
    match f {
        GeneralField::UseFavoriteEditor | GeneralField::MouseDragSelection | GeneralField::ShowHints
        | GeneralField::RememberLastSession => RowEnter::Toggle(f),
        _ => RowEnter::Prompt(f),
    }
}

/// The name a GIT row's prompt is titled with.
pub open spec fn spec_git_label(f: GitField) -> Seq<char> {
    match f {
        GitField::AutoSyncEvery => "auto_sync_every"@,
        GitField::RemoteTemplate => "remote_template"@,
        GitField::CommitPrefix => "commit_prefix"@,
        GitField::Remote => "remote"@,
        GitField::Branch => "branch"@,
        GitField::AutoCommit => "auto_commit"@,
        GitField::AutoPush => "auto_push"@,
        GitField::SignCommits => "sign_commits"@,
        GitField::AutoSync => "auto_sync"@,
    }
}

pub fn git_label(f: GitField) -> (r: &'static str)
    ensures
        r@ == spec_git_label(f),
{
    match f {
        GitField::AutoSyncEvery => "auto_sync_every",
        GitField::RemoteTemplate => "remote_template",
        GitField::CommitPrefix => "commit_prefix",
        GitField::Remote => "remote",
        GitField::Branch => "branch",
        GitField::AutoCommit => "auto_commit",
        GitField::AutoPush => "auto_push",
        GitField::SignCommits => "sign_commits",
        GitField::AutoSync => "auto_sync",
    }
}

/// Whether a GIT row is a switch.
pub open spec fn is_git_switch(f: GitField) -> bool {
    f == GitField::AutoCommit || f == GitField::AutoPush || f == GitField::SignCommits || f == GitField::AutoSync
}

/// `Enter` on a GIT row: the four switches flip; the sync interval and the
/// texts open a prompt.
pub fn git_field_enter(f: GitField) -> (r: RowEnter<GitField>)
    ensures
        r == (if is_git_switch(f) { RowEnter::Toggle(f) } else { RowEnter::Prompt(f) }),
{
    match f {
        GitField::AutoCommit | GitField::AutoPush | GitField::SignCommits | GitField::AutoSync => RowEnter::Toggle(f),
        _ => RowEnter::Prompt(f),
    }
}

/// What a key does inside a drilled-in notebook or snippet.
#[derive(Debug, Clone, Copy, PartialEq, Eq, Structural)]
pub enum DrillCommand {
    /// Back to the list (the drill closes, the first field highlighted).
    Back,
    /// Highlight this field.
    Select(usize),
    /// Act on the highlighted field.
    Enter,
    Nothing,
}

/// The command for `key` with field `selected` of `fields` highlighted:
/// `Esc`, `Backspace` and `h` go back; `j`/Down and `k`/Up move one field,
/// stopping at the ends; `Enter` acts.
pub open spec fn spec_drill_key(key: SettingsKey, selected: int, fields: int) -> DrillCommand {
    if key == SettingsKey::Esc || key == SettingsKey::Backspace || key == SettingsKey::Char('h') {
        DrillCommand::Back
    } else if key == SettingsKey::Down || key == SettingsKey::Char('j') {
        DrillCommand::Select(if selected + 1 < fields { (selected + 1) as usize } else { selected as usize })
    } else if key == SettingsKey::Up || key == SettingsKey::Char('k') {
        DrillCommand::Select(if selected >= 1 { (selected - 1) as usize } else { 0 })
    } else if key == SettingsKey::Enter {
        DrillCommand::Enter
    } else {
        DrillCommand::Nothing
    }
}

/// The command for a key inside a drilled-in notebook or snippet.
pub fn drill_key(key: SettingsKey, selected: usize, fields: usize) -> (r: DrillCommand)
    ensures
        r == spec_drill_key(key, selected as int, fields as int),
{
    let ch: Option<char> = match key {
        SettingsKey::Char(c) => Some(c),
        _ => None,
    };
    let back = match key {
        SettingsKey::Esc | SettingsKey::Backspace => true,
        _ => ch == Some('h'),
    };
    let down = match key {
        SettingsKey::Down => true,
        _ => ch == Some('j'),
    };
    let up = match key {
        SettingsKey::Up => true,
        _ => ch == Some('k'),
    };
    if back {
        DrillCommand::Back
    } else if down {
        DrillCommand::Select(if selected < fields && fields - selected > 1 { selected + 1 } else { selected })
    } else if up {
        DrillCommand::Select(selected.saturating_sub(1))
    } else {
        match key {
            SettingsKey::Enter => DrillCommand::Enter,
            _ => DrillCommand::Nothing,
        }
    }
}

/// The next value of a notebook's override of a `[git]` switch: unset
/// (inherit) → on → off → unset.
pub open spec fn spec_cycle_override(o: Option<bool>) -> Option<bool> {
    match o {
        None => Some(true),
        Some(true) => Some(false),
        Some(false) => None,
    }
}

pub fn cycle_override(o: Option<bool>) -> (r: Option<bool>)
    ensures
        r == spec_cycle_override(o),
{
    match o {
        None => Some(true),
        Some(true) => Some(false),
        Some(false) => None,
    }
}

/// Three presses of `Enter` on an override bring it back where it was, and
/// each of the three states is reached.
pub proof fn lemma_cycle_override_period(o: Option<bool>)
    ensures
        spec_cycle_override(spec_cycle_override(spec_cycle_override(o))) == o,
        spec_cycle_override(o) != o,
        spec_cycle_override(spec_cycle_override(o)) != o,
{
}

} // verus!
