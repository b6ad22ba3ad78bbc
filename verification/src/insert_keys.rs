//! The keys of a prompt's input line: the `@` quick-command dropdown of the
//! new-note prompt takes them first while it is open; otherwise `Esc`
//! cancels the prompt, `Enter` confirms it and the rest edit the line.
use vstd::prelude::*;
use crate::confirm::from_settings;
use crate::types::PendingInput;

verus! {

/// A key pressed on a prompt.
#[derive(Debug, Clone, Copy, PartialEq, Eq, Structural)]
pub enum InsertKey {
    Esc,
    Enter,
    Up,
    Down,
    Backspace,
    Char(char),
    Other,
}

/// What a key on a prompt does.
#[derive(Debug, Clone, Copy, PartialEq, Eq, Structural)]
pub enum InsertCommand {
    /// Close the dropdown by cutting the line at its last `@`.
    DropQuickQuery,
    /// Run the dropdown's entry on this row.
    RunQuick(usize),
    /// Highlight this row of the dropdown.
    SelectQuick(usize),
    /// Drop the line's last character (`reset`: back to the dropdown's
    /// first row).
    Backspace { reset: bool },
    /// Add a character to the line (`reset`: back to the dropdown's first
    /// row).
    Type { c: char, reset: bool },
    /// Close the prompt without acting: back to normal mode, with nothing
    /// pending, no custom title and no pending batch (nor scratchpad text,
    /// for a new note); the settings popup comes back when the prompt was
    /// opened from it.
    Cancel { reopen_settings: bool },
    /// Confirm the prompt.
    Confirm,
    Nothing,
}

/// The command for `key` on prompt `pending`, with the dropdown open or
/// not (`selected` of its `listed` rows highlighted).
pub open spec fn spec_insert_command(
    key: InsertKey,
    pending: Option<PendingInput>,
    dropdown_open: bool,
    selected: int,
    listed: int,
) -> InsertCommand {
    if dropdown_open {
        match key {
            InsertKey::Esc => InsertCommand::DropQuickQuery,
            InsertKey::Enter => if 0 <= selected < listed {
                InsertCommand::RunQuick(selected as usize)
            } else {
                InsertCommand::Nothing
            },
            InsertKey::Down => InsertCommand::SelectQuick(
                if selected + 1 < listed { (selected + 1) as usize } else { selected as usize },
            ),
            InsertKey::Up => InsertCommand::SelectQuick(if selected >= 1 { (selected - 1) as usize } else { 0 }),
            InsertKey::Backspace => InsertCommand::Backspace { reset: true },
            InsertKey::Char(c) => InsertCommand::Type { c, reset: true },
            InsertKey::Other => InsertCommand::Nothing,
        }
    } else {
        match key {
            InsertKey::Esc => InsertCommand::Cancel { reopen_settings: from_settings(pending) },
            InsertKey::Enter => InsertCommand::Confirm,
            InsertKey::Backspace => InsertCommand::Backspace { reset: false },
            InsertKey::Char(c) => InsertCommand::Type { c, reset: false },
            _ => InsertCommand::Nothing,
        }
    }
}

/// The command for a key pressed on a prompt; the dropdown is open when the
/// prompt is the new-note one and its line holds an `@`.
pub fn insert_command(
    key: InsertKey,
    pending: Option<PendingInput>,
    dropdown_open: bool,
    selected: usize,
    listed: usize,
) -> (r: InsertCommand)
    ensures
        r == spec_insert_command(key, pending, dropdown_open, selected as int, listed as int),
{
    if dropdown_open {
        match key {
            InsertKey::Esc => InsertCommand::DropQuickQuery,
            InsertKey::Enter => if selected < listed {
                InsertCommand::RunQuick(selected)
            } else {
                InsertCommand::Nothing
            },
            InsertKey::Down => InsertCommand::SelectQuick(
                if selected < listed && listed - selected > 1 { selected + 1 } else { selected },
            ),
            InsertKey::Up => InsertCommand::SelectQuick(selected.saturating_sub(1)),
            InsertKey::Backspace => InsertCommand::Backspace { reset: true },
            InsertKey::Char(c) => InsertCommand::Type { c, reset: true },
            InsertKey::Other => InsertCommand::Nothing,
        }
    } else {
        match key {
            InsertKey::Esc => {
                let reopen_settings = match pending {
                    Some(PendingInput::SettingsNotebookRemote) | Some(PendingInput::SettingsNotebookAutoSyncEvery)
                    | Some(PendingInput::SettingsGeneralText) | Some(PendingInput::SettingsGitText)
                    | Some(PendingInput::SettingsSnippetTrigger) | Some(PendingInput::SettingsSnippetLabel) => true,
                    _ => false,
                };
                InsertCommand::Cancel { reopen_settings }
            },
            InsertKey::Enter => InsertCommand::Confirm,
            InsertKey::Backspace => InsertCommand::Backspace { reset: false },
            InsertKey::Char(c) => InsertCommand::Type { c, reset: false },
            _ => InsertCommand::Nothing,
        }
    }
}

/// Cancelling a prompt brings the settings popup back exactly when the
/// prompt was opened from it: by `from_settings`, the same test that
/// `confirm_input` applies when the prompt is confirmed.
pub proof fn lemma_cancel_reopens_like_confirm(pending: Option<PendingInput>, selected: int, listed: int)
    ensures
        spec_insert_command(InsertKey::Esc, pending, false, selected, listed) == (InsertCommand::Cancel {
            reopen_settings: from_settings(pending),
        }),
{
}

} // verus!
