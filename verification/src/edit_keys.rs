//! The inline editor's key dispatch and its undo grouping: which command a
//! key press in edit mode runs (the open find bar and menus take keys
//! first; the configured editor features gate their shortcuts; anything
//! else is typed), and the stacks that make one keystroke, replayed at
//! every cursor, undo and redo as a single step.
use vstd::prelude::*;

verus! {

/// A key of the editor, as far as its dispatch tells keys apart.
#[derive(Debug, Clone, Copy, PartialEq, Eq, Structural)]
pub enum EditKeyCode {
    Char(char),
    Esc,
    Up,
    Down,
    PageUp,
    PageDown,
    Home,
    End,
    /// Any other key; it is typed into the text.
    Other,
}

/// A key press: the key and whether Control and Alt were held.
#[derive(Debug, Clone, Copy, PartialEq, Eq, Structural)]
pub struct EditKey {
    pub code: EditKeyCode,
    pub ctrl: bool,
    pub alt: bool,
}

/// What decides a key's meaning besides the key: what is open over the
/// editor, what is being edited, and the configured editor features.
#[derive(Debug, Clone, Copy, PartialEq, Eq, Structural)]
pub struct EditContext {
    pub find_open: bool,
    pub slash_menu_open: bool,
    pub wikilink_menu_open: bool,
    pub editing_scratchpad: bool,
    pub has_secondary_cursors: bool,
    pub find_replace: bool,
    pub os_clipboard: bool,
    pub select_all_ctrl_a: bool,
    pub multi_cursor: bool,
}

/// What a key press in edit mode does.
#[derive(Debug, Clone, Copy, PartialEq, Eq, Structural)]
pub enum EditCommand {
    /// The find bar handles the key.
    FindBar,
    /// The `/` menu handles the key.
    SlashMenu,
    /// The `[[` menu handles the key.
    WikilinkMenu,
    /// Ctrl+S in the scratchpad: keep its text and ask for a note title.
    SaveScratchpad,
    /// Esc with extra cursors: drop them.
    DropSecondaryCursors,
    /// Esc: save and leave edit mode.
    SaveAndExit,
    OpenFind,
    CopySelection,
    CutSelection,
    PasteFromClipboard,
    SelectAll,
    AddNextOccurrence,
    Undo,
    Redo,
    AddCursorAbove,
    AddCursorBelow,
    /// PageUp / PageDown: move the cursor a page.
    PageUp,
    PageDown,
    /// Ctrl+Home / Ctrl+End: the start or the end of the text.
    JumpToStart,
    JumpToEnd,
    /// Typed into the text (at every cursor).
    Type,
}

pub open spec fn spec_edit_command(k: EditKey, c: EditContext) -> EditCommand {
    if c.find_open {
        EditCommand::FindBar
    } else if c.slash_menu_open {
        EditCommand::SlashMenu
    } else if c.wikilink_menu_open {
        EditCommand::WikilinkMenu
    } else {
        match k.code {
            EditKeyCode::Char('s') if c.editing_scratchpad && k.ctrl => EditCommand::SaveScratchpad,
            EditKeyCode::Esc => if c.has_secondary_cursors {
                EditCommand::DropSecondaryCursors
            } else {
                EditCommand::SaveAndExit
            },
            EditKeyCode::Char('f') if k.ctrl && c.find_replace => EditCommand::OpenFind,
            EditKeyCode::Char('c') if k.ctrl && c.os_clipboard => EditCommand::CopySelection,
            EditKeyCode::Char('x') if k.ctrl && c.os_clipboard => EditCommand::CutSelection,
            EditKeyCode::Char('v') if k.ctrl && c.os_clipboard => EditCommand::PasteFromClipboard,
            EditKeyCode::Char('a') if k.ctrl && c.select_all_ctrl_a => EditCommand::SelectAll,
            EditKeyCode::Char('d') if k.ctrl && c.multi_cursor => EditCommand::AddNextOccurrence,
            EditKeyCode::Char('u') if k.ctrl => EditCommand::Undo,
            EditKeyCode::Char('r') if k.ctrl => EditCommand::Redo,
            EditKeyCode::Up if k.ctrl && k.alt && c.multi_cursor => EditCommand::AddCursorAbove,
            EditKeyCode::Down if k.ctrl && k.alt && c.multi_cursor => EditCommand::AddCursorBelow,
            EditKeyCode::PageDown => EditCommand::PageDown,
            EditKeyCode::PageUp => EditCommand::PageUp,
            EditKeyCode::Home if k.ctrl => EditCommand::JumpToStart,
            EditKeyCode::End if k.ctrl => EditCommand::JumpToEnd,
            _ => EditCommand::Type,
        }
    }
}

/// The command a key press runs in edit mode.
pub fn edit_command(k: EditKey, c: EditContext) -> (r: EditCommand)
    ensures
        r == spec_edit_command(k, c),
{
    if c.find_open {
        return EditCommand::FindBar;
    }
    if c.slash_menu_open {
        return EditCommand::SlashMenu;
    }
    if c.wikilink_menu_open {
        return EditCommand::WikilinkMenu;
    }
    match k.code {
        EditKeyCode::Char('s') if c.editing_scratchpad && k.ctrl => EditCommand::SaveScratchpad,
        EditKeyCode::Esc => if c.has_secondary_cursors {
            EditCommand::DropSecondaryCursors
        } else {
            EditCommand::SaveAndExit
        },
        EditKeyCode::Char('f') if k.ctrl && c.find_replace => EditCommand::OpenFind,
        EditKeyCode::Char('c') if k.ctrl && c.os_clipboard => EditCommand::CopySelection,
        EditKeyCode::Char('x') if k.ctrl && c.os_clipboard => EditCommand::CutSelection,
        EditKeyCode::Char('v') if k.ctrl && c.os_clipboard => EditCommand::PasteFromClipboard,
        EditKeyCode::Char('a') if k.ctrl && c.select_all_ctrl_a => EditCommand::SelectAll,
        EditKeyCode::Char('d') if k.ctrl && c.multi_cursor => EditCommand::AddNextOccurrence,
        EditKeyCode::Char('u') if k.ctrl => EditCommand::Undo,
        EditKeyCode::Char('r') if k.ctrl => EditCommand::Redo,
        EditKeyCode::Up if k.ctrl && k.alt && c.multi_cursor => EditCommand::AddCursorAbove,
        EditKeyCode::Down if k.ctrl && k.alt && c.multi_cursor => EditCommand::AddCursorBelow,
        EditKeyCode::PageDown => EditCommand::PageDown,
        EditKeyCode::PageUp => EditCommand::PageUp,
        EditKeyCode::Home if k.ctrl => EditCommand::JumpToStart,
        EditKeyCode::End if k.ctrl => EditCommand::JumpToEnd,
        _ => EditCommand::Type,
    }
}

// ---------------------------------------------------------------------------
// Undo groups
// ---------------------------------------------------------------------------

/// The editor's undo grouping: how many of the text area's own undo steps
/// each user-level edit made (one keystroke replayed at several cursors
/// makes several), newest last, and likewise for what was undone.
pub struct UndoGroups {
    pub undo: Vec<usize>,
    pub redo: Vec<usize>,
}

/// The stacks as `(undo, redo)`.
pub type Stacks = (Seq<usize>, Seq<usize>);

/// After an edit of `steps` steps: a new group, nothing left to redo (an
/// edit that made no step changes nothing).
pub open spec fn recorded(g: Stacks, steps: usize) -> Stacks {
    if steps > 0 {
        (g.0.push(steps), Seq::empty())
    } else {
        g
    }
}

/// The steps an undo asks for, and the stacks once they are taken off:
/// the newest group, or a single step when there is none.
pub open spec fn undo_request(g: Stacks) -> (usize, Stacks) {
    if g.0.len() > 0 {
        (g.0.last(), (g.0.drop_last(), g.1))
    } else {
        (1, g)
    }
}

/// After an undo took back `steps` steps: one group to redo.
pub open spec fn after_undone(g: Stacks, steps: usize) -> Stacks {
    if steps > 0 {
        (g.0, g.1.push(steps))
    } else {
        g
    }
}

/// The steps a redo asks for, and the stacks once they are taken off.
pub open spec fn redo_request(g: Stacks) -> (usize, Stacks) {
    if g.1.len() > 0 {
        (g.1.last(), (g.0, g.1.drop_last()))
    } else {
        (1, g)
    }
}

/// After a redo brought back `steps` steps: one group to undo again.
pub open spec fn after_redone(g: Stacks, steps: usize) -> Stacks {
    if steps > 0 {
        (g.0.push(steps), g.1)
    } else {
        g
    }
}

impl UndoGroups {
    pub open spec fn stacks(&self) -> Stacks {
        (self.undo@, self.redo@)
    }

    pub fn new() -> (g: Self)
        ensures
            g.stacks() == (Seq::<usize>::empty(), Seq::<usize>::empty()),
    {
        UndoGroups { undo: Vec::new(), redo: Vec::new() }
    }

    /// Records an edit that made `steps` undo steps.
    pub fn record(&mut self, steps: usize)
        ensures
            final(self).stacks() == recorded(old(self).stacks(), steps),
    {
        if steps > 0 {
            self.undo.push(steps);
            self.redo.clear();
        }
    }

    /// Takes the steps the next undo asks for off the undo stack.
    pub fn take_undo(&mut self) -> (n: usize)
        ensures
            (n, final(self).stacks()) == undo_request(old(self).stacks()),
    {
        match self.undo.pop() {
            Some(n) => n,
            None => 1,
        }
    }

    /// Records that an undo took back `steps` steps.
    pub fn undone(&mut self, steps: usize)
        ensures
            final(self).stacks() == after_undone(old(self).stacks(), steps),
    {
        if steps > 0 {
            self.redo.push(steps);
        }
    }

    /// Takes the steps the next redo asks for off the redo stack.
    pub fn take_redo(&mut self) -> (n: usize)
        ensures
            (n, final(self).stacks()) == redo_request(old(self).stacks()),
    {
        match self.redo.pop() {
            Some(n) => n,
            None => 1,
        }
    }

    /// Records that a redo brought back `steps` steps.
    pub fn redone(&mut self, steps: usize)
        ensures
            final(self).stacks() == after_redone(old(self).stacks(), steps),
    {
        if steps > 0 {
            self.undo.push(steps);
        }
    }
}

/// An edit undoes and redoes as one group: after an edit of `steps` steps,
/// the next undo asks for exactly those steps; once they are all taken
/// back, the next redo asks for the same number; once they are all brought
/// back, the stacks are as right after the edit.
pub proof fn lemma_undo_redo_round_trip(g: Stacks, steps: usize)
    requires
        steps > 0,
    ensures
        ({
            let edited = recorded(g, steps);
            let (asked_undo, g2) = undo_request(edited);
            let g3 = after_undone(g2, asked_undo);
            let (asked_redo, g4) = redo_request(g3);
            &&& asked_undo == steps
            &&& asked_redo == steps
            &&& after_redone(g4, asked_redo) == edited
        }),
{
    let edited = recorded(g, steps);
    assert(edited.0.drop_last() =~= g.0);
    let g3 = after_undone(undo_request(edited).1, steps);
    assert(g3.1.drop_last() =~= Seq::<usize>::empty());
}

// ---------------------------------------------------------------------------
// The find bar
// ---------------------------------------------------------------------------

/// The find bar's two fields.
#[derive(Debug, Clone, Copy, PartialEq, Eq, Structural)]
pub enum FindField {
    Query,
    Replace,
}

/// A key pressed on the find bar.
#[derive(Debug, Clone, Copy, PartialEq, Eq, Structural)]
pub enum FindKeyCode {
    Esc,
    Tab,
    Backspace,
    Enter,
    Char(char),
    Other,
}

/// What a key on the find bar does.
#[derive(Debug, Clone, Copy, PartialEq, Eq, Structural)]
pub enum FindCommand {
    /// Close the bar and drop the selection.
    Close,
    /// Move the focus to this field.
    Focus(FindField),
    /// Drop the last character of `field`; `search`: then look for the
    /// query again, forward from the cursor.
    Backspace { field: FindField, search: bool },
    /// Add a character to `field`; `search` as for `Backspace`.
    Type { field: FindField, c: char, search: bool },
    ReplaceAll,
    /// Replace the current match and go to the next.
    ReplaceAndNext,
    /// Go to the next match, or the previous one when `backward`.
    Step { backward: bool },
    Nothing,
}

/// The command for a key on the find bar with `focus` in a field: `Esc`
/// closes, `Tab` switches fields, typing edits the focused field (and
/// searches again when that is the query), `Enter` steps to the next match
/// (Shift: the previous), Ctrl+Enter replaces and steps, Ctrl+Alt+Enter
/// replaces all.
pub open spec fn spec_find_bar_command(code: FindKeyCode, ctrl: bool, alt: bool, shift: bool, focus: FindField) -> FindCommand {
    match code {
        FindKeyCode::Esc => FindCommand::Close,
        FindKeyCode::Tab => FindCommand::Focus(
            if focus == FindField::Query { FindField::Replace } else { FindField::Query },
        ),
        FindKeyCode::Backspace => FindCommand::Backspace { field: focus, search: focus == FindField::Query },
        FindKeyCode::Char(c) => FindCommand::Type { field: focus, c, search: focus == FindField::Query },
        FindKeyCode::Enter => if ctrl && alt {
            FindCommand::ReplaceAll
        } else if ctrl {
            FindCommand::ReplaceAndNext
        } else {
            FindCommand::Step { backward: shift }
        },
        FindKeyCode::Other => FindCommand::Nothing,
    }
}

/// The command for a key pressed on the find bar.
pub fn find_bar_command(code: FindKeyCode, ctrl: bool, alt: bool, shift: bool, focus: FindField) -> (r: FindCommand)
    ensures
        r == spec_find_bar_command(code, ctrl, alt, shift, focus),
{
    let on_query = match focus {
        FindField::Query => true,
        FindField::Replace => false,
    };
    match code {
        FindKeyCode::Esc => FindCommand::Close,
        FindKeyCode::Tab => FindCommand::Focus(if on_query { FindField::Replace } else { FindField::Query }),
        FindKeyCode::Backspace => FindCommand::Backspace { field: focus, search: on_query },
        FindKeyCode::Char(c) => FindCommand::Type { field: focus, c, search: on_query },
        FindKeyCode::Enter => if ctrl && alt {
            FindCommand::ReplaceAll
        } else if ctrl {
            FindCommand::ReplaceAndNext
        } else {
            FindCommand::Step { backward: shift }
        },
        FindKeyCode::Other => FindCommand::Nothing,
    }
}

} // verus!
