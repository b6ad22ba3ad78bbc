//! The keys of the list popups (which-key, logs, global search, history,
//! tags, template picker): which command a key stands for, given the
//! highlighted row and how many rows there are.
use vstd::prelude::*;
use crate::keybindings::Action;
use crate::list_nav::{list_step, spec_list_step, ListKey};

verus! {

/// A key pressed on a list popup.
#[derive(Debug, Clone, Copy, PartialEq, Eq, Structural)]
pub enum PopupKey {
    Esc,
    Enter,
    Down,
    Up,
    PageDown,
    PageUp,
    Home,
    End,
    Left,
    Right,
    Backspace,
    Char(char),
    Other,
}

/// The navigation key that `key` is for a popup: the arrows always; `j`
/// and `k` where the popup takes no typing (`letters`); the page keys,
/// `Home` and `End` where it pages (`paging`).
pub open spec fn popup_nav(key: PopupKey, letters: bool, paging: bool) -> Option<ListKey> {
    match key {
        PopupKey::Down => Some(ListKey::Down),
        PopupKey::Up => Some(ListKey::Up),
        PopupKey::Char('j') => if letters { Some(ListKey::Down) } else { None },
        PopupKey::Char('k') => if letters { Some(ListKey::Up) } else { None },
        PopupKey::PageDown => if paging { Some(ListKey::PageDown) } else { None },
        PopupKey::PageUp => if paging { Some(ListKey::PageUp) } else { None },
        PopupKey::Home => if paging { Some(ListKey::Home) } else { None },
        PopupKey::End => if paging { Some(ListKey::End) } else { None },
        _ => None,
    }
}

fn nav_of(key: PopupKey, letters: bool, paging: bool) -> (r: Option<ListKey>)
    ensures
        r == popup_nav(key, letters, paging),
{
    match key {
        PopupKey::Down => Some(ListKey::Down),
        PopupKey::Up => Some(ListKey::Up),
        PopupKey::Char(c) => if letters && c == 'j' {
            Some(ListKey::Down)
        } else if letters && c == 'k' {
            Some(ListKey::Up)
        } else {
            None
        },
        PopupKey::PageDown => if paging { Some(ListKey::PageDown) } else { None },
        PopupKey::PageUp => if paging { Some(ListKey::PageUp) } else { None },
        PopupKey::Home => if paging { Some(ListKey::Home) } else { None },
        PopupKey::End => if paging { Some(ListKey::End) } else { None },
        _ => None,
    }
}

/// The highlighted row after a navigation key.
pub open spec fn moved(selected: usize, len: usize, k: ListKey, page: usize) -> usize {
    spec_list_step(selected as int, len as int, k, page as int) as usize
}

// ---------------------------------------------------------------------------
// Which-key
// ---------------------------------------------------------------------------

/// What a key on the which-key popup does.
#[derive(Debug, Clone, Copy, PartialEq, Eq, Structural)]
pub enum WhichKeyCommand {
    Close,
    /// Close the popup and run the highlighted binding's action.
    Run(Action),
    Select(usize),
    /// Drop the filter's last character (back to the first row).
    Backspace,
    /// Add a character to the filter (back to the first row).
    Type(char),
    Nothing,
}

/// The which-key command for `key`, with row `selected` of `len` rows
/// highlighted and `selected_action` the action of that row when it is a
/// binding: `Enter` runs it (a navigation row runs nothing), the arrows and
/// page keys move, characters filter.
pub open spec fn spec_which_key_command(key: PopupKey, selected: usize, len: usize, page: usize, selected_action: Option<Action>) -> WhichKeyCommand {
    match popup_nav(key, false, true) {
        Some(k) => WhichKeyCommand::Select(moved(selected, len, k, page)),
        None => match key {
            PopupKey::Esc => WhichKeyCommand::Close,
            PopupKey::Enter => match selected_action {
                Some(a) => WhichKeyCommand::Run(a),
                None => WhichKeyCommand::Nothing,
            },
            PopupKey::Backspace => WhichKeyCommand::Backspace,
            PopupKey::Char(c) => WhichKeyCommand::Type(c),
            _ => WhichKeyCommand::Nothing,
        },
    }
}

pub fn which_key_command(key: PopupKey, selected: usize, len: usize, page: usize, selected_action: Option<Action>) -> (r: WhichKeyCommand)
    ensures
        r == spec_which_key_command(key, selected, len, page, selected_action),
{
    match nav_of(key, false, true) {
        Some(k) => WhichKeyCommand::Select(list_step(selected, len, k, page)),
        None => match key {
            PopupKey::Esc => WhichKeyCommand::Close,
            PopupKey::Enter => match selected_action {
                Some(a) => WhichKeyCommand::Run(a),
                None => WhichKeyCommand::Nothing,
            },
            PopupKey::Backspace => WhichKeyCommand::Backspace,
            PopupKey::Char(c) => WhichKeyCommand::Type(c),
            _ => WhichKeyCommand::Nothing,
        },
    }
}

// ---------------------------------------------------------------------------
// Logs
// ---------------------------------------------------------------------------

/// What a key on the logs popup does.
#[derive(Debug, Clone, Copy, PartialEq, Eq, Structural)]
pub enum LogsCommand {
    Close,
    Select(usize),
    /// Copy every line of the log to the clipboard.
    CopyAll,
    /// Ask for a yes before clearing the log.
    AskClear,
    Nothing,
}

/// The logs command for `key`: `Esc`/`q` close, `j`/`k`, the arrows and
/// the page keys move, `y`/`c` copy everything, `x` asks to clear.
pub open spec fn spec_logs_command(key: PopupKey, selected: usize, len: usize, page: usize) -> LogsCommand {
    match popup_nav(key, true, true) {
        Some(k) => LogsCommand::Select(moved(selected, len, k, page)),
        None => match key {
            PopupKey::Esc | PopupKey::Char('q') => LogsCommand::Close,
            PopupKey::Char('y') | PopupKey::Char('c') => LogsCommand::CopyAll,
            PopupKey::Char('x') => LogsCommand::AskClear,
            _ => LogsCommand::Nothing,
        },
    }
}

pub fn logs_command(key: PopupKey, selected: usize, len: usize, page: usize) -> (r: LogsCommand)
    ensures
        r == spec_logs_command(key, selected, len, page),
{
    match nav_of(key, true, true) {
        Some(k) => LogsCommand::Select(list_step(selected, len, k, page)),
        None => match key {
            PopupKey::Esc => LogsCommand::Close,
            PopupKey::Char(c) => if c == 'q' {
                LogsCommand::Close
            } else if c == 'y' || c == 'c' {
                LogsCommand::CopyAll
            } else if c == 'x' {
                LogsCommand::AskClear
            } else {
                LogsCommand::Nothing
            },
            _ => LogsCommand::Nothing,
        },
    }
}

// ---------------------------------------------------------------------------
// Global search
// ---------------------------------------------------------------------------

/// What a key on the global search popup does.
#[derive(Debug, Clone, Copy, PartialEq, Eq, Structural)]
pub enum SearchCommand {
    Close,
    /// Open the hit on this row.
    Jump(usize),
    Select(usize),
    /// Drop the query's last character and search again.
    Backspace,
    /// Add a character to the query and search again.
    Type(char),
    Nothing,
}

/// The global search command for `key`: `Enter` opens the highlighted hit
/// if there is one, the arrows and page keys move, characters search.
pub open spec fn spec_search_command(key: PopupKey, selected: usize, len: usize, page: usize) -> SearchCommand {
    match popup_nav(key, false, true) {
        Some(k) => SearchCommand::Select(moved(selected, len, k, page)),
        None => match key {
            PopupKey::Esc => SearchCommand::Close,
            PopupKey::Enter => if selected < len {
                SearchCommand::Jump(selected)
            } else {
                SearchCommand::Nothing
            },
            PopupKey::Backspace => SearchCommand::Backspace,
            PopupKey::Char(c) => SearchCommand::Type(c),
            _ => SearchCommand::Nothing,
        },
    }
}

pub fn search_command(key: PopupKey, selected: usize, len: usize, page: usize) -> (r: SearchCommand)
    ensures
        r == spec_search_command(key, selected, len, page),
{
    match nav_of(key, false, true) {
        Some(k) => SearchCommand::Select(list_step(selected, len, k, page)),
        None => match key {
            PopupKey::Esc => SearchCommand::Close,
            PopupKey::Enter => if selected < len {
                SearchCommand::Jump(selected)
            } else {
                SearchCommand::Nothing
            },
            PopupKey::Backspace => SearchCommand::Backspace,
            PopupKey::Char(c) => SearchCommand::Type(c),
            _ => SearchCommand::Nothing,
        },
    }
}

// ---------------------------------------------------------------------------
// Note history
// ---------------------------------------------------------------------------

/// What a key on the history popup does.
#[derive(Debug, Clone, Copy, PartialEq, Eq, Structural)]
pub enum HistoryCommand {
    /// Close the revision being read, back to the list.
    CloseView,
    Close,
    /// Read the highlighted revision.
    View,
    /// Ask for a yes before reverting to the highlighted revision.
    Revert,
    Select(usize),
    Nothing,
}

/// The history command for `key`, reading a revision (`viewing`) or not:
/// while reading, only `Esc` (back) and `r` (revert) act; on the list,
/// `Esc`/`q` close, `Enter` reads, `r` reverts, `j`/`k`, the arrows and the
/// page keys move.
pub open spec fn spec_history_command(key: PopupKey, viewing: bool, selected: usize, len: usize, page: usize) -> HistoryCommand {
    if viewing {
        match key {
            PopupKey::Esc => HistoryCommand::CloseView,
            PopupKey::Char('r') => HistoryCommand::Revert,
            _ => HistoryCommand::Nothing,
        }
    } else {
        match popup_nav(key, true, true) {
            Some(k) => HistoryCommand::Select(moved(selected, len, k, page)),
            None => match key {
                PopupKey::Esc | PopupKey::Char('q') => HistoryCommand::Close,
                PopupKey::Enter => HistoryCommand::View,
                PopupKey::Char('r') => HistoryCommand::Revert,
                _ => HistoryCommand::Nothing,
            },
        }
    }
}

pub fn history_command(key: PopupKey, viewing: bool, selected: usize, len: usize, page: usize) -> (r: HistoryCommand)
    ensures
        r == spec_history_command(key, viewing, selected, len, page),
{
    let ch: Option<char> = match key {
        PopupKey::Char(c) => Some(c),
        _ => None,
    };
    if viewing {
        return match key {
            PopupKey::Esc => HistoryCommand::CloseView,
            _ => if ch == Some('r') {
                HistoryCommand::Revert
            } else {
                HistoryCommand::Nothing
            },
        };
    }
    match nav_of(key, true, true) {
        Some(k) => HistoryCommand::Select(list_step(selected, len, k, page)),
        None => match key {
            PopupKey::Esc => HistoryCommand::Close,
            PopupKey::Enter => HistoryCommand::View,
            _ => if ch == Some('q') {
                HistoryCommand::Close
            } else if ch == Some('r') {
                HistoryCommand::Revert
            } else {
                HistoryCommand::Nothing
            },
        },
    }
}

// ---------------------------------------------------------------------------
// Tags
// ---------------------------------------------------------------------------

/// What a key on the tags popup does.
#[derive(Debug, Clone, Copy, PartialEq, Eq, Structural)]
pub enum TagsCommand {
    Close,
    /// Back from a tag's notes to the list of tags.
    Back,
    Select(usize),
    /// Open the tag on this row (its notes, the first highlighted).
    OpenTag(usize),
    /// Go to the highlighted note and close.
    JumpToNote,
    Nothing,
}

/// Whether `key` opens (`Enter`, `l`, Right).
pub open spec fn is_open_key(key: PopupKey) -> bool {
    key == PopupKey::Enter || key == PopupKey::Char('l') || key == PopupKey::Right
}

/// The tags command for `key`, on the list of tags or in a tag's notes
/// (`in_tag`), with row `selected` of `len` highlighted: `j`/`k` and the
/// arrows move; on the list `Esc`/`q` close and opening a row opens its
/// tag; in a tag `Esc`, `h`, `Backspace` and Left go back, `q` closes and
/// opening goes to the note.
pub open spec fn spec_tags_command(key: PopupKey, in_tag: bool, selected: usize, len: usize) -> TagsCommand {
    match popup_nav(key, true, false) {
        Some(k) => TagsCommand::Select(moved(selected, len, k, 0)),
        None => if !in_tag {
            if key == PopupKey::Esc || key == PopupKey::Char('q') {
                TagsCommand::Close
            } else if is_open_key(key) {
                if selected < len { TagsCommand::OpenTag(selected) } else { TagsCommand::Nothing }
            } else {
                TagsCommand::Nothing
            }
        } else {
            if key == PopupKey::Esc || key == PopupKey::Char('h') || key == PopupKey::Backspace || key
                == PopupKey::Left {
                TagsCommand::Back
            } else if key == PopupKey::Char('q') {
                TagsCommand::Close
            } else if is_open_key(key) {
                TagsCommand::JumpToNote
            } else {
                TagsCommand::Nothing
            }
        },
    }
}

pub fn tags_command(key: PopupKey, in_tag: bool, selected: usize, len: usize) -> (r: TagsCommand)
    ensures
        r == spec_tags_command(key, in_tag, selected, len),
{
    match nav_of(key, true, false) {
        Some(k) => return TagsCommand::Select(list_step(selected, len, k, 0)),
        None => {},
    }
    let ch: Option<char> = match key {
        PopupKey::Char(c) => Some(c),
        _ => None,
    };
    let esc = match key {
        PopupKey::Esc => true,
        _ => false,
    };
    let open = match key {
        PopupKey::Enter | PopupKey::Right => true,
        _ => ch == Some('l'),
    };
    if !in_tag {
        if esc || ch == Some('q') {
            TagsCommand::Close
        } else if open {
            if selected < len {
                TagsCommand::OpenTag(selected)
            } else {
                TagsCommand::Nothing
            }
        } else {
            TagsCommand::Nothing
        }
    } else {
        let back = match key {
            PopupKey::Esc | PopupKey::Backspace | PopupKey::Left => true,
            _ => ch == Some('h'),
        };
        if back {
            TagsCommand::Back
        } else if ch == Some('q') {
            TagsCommand::Close
        } else if open {
            TagsCommand::JumpToNote
        } else {
            TagsCommand::Nothing
        }
    }
}

// ---------------------------------------------------------------------------
// Template picker
// ---------------------------------------------------------------------------

/// What a key on the template picker does.
#[derive(Debug, Clone, Copy, PartialEq, Eq, Structural)]
pub enum TemplatePickerCommand {
    /// Drop the new note (title and scratchpad text) and close.
    Cancel,
    Select(usize),
    /// Create the note with the highlighted template.
    Choose,
    Nothing,
}

/// The template picker command for `key`: `Esc`/`q` cancel, `j`/`k` and
/// the arrows move, `Enter`, `l` and Right choose.
pub open spec fn spec_template_picker_command(key: PopupKey, selected: usize, len: usize) -> TemplatePickerCommand {
    match popup_nav(key, true, false) {
        Some(k) => TemplatePickerCommand::Select(moved(selected, len, k, 0)),
        None => if key == PopupKey::Esc || key == PopupKey::Char('q') {
            TemplatePickerCommand::Cancel
        } else if is_open_key(key) {
            TemplatePickerCommand::Choose
        } else {
            TemplatePickerCommand::Nothing
        },
    }
}

pub fn template_picker_command(key: PopupKey, selected: usize, len: usize) -> (r: TemplatePickerCommand)
    ensures
        r == spec_template_picker_command(key, selected, len),
{
    match nav_of(key, true, false) {
        Some(k) => return TemplatePickerCommand::Select(list_step(selected, len, k, 0)),
        None => {},
    }
    let ch: Option<char> = match key {
        PopupKey::Char(c) => Some(c),
        _ => None,
    };
    match key {
        PopupKey::Esc => TemplatePickerCommand::Cancel,
        PopupKey::Enter | PopupKey::Right => TemplatePickerCommand::Choose,
        _ => if ch == Some('q') {
            TemplatePickerCommand::Cancel
        } else if ch == Some('l') {
            TemplatePickerCommand::Choose
        } else {
            TemplatePickerCommand::Nothing
        },
    }
}

// ---------------------------------------------------------------------------
// The editor's `/` and `[[` menus
// ---------------------------------------------------------------------------

/// What a key on one of the editor's completion menus does.
#[derive(Debug, Clone, Copy, PartialEq, Eq, Structural)]
pub enum MenuCommand {
    Close,
    Select(usize),
    /// Close the menu and apply the entry on this row.
    Apply(usize),
    /// The key edits the text; the menu then follows what is typed (first
    /// row highlighted) or closes when there is nothing left to complete.
    EditText,
    Nothing,
}

/// The menu command for `key`: only the arrows move (letters are typed).
pub open spec fn spec_menu_command(key: PopupKey, selected: usize, len: usize) -> MenuCommand {
    match key {
        PopupKey::Esc => MenuCommand::Close,
        PopupKey::Up => MenuCommand::Select(moved(selected, len, ListKey::Up, 0)),
        PopupKey::Down => MenuCommand::Select(moved(selected, len, ListKey::Down, 0)),
        PopupKey::Enter => if selected < len {
            MenuCommand::Apply(selected)
        } else {
            MenuCommand::Nothing
        },
        PopupKey::Char(_) | PopupKey::Backspace => MenuCommand::EditText,
        _ => MenuCommand::Nothing,
    }
}

pub fn menu_command(key: PopupKey, selected: usize, len: usize) -> (r: MenuCommand)
    ensures
        r == spec_menu_command(key, selected, len),
{
    match key {
        PopupKey::Esc => MenuCommand::Close,
        PopupKey::Up => MenuCommand::Select(list_step(selected, len, ListKey::Up, 0)),
        PopupKey::Down => MenuCommand::Select(list_step(selected, len, ListKey::Down, 0)),
        PopupKey::Enter => if selected < len {
            MenuCommand::Apply(selected)
        } else {
            MenuCommand::Nothing
        },
        PopupKey::Char(_) | PopupKey::Backspace => MenuCommand::EditText,
        _ => MenuCommand::Nothing,
    }
}

// ---------------------------------------------------------------------------
// The tree and links popups
// ---------------------------------------------------------------------------

/// What a key on a popup listing notes to jump to does.
#[derive(Debug, Clone, Copy, PartialEq, Eq, Structural)]
pub enum JumpListCommand {
    Close,
    Select(usize),
    /// Go to the highlighted note.
    Jump,
    Nothing,
}

/// The command for `key` on the tree or the links popup: `Esc`/`q` close,
/// `j`/`k`, the arrows and the page keys move, `Enter`, `l` and Right jump.
pub open spec fn spec_jump_list_command(key: PopupKey, selected: usize, len: usize, page: usize) -> JumpListCommand {
    match popup_nav(key, true, true) {
        Some(k) => JumpListCommand::Select(moved(selected, len, k, page)),
        None => if key == PopupKey::Esc || key == PopupKey::Char('q') {
            JumpListCommand::Close
        } else if is_open_key(key) {
            JumpListCommand::Jump
        } else {
            JumpListCommand::Nothing
        },
    }
}

pub fn jump_list_command(key: PopupKey, selected: usize, len: usize, page: usize) -> (r: JumpListCommand)
    ensures
        r == spec_jump_list_command(key, selected, len, page),
{
    match nav_of(key, true, true) {
        Some(k) => return JumpListCommand::Select(list_step(selected, len, k, page)),
        None => {},
    }
    let ch: Option<char> = match key {
        PopupKey::Char(c) => Some(c),
        _ => None,
    };
    match key {
        PopupKey::Esc => JumpListCommand::Close,
        PopupKey::Enter | PopupKey::Right => JumpListCommand::Jump,
        _ => if ch == Some('q') {
            JumpListCommand::Close
        } else if ch == Some('l') {
            JumpListCommand::Jump
        } else {
            JumpListCommand::Nothing
        },
    }
}

// ---------------------------------------------------------------------------
// The notebook drawer
// ---------------------------------------------------------------------------

/// What a key on the notebook drawer does.
#[derive(Debug, Clone, Copy, PartialEq, Eq, Structural)]
pub enum DrawerCommand {
    Close,
    Select(usize),
    /// Go to the highlighted notebook.
    Jump,
    /// Close the drawer and prompt for a new notebook (or one to import).
    NewNotebook,
    Nothing,
}

/// The drawer command for `key`: `j`/`k` and the arrows move around the
/// list, wrapping at both ends; `Enter` jumps; `n` and `i` start a new
/// notebook.
pub open spec fn spec_drawer_command(key: PopupKey, selected: usize, len: usize) -> DrawerCommand {
    if key == PopupKey::Down || key == PopupKey::Char('j') {
        if len == 0 { DrawerCommand::Nothing } else { DrawerCommand::Select(((selected + 1) % (len as int)) as usize) }
    } else if key == PopupKey::Up || key == PopupKey::Char('k') {
        if len == 0 {
            DrawerCommand::Nothing
        } else {
            DrawerCommand::Select(if selected >= 1 { (selected - 1) as usize } else { (len - 1) as usize })
        }
    } else if key == PopupKey::Esc {
        DrawerCommand::Close
    } else if key == PopupKey::Enter {
        DrawerCommand::Jump
    } else if key == PopupKey::Char('n') || key == PopupKey::Char('i') {
        DrawerCommand::NewNotebook
    } else {
        DrawerCommand::Nothing
    }
}

/// The drawer command for a key (moving down computes `selected + 1`,
/// which must fit in a `usize`).
pub fn drawer_command(key: PopupKey, selected: usize, len: usize) -> (r: DrawerCommand)
    requires
        selected < usize::MAX,
    ensures
        r == spec_drawer_command(key, selected, len),
        selected < len ==> (r matches DrawerCommand::Select(n) ==> n < len),
{
    let ch: Option<char> = match key {
        PopupKey::Char(c) => Some(c),
        _ => None,
    };
    let down = match key {
        PopupKey::Down => true,
        _ => ch == Some('j'),
    };
    let up = match key {
        PopupKey::Up => true,
        _ => ch == Some('k'),
    };
    if down {
        if len == 0 {
            DrawerCommand::Nothing
        } else {
            DrawerCommand::Select((selected + 1) % len)
        }
    } else if up {
        if len == 0 {
            DrawerCommand::Nothing
        } else if selected >= 1 {
            DrawerCommand::Select(selected - 1)
        } else {
            DrawerCommand::Select(len - 1)
        }
    } else {
        match key {
            PopupKey::Esc => DrawerCommand::Close,
            PopupKey::Enter => DrawerCommand::Jump,
            _ => if ch == Some('n') || ch == Some('i') {
                DrawerCommand::NewNotebook
            } else {
                DrawerCommand::Nothing
            },
        }
    }
}

// ---------------------------------------------------------------------------
// The update modal
// ---------------------------------------------------------------------------

/// Where the update modal is.
#[derive(Debug, Clone, Copy, PartialEq, Eq, Structural)]
pub enum UpdateStage {
    Downloading,
    /// A newer release can be installed.
    Available,
    Installed,
    /// Checking, up to date, or failed.
    Other,
}

/// What a key on the update modal does.
#[derive(Debug, Clone, Copy, PartialEq, Eq, Structural)]
pub enum UpdateCommand {
    Install,
    /// Close the modal and forget the check.
    Dismiss,
    /// Close the modal.
    Hide,
    Nothing,
}

/// The update modal's command for `key`: nothing while downloading;
/// `Enter` installs an available release and `Esc` dismisses it; any key
/// closes after an install; otherwise `Esc`, `q` and `Enter` dismiss.
pub open spec fn spec_update_command(stage: UpdateStage, key: PopupKey) -> UpdateCommand {
    match stage {
        UpdateStage::Downloading => UpdateCommand::Nothing,
        UpdateStage::Available => match key {
            PopupKey::Enter => UpdateCommand::Install,
            PopupKey::Esc => UpdateCommand::Dismiss,
            _ => UpdateCommand::Nothing,
        },
        UpdateStage::Installed => UpdateCommand::Hide,
        UpdateStage::Other => if key == PopupKey::Esc || key == PopupKey::Char('q') || key == PopupKey::Enter {
            UpdateCommand::Dismiss
        } else {
            UpdateCommand::Nothing
        },
    }
}

pub fn update_command(stage: UpdateStage, key: PopupKey) -> (r: UpdateCommand)
    ensures
        r == spec_update_command(stage, key),
{
    match stage {
        UpdateStage::Downloading => UpdateCommand::Nothing,
        UpdateStage::Available => match key {
            PopupKey::Enter => UpdateCommand::Install,
            PopupKey::Esc => UpdateCommand::Dismiss,
            _ => UpdateCommand::Nothing,
        },
        UpdateStage::Installed => UpdateCommand::Hide,
        UpdateStage::Other => match key {
            PopupKey::Esc | PopupKey::Enter => UpdateCommand::Dismiss,
            PopupKey::Char(c) => if c == 'q' {
                UpdateCommand::Dismiss
            } else {
                UpdateCommand::Nothing
            },
            _ => UpdateCommand::Nothing,
        },
    }
}

/// In every list popup the highlight stays on a row: from a row of a list,
/// every key that moves the highlight lands on a row of it.
pub proof fn lemma_popup_highlight_stays(
    key: PopupKey,
    viewing: bool,
    selected: usize,
    len: usize,
    page: usize,
    action: Option<Action>,
)
    requires
        selected < len,
    ensures
        spec_which_key_command(key, selected, len, page, action) matches WhichKeyCommand::Select(n) ==> n < len,
        spec_logs_command(key, selected, len, page) matches LogsCommand::Select(n) ==> n < len,
        spec_search_command(key, selected, len, page) matches SearchCommand::Select(n) ==> n < len,
        spec_history_command(key, viewing, selected, len, page) matches HistoryCommand::Select(n) ==> n < len,
        spec_tags_command(key, viewing, selected, len) matches TagsCommand::Select(n) ==> n < len,
        spec_template_picker_command(key, selected, len) matches TemplatePickerCommand::Select(n) ==> n < len,
        spec_menu_command(key, selected, len) matches MenuCommand::Select(n) ==> n < len,
        spec_jump_list_command(key, selected, len, page) matches JumpListCommand::Select(n) ==> n < len,
{
    let ks = seq![ListKey::Down, ListKey::Up, ListKey::PageDown, ListKey::PageUp, ListKey::Home, ListKey::End];
    assert forall|i: int| 0 <= i < 6 implies 0 <= #[trigger] spec_list_step(selected as int, len as int, ks[i], page as int) < len by {
        crate::list_nav::lemma_list_step_stays_in_list(selected as int, len as int, ks[i], page as int);
    }
    assert forall|i: int| 0 <= i < 6 implies 0 <= #[trigger] spec_list_step(selected as int, len as int, ks[i], 0) < len by {
        crate::list_nav::lemma_list_step_stays_in_list(selected as int, len as int, ks[i], 0);
    }
    assert(ks[0] == ListKey::Down && ks[1] == ListKey::Up && ks[2] == ListKey::PageDown && ks[3] == ListKey::PageUp
        && ks[4] == ListKey::Home && ks[5] == ListKey::End);
}

} // verus!
