//! Which part of the interface a key press goes to: the topmost open
//! popup, or else the handler of the current mode.
use vstd::prelude::*;
use crate::keybindings::KeyCode;
use crate::state::Mode;

verus! {

/// The popups that are open.
#[derive(Debug, Clone, Copy, PartialEq, Eq, Structural)]
pub struct OpenPopups {
    pub confirm: bool,
    pub which_key: bool,
    pub tags: bool,
    pub theme_picker: bool,
    pub template_picker: bool,
    pub global_search: bool,
    pub logs: bool,
    pub update: bool,
    pub tree: bool,
    pub links: bool,
    pub history: bool,
    pub drawer: bool,
    pub settings: bool,
}

/// Who handles a key press.
#[derive(Debug, Clone, Copy, PartialEq, Eq, Structural)]
pub enum KeyRoute {
    Confirm,
    WhichKey,
    Tags,
    ThemePicker,
    TemplatePicker,
    GlobalSearch,
    Logs,
    Update,
    Tree,
    Links,
    History,
    Drawer,
    Settings,
    /// The input line of a prompt.
    Insert,
    /// The inline editor.
    Edit,
    /// The panels (normal and visual mode).
    Normal,
}

/// The route of a key press: the first open popup in this order (a yes/no
/// dialog first, since one can open over another popup), else the mode's
/// handler.
pub open spec fn spec_key_route(p: OpenPopups, mode: Mode) -> KeyRoute {
    if p.confirm {
        KeyRoute::Confirm
    } else if p.which_key {
        KeyRoute::WhichKey
    } else if p.tags {
        KeyRoute::Tags
    } else if p.theme_picker {
        KeyRoute::ThemePicker
    } else if p.template_picker {
        KeyRoute::TemplatePicker
    } else if p.global_search {
        KeyRoute::GlobalSearch
    } else if p.logs {
        KeyRoute::Logs
    } else if p.update {
        KeyRoute::Update
    } else if p.tree {
        KeyRoute::Tree
    } else if p.links {
        KeyRoute::Links
    } else if p.history {
        KeyRoute::History
    } else if p.drawer {
        KeyRoute::Drawer
    } else if p.settings {
        KeyRoute::Settings
    } else {
        match mode {
            Mode::Insert => KeyRoute::Insert,
            Mode::Edit => KeyRoute::Edit,
            Mode::Normal | Mode::Visual => KeyRoute::Normal,
        }
    }
}

/// Who handles a key press.
pub fn key_route(p: &OpenPopups, mode: Mode) -> (r: KeyRoute)
    ensures
        r == spec_key_route(*p, mode),
{
    if p.confirm {
        KeyRoute::Confirm
    } else if p.which_key {
        KeyRoute::WhichKey
    } else if p.tags {
        KeyRoute::Tags
    } else if p.theme_picker {
        KeyRoute::ThemePicker
    } else if p.template_picker {
        KeyRoute::TemplatePicker
    } else if p.global_search {
        KeyRoute::GlobalSearch
    } else if p.logs {
        KeyRoute::Logs
    } else if p.update {
        KeyRoute::Update
    } else if p.tree {
        KeyRoute::Tree
    } else if p.links {
        KeyRoute::Links
    } else if p.history {
        KeyRoute::History
    } else if p.drawer {
        KeyRoute::Drawer
    } else if p.settings {
        KeyRoute::Settings
    } else {
        match mode {
            Mode::Insert => KeyRoute::Insert,
            Mode::Edit => KeyRoute::Edit,
            Mode::Normal | Mode::Visual => KeyRoute::Normal,
        }
    }
}

/// An open yes/no dialog takes every key, whatever else is open; and with
/// no popup open, the editor gets the keys exactly in edit mode.
pub proof fn lemma_confirm_takes_keys(p: OpenPopups, mode: Mode)
    ensures
        p.confirm ==> spec_key_route(p, mode) == KeyRoute::Confirm,
        !p.confirm && !p.which_key && !p.tags && !p.theme_picker && !p.template_picker && !p.global_search
            && !p.logs && !p.update && !p.tree && !p.links && !p.history && !p.drawer && !p.settings ==> (
        spec_key_route(p, mode) == KeyRoute::Edit <==> mode == Mode::Edit),
{
}

// ---------------------------------------------------------------------------
// Mouse and paste
// ---------------------------------------------------------------------------

/// A mouse event, as far as the interface tells them apart.
#[derive(Debug, Clone, Copy, PartialEq, Eq, Structural)]
pub enum MouseKind {
    LeftDown,
    LeftDrag,
    LeftUp,
    ScrollUp,
    ScrollDown,
    Other,
}

/// What a mouse event does.
#[derive(Debug, Clone, Copy, PartialEq, Eq, Structural)]
pub enum MouseRoute {
    /// Alt+click in the editor: add a cursor there.
    AddCursor,
    /// Ctrl+click outside the editor: follow the wikilink under it, or, if
    /// there is none, handle it as a plain click.
    FollowLinkOrClick,
    Click,
    Drag,
    Release,
    /// Scroll one notch: `down` or up.
    Scroll { down: bool },
    Nothing,
}

/// The route of a mouse event in `mode`, with the editor's mouse selection
/// and multiple cursors switched on or off and Alt or Ctrl held.
pub open spec fn spec_mouse_route(
    kind: MouseKind,
    mode: Mode,
    mouse_selection: bool,
    multi_cursor: bool,
    alt: bool,
    ctrl: bool,
) -> MouseRoute {
    match kind {
        MouseKind::LeftDown => if mode == Mode::Edit && mouse_selection && multi_cursor && alt {
            MouseRoute::AddCursor
        } else if mode != Mode::Edit && ctrl {
            MouseRoute::FollowLinkOrClick
        } else {
            MouseRoute::Click
        },
        MouseKind::LeftDrag => MouseRoute::Drag,
        MouseKind::LeftUp => MouseRoute::Release,
        MouseKind::ScrollUp => MouseRoute::Scroll { down: false },
        MouseKind::ScrollDown => MouseRoute::Scroll { down: true },
        MouseKind::Other => MouseRoute::Nothing,
    }
}

pub fn mouse_route(kind: MouseKind, mode: Mode, mouse_selection: bool, multi_cursor: bool, alt: bool, ctrl: bool) -> (r: MouseRoute)
    ensures
        r == spec_mouse_route(kind, mode, mouse_selection, multi_cursor, alt, ctrl),
{
    let editing = match mode {
        Mode::Edit => true,
        _ => false,
    };
    match kind {
        MouseKind::LeftDown => if editing && mouse_selection && multi_cursor && alt {
            MouseRoute::AddCursor
        } else if !editing && ctrl {
            MouseRoute::FollowLinkOrClick
        } else {
            MouseRoute::Click
        },
        MouseKind::LeftDrag => MouseRoute::Drag,
        MouseKind::LeftUp => MouseRoute::Release,
        MouseKind::ScrollUp => MouseRoute::Scroll { down: false },
        MouseKind::ScrollDown => MouseRoute::Scroll { down: true },
        MouseKind::Other => MouseRoute::Nothing,
    }
}

/// What one notch of the wheel does.
#[derive(Debug, Clone, Copy, PartialEq, Eq, Structural)]
pub enum ScrollCommand {
    /// Move the editor's cursor this many rows.
    EditorCursor(i8),
    /// Move the panel's selection this many rows.
    Selection(i8),
    Nothing,
}

/// A notch of the wheel moves three rows, in the editor or in the panels,
/// and nothing while a popup or a prompt is open (`no_popup`).
pub open spec fn spec_scroll_command(no_popup: bool, mode: Mode, down: bool) -> ScrollCommand {
    let delta: i8 = if down { 3i8 } else { -3i8 };
    if !no_popup {
        ScrollCommand::Nothing
    } else if mode == Mode::Edit {
        ScrollCommand::EditorCursor(delta)
    } else if mode == Mode::Normal || mode == Mode::Visual {
        ScrollCommand::Selection(delta)
    } else {
        ScrollCommand::Nothing
    }
}

pub fn scroll_command(no_popup: bool, mode: Mode, down: bool) -> (r: ScrollCommand)
    ensures
        r == spec_scroll_command(no_popup, mode, down),
{
    let delta: i8 = if down {
        3
    } else {
        -3
    };
    if !no_popup {
        return ScrollCommand::Nothing;
    }
    match mode {
        Mode::Edit => ScrollCommand::EditorCursor(delta),
        Mode::Normal | Mode::Visual => ScrollCommand::Selection(delta),
        Mode::Insert => ScrollCommand::Nothing,
    }
}

/// Whether a paste goes into the editor's text in one piece (one undo
/// step): in edit mode with neither the find bar nor a menu open.
pub open spec fn spec_paste_whole(mode: Mode, find_open: bool, slash_open: bool, wikilink_open: bool) -> bool {
    mode == Mode::Edit && !find_open && !slash_open && !wikilink_open
}

pub fn paste_whole(mode: Mode, find_open: bool, slash_open: bool, wikilink_open: bool) -> (b: bool)
    ensures
        b == spec_paste_whole(mode, find_open, slash_open, wikilink_open),
{
    let editing = match mode {
        Mode::Edit => true,
        _ => false,
    };
    editing && !find_open && !slash_open && !wikilink_open
}

/// A pasted character replayed as a key press: a newline as `Enter`.
pub open spec fn paste_key(c: char) -> KeyCode {
    if c == '\n' {
        KeyCode::Enter
    } else {
        KeyCode::Char(c)
    }
}

/// Elsewhere a paste is replayed as key presses, one per character.
pub fn paste_keys(text: &str) -> (r: Vec<KeyCode>)
    ensures
        r@ == text@.map_values(|c: char| paste_key(c)),
{
    let cs = crate::text::chars_of(text);
    let mut out: Vec<KeyCode> = Vec::new();
    let mut i: usize = 0;
    while i < cs.len()
        invariant
            cs@ == text@,
            0 <= i <= cs@.len(),
            out@ == cs@.take(i as int).map_values(|c: char| paste_key(c)),
        decreases cs@.len() - i,
    {
        let c = cs[i];
        let ghost before = out@;
        let k = if c == '\n' {
            KeyCode::Enter
        } else {
            KeyCode::Char(c)
        };
        assert(k == paste_key(c));
        out.push(k);
        assert(cs@.take(i as int + 1) =~= cs@.take(i as int).push(c));
        assert(out@ =~= cs@.take(i as int + 1).map_values(|c: char| paste_key(c)));
        i = i + 1;
    }
    assert(cs@.take(i as int) =~= cs@);
    out
}

} // verus!
