//! The panels' keys in normal and visual mode: the leader key and the
//! global action after it, moving the selection, walking between panels,
//! and the actions bound in the focused panel (with git actions of the
//! selected notebook reachable from every panel).
use vstd::prelude::*;
use crate::keybindings::{Action, KeyCode, KeyMaps};
use crate::navigation::{is_notebook_git_action, spec_is_notebook_git_action};
use crate::state::{Focus, Mode};

verus! {

/// A key pressed on the panels.
#[derive(Debug, Clone, Copy, PartialEq, Eq, Structural)]
pub enum NormalKey {
    Down,
    Up,
    PageDown,
    PageUp,
    Home,
    End,
    Left,
    Right,
    /// A key that the keymaps can bind.
    Code(KeyCode),
    Other,
}

/// What a key on the panels does.
#[derive(Debug, Clone, Copy, PartialEq, Eq, Structural)]
pub enum NormalCommand {
    /// Run an action.
    Run(Action),
    /// The key after the leader is bound to nothing global.
    UnknownLeader,
    /// `Esc` after the leader: nothing.
    LeaderCancelled,
    /// Move the selection one row (or a page) down or up.
    MoveSelection { down: bool, page: bool },
    JumpToStart,
    JumpToEnd,
    /// `Esc` in visual mode: back to normal mode.
    LeaveVisual,
    /// Open the selection, or go one panel deeper.
    Forward,
    /// Up a folder, or one panel back.
    Backward,
    /// Focus the next panel.
    NextPanel,
    OpenWhichKey,
    Quit,
    /// Wait for the key after the leader.
    Leader,
    /// The key is bound only to a notebook action that needs the
    /// notebooks panel.
    NotForThisPanel,
    Nothing,
}

/// The key as the keymaps know it.
pub open spec fn bindable(k: NormalKey) -> Option<KeyCode> {
    match k {
        NormalKey::Code(c) => Some(c),
        _ => None,
    }
}

/// The command for `key`, in `mode`, with the leader pressed just before
/// or not, `focus` on a panel and the keymaps `km`.
pub open spec fn spec_normal_command(key: NormalKey, mode: Mode, leader_pending: bool, focus: Focus, km: KeyMaps) -> NormalCommand {
    let visual = mode == Mode::Visual;
    if leader_pending {
        if key == NormalKey::Code(KeyCode::Esc) {
            NormalCommand::LeaderCancelled
        } else {
            match bindable(key) {
                Some(c) => match km.global_action(c) {
                    Some(a) => NormalCommand::Run(a),
                    None => NormalCommand::UnknownLeader,
                },
                None => NormalCommand::UnknownLeader,
            }
        }
    } else if key == NormalKey::Down || key == NormalKey::Code(KeyCode::Char('j')) {
        NormalCommand::MoveSelection { down: true, page: false }
    } else if key == NormalKey::Up || key == NormalKey::Code(KeyCode::Char('k')) {
        NormalCommand::MoveSelection { down: false, page: false }
    } else if key == NormalKey::PageDown {
        NormalCommand::MoveSelection { down: true, page: true }
    } else if key == NormalKey::PageUp {
        NormalCommand::MoveSelection { down: false, page: true }
    } else if key == NormalKey::Home {
        NormalCommand::JumpToStart
    } else if key == NormalKey::End {
        NormalCommand::JumpToEnd
    } else if key == NormalKey::Code(KeyCode::Esc) && visual {
        NormalCommand::LeaveVisual
    } else if (key == NormalKey::Code(KeyCode::Char('l')) || key == NormalKey::Right || key == NormalKey::Code(
        KeyCode::Enter,
    )) && !visual {
        NormalCommand::Forward
    } else if (key == NormalKey::Code(KeyCode::Char('h')) || key == NormalKey::Left) && !visual {
        NormalCommand::Backward
    } else if key == NormalKey::Code(KeyCode::Tab) && !visual {
        NormalCommand::NextPanel
    } else if key == NormalKey::Code(KeyCode::Char('?')) {
        NormalCommand::OpenWhichKey
    } else {
        match bindable(key) {
            None => NormalCommand::Nothing,
            Some(c) => if c == km.quit_spec() {
                NormalCommand::Quit
            } else if c == km.leader_spec() {
                NormalCommand::Leader
            } else {
                match km.scoped_action(focus, c) {
                    Some(a) => NormalCommand::Run(a),
                    None => match km.scoped_action(Focus::Notebooks, c) {
                        Some(a) => if spec_is_notebook_git_action(a) {
                            NormalCommand::Run(a)
                        } else {
                            NormalCommand::NotForThisPanel
                        },
                        None => NormalCommand::Nothing,
                    },
                }
            },
        }
    }
}

fn is_code(key: NormalKey, c: KeyCode) -> (b: bool)
    ensures
        b == (key == NormalKey::Code(c)),
{
    match key {
        NormalKey::Code(k) => k == c,
        _ => false,
    }
}

/// The command for a key pressed on the panels (the leader flag is
/// cleared by the caller whatever comes back when it was set).
pub fn normal_command(key: NormalKey, mode: Mode, leader_pending: bool, focus: Focus, km: &KeyMaps) -> (r: NormalCommand)
    ensures
        r == spec_normal_command(key, mode, leader_pending, focus, *km),
{
    let visual = match mode {
        Mode::Visual => true,
        _ => false,
    };
    if leader_pending {
        if is_code(key, KeyCode::Esc) {
            return NormalCommand::LeaderCancelled;
        }
        return match key {
            NormalKey::Code(c) => match km.resolve_global(c) {
                Some(a) => NormalCommand::Run(a),
                None => NormalCommand::UnknownLeader,
            },
            _ => NormalCommand::UnknownLeader,
        };
    }
    let is_down = match key {
        NormalKey::Down => true,
        _ => is_code(key, KeyCode::Char('j')),
    };
    let is_up = match key {
        NormalKey::Up => true,
        _ => is_code(key, KeyCode::Char('k')),
    };
    if is_down {
        return NormalCommand::MoveSelection { down: true, page: false };
    }
    if is_up {
        return NormalCommand::MoveSelection { down: false, page: false };
    }
    match key {
        NormalKey::PageDown => return NormalCommand::MoveSelection { down: true, page: true },
        NormalKey::PageUp => return NormalCommand::MoveSelection { down: false, page: true },
        NormalKey::Home => return NormalCommand::JumpToStart,
        NormalKey::End => return NormalCommand::JumpToEnd,
        _ => {},
    }
    if is_code(key, KeyCode::Esc) && visual {
        return NormalCommand::LeaveVisual;
    }
    let forward = match key {
        NormalKey::Right => true,
        _ => is_code(key, KeyCode::Char('l')) || is_code(key, KeyCode::Enter),
    };
    if forward && !visual {
        return NormalCommand::Forward;
    }
    let backward = match key {
        NormalKey::Left => true,
        _ => is_code(key, KeyCode::Char('h')),
    };
    if backward && !visual {
        return NormalCommand::Backward;
    }
    if is_code(key, KeyCode::Tab) && !visual {
        return NormalCommand::NextPanel;
    }
    if is_code(key, KeyCode::Char('?')) {
        return NormalCommand::OpenWhichKey;
    }
    match key {
        NormalKey::Code(c) => if km.is_quit(c) {
            NormalCommand::Quit
        } else if km.is_leader(c) {
            NormalCommand::Leader
        } else {
            match km.resolve_scoped(focus, c) {
                Some(a) => NormalCommand::Run(a),
                None => match km.resolve_scoped(Focus::Notebooks, c) {
                    Some(a) => if is_notebook_git_action(a) {
                        NormalCommand::Run(a)
                    } else {
                        NormalCommand::NotForThisPanel
                    },
                    None => NormalCommand::Nothing,
                },
            }
        },
        _ => NormalCommand::Nothing,
    }
}

/// Only a git action of the selected notebook runs from a panel where its
/// key is not bound: no other notebook action is ever reached from the
/// notes or the preview panel.
pub proof fn lemma_fallback_only_git(key: NormalKey, mode: Mode, focus: Focus, km: KeyMaps, a: Action)
    requires
        spec_normal_command(key, mode, false, focus, km) == NormalCommand::Run(a),
        bindable(key) matches Some(c) && km.scoped_action(focus, c) is None,
    ensures
        spec_is_notebook_git_action(a),
{
}

} // verus!
