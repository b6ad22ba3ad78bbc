use shiki_tui::edit_keys::{edit_command, EditCommand, EditContext, EditKey, EditKeyCode, UndoGroups};

fn ctx() -> EditContext {
    EditContext {
        find_open: false,
        slash_menu_open: false,
        wikilink_menu_open: false,
        editing_scratchpad: false,
        has_secondary_cursors: false,
        find_replace: true,
        os_clipboard: true,
        select_all_ctrl_a: true,
        multi_cursor: true,
    }
}

fn ctrl(c: char) -> EditKey {
    EditKey { code: EditKeyCode::Char(c), ctrl: true, alt: false }
}

fn plain(code: EditKeyCode) -> EditKey {
    EditKey { code, ctrl: false, alt: false }
}

#[test]
fn open_bars_and_menus_take_keys_first() {
    let c = EditContext { find_open: true, slash_menu_open: true, ..ctx() };
    assert_eq!(edit_command(plain(EditKeyCode::Esc), c), EditCommand::FindBar);
    let c = EditContext { slash_menu_open: true, wikilink_menu_open: true, ..ctx() };
    assert_eq!(edit_command(ctrl('u'), c), EditCommand::SlashMenu);
    let c = EditContext { wikilink_menu_open: true, ..ctx() };
    assert_eq!(edit_command(plain(EditKeyCode::Char('x')), c), EditCommand::WikilinkMenu);
}

#[test]
fn esc_drops_extra_cursors_before_leaving() {
    assert_eq!(edit_command(plain(EditKeyCode::Esc), ctx()), EditCommand::SaveAndExit);
    let c = EditContext { has_secondary_cursors: true, ..ctx() };
    assert_eq!(edit_command(plain(EditKeyCode::Esc), c), EditCommand::DropSecondaryCursors);
}

#[test]
fn shortcuts_follow_the_configured_features() {
    assert_eq!(edit_command(ctrl('f'), ctx()), EditCommand::OpenFind);
    assert_eq!(edit_command(ctrl('c'), ctx()), EditCommand::CopySelection);
    assert_eq!(edit_command(ctrl('x'), ctx()), EditCommand::CutSelection);
    assert_eq!(edit_command(ctrl('v'), ctx()), EditCommand::PasteFromClipboard);
    assert_eq!(edit_command(ctrl('a'), ctx()), EditCommand::SelectAll);
    assert_eq!(edit_command(ctrl('d'), ctx()), EditCommand::AddNextOccurrence);
    let off = EditContext { find_replace: false, os_clipboard: false, select_all_ctrl_a: false, multi_cursor: false, ..ctx() };
    for c in ['f', 'c', 'x', 'v', 'a', 'd'] {
        assert_eq!(edit_command(ctrl(c), off), EditCommand::Type);
    }
    assert_eq!(edit_command(ctrl('u'), off), EditCommand::Undo);
    assert_eq!(edit_command(ctrl('r'), off), EditCommand::Redo);
    assert_eq!(edit_command(ctrl('s'), ctx()), EditCommand::Type);
    let scratch = EditContext { editing_scratchpad: true, ..ctx() };
    assert_eq!(edit_command(ctrl('s'), scratch), EditCommand::SaveScratchpad);
}

#[test]
fn movement_keys() {
    let ctrl_alt = |code| EditKey { code, ctrl: true, alt: true };
    assert_eq!(edit_command(ctrl_alt(EditKeyCode::Up), ctx()), EditCommand::AddCursorAbove);
    assert_eq!(edit_command(ctrl_alt(EditKeyCode::Down), ctx()), EditCommand::AddCursorBelow);
    assert_eq!(edit_command(plain(EditKeyCode::Up), ctx()), EditCommand::Type);
    assert_eq!(edit_command(plain(EditKeyCode::PageDown), ctx()), EditCommand::PageDown);
    assert_eq!(edit_command(plain(EditKeyCode::PageUp), ctx()), EditCommand::PageUp);
    let ctrl_key = |code| EditKey { code, ctrl: true, alt: false };
    assert_eq!(edit_command(ctrl_key(EditKeyCode::Home), ctx()), EditCommand::JumpToStart);
    assert_eq!(edit_command(ctrl_key(EditKeyCode::End), ctx()), EditCommand::JumpToEnd);
    assert_eq!(edit_command(plain(EditKeyCode::Home), ctx()), EditCommand::Type);
    assert_eq!(edit_command(plain(EditKeyCode::Other), ctx()), EditCommand::Type);
}

#[test]
fn a_replayed_keystroke_undoes_and_redoes_as_one_group() {
    let mut g = UndoGroups::new();
    g.record(1);
    g.record(3);
    assert_eq!(g.take_undo(), 3);
    g.undone(3);
    assert_eq!((g.undo.clone(), g.redo.clone()), (vec![1], vec![3]));
    assert_eq!(g.take_redo(), 3);
    g.redone(3);
    assert_eq!((g.undo.clone(), g.redo.clone()), (vec![1, 3], vec![]));
    g.undone(0);
    g.record(0);
    assert_eq!((g.undo.clone(), g.redo.clone()), (vec![1, 3], vec![]));
}

#[test]
fn a_new_edit_clears_what_could_be_redone_and_empty_stacks_ask_one_step() {
    let mut g = UndoGroups::new();
    assert_eq!(g.take_undo(), 1);
    assert_eq!(g.take_redo(), 1);
    g.record(2);
    let n = g.take_undo();
    g.undone(n);
    g.record(1);
    assert_eq!((g.undo.clone(), g.redo.clone()), (vec![1], vec![]));
}
