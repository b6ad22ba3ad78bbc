use shiki_tui::list_nav::{panel_move, PanelMove};
use shiki_tui::navigation::shift;
use shiki_tui::batch::{
    batch_delete_prompt, batch_status, count_kinds, delete_prompt, move_prompt_title, restore_status, tally,
    MoveSubject,
};
use shiki_tui::insert_keys::{insert_command, InsertCommand, InsertKey};
use shiki_tui::keybindings::{Action, KeyCode};
use shiki_tui::popup_keys::{
    drawer_command, jump_list_command, menu_command, update_command, DrawerCommand, JumpListCommand, MenuCommand,
    UpdateCommand, UpdateStage,
    history_command, logs_command, search_command, tags_command, template_picker_command, which_key_command,
    HistoryCommand, LogsCommand, PopupKey, SearchCommand, TagsCommand, TemplatePickerCommand, WhichKeyCommand,
};
use shiki_tui::prompts::split_cursor_marker;
use shiki_tui::key_route::{
    key_route, mouse_route, paste_keys, paste_whole, scroll_command, KeyRoute, MouseKind, MouseRoute, OpenPopups,
    ScrollCommand,
};
use shiki_tui::confirm::{notebook_delete_choice, notebook_delete_status, NotebookDeleteChoice};
use shiki_tui::edit_keys::{find_bar_command, FindCommand, FindField, FindKeyCode};
use shiki_tui::confirm::{
    confirm_input, confirm_key_step, parse_u32, ConfirmAction, ConfirmContext, ConfirmKeyAction,
    DeleteTarget, GeneralField, GitField, PendingConfirm,
};
use shiki_tui::settings_fields::{
    cycle_override, drill_key, general_field_enter, general_label, git_field_enter, git_label, DrillCommand, RowEnter,
};
use shiki_tui::settings_keys::{settings_command, SettingsCommand, SettingsKey, SettingsSection, SettingsView};
use shiki_tui::state::{Focus, Mode};
use shiki_tui::theme_picker::{
    theme_picker_filtered, theme_picker_key, ThemeInfo, ThemePickerCommand, ThemePickerKey,
};
use shiki_tui::types::PendingInput;

fn chars(s: &str) -> Vec<char> {
    s.chars().collect()
}

fn strings(v: &[&str]) -> Vec<String> {
    v.iter().map(|s| s.to_string()).collect()
}

fn ctx<'a>(names: &'a [String], triggers: &'a [String]) -> ConfirmContext<'a> {
    ConfirmContext {
        has_scratch_body: false,
        has_notebook: true,
        has_note: true,
        notebook_names: names,
        notebook_drill: None,
        snippet_drill: None,
        snippet_triggers: triggers,
        general_field: GeneralField::Editor,
        git_field: GitField::Remote,
    }
}

fn act(kind: PendingInput, value: &str, c: &ConfirmContext) -> ConfirmAction<String> {
    confirm_input(Some(kind), value, c).action
}

fn s(x: &str) -> String {
    x.to_string()
}

#[test]
fn parse_u32_follows_std() {
    assert_eq!(parse_u32(&chars("42")), Some(42));
    assert_eq!(parse_u32(&chars("+5")), Some(5));
    assert_eq!(parse_u32(&chars("007")), Some(7));
    assert_eq!(parse_u32(&chars("4294967295")), Some(u32::MAX));
    assert_eq!(parse_u32(&chars("4294967296")), None);
    assert_eq!(parse_u32(&chars("")), None);
    assert_eq!(parse_u32(&chars("+")), None);
    assert_eq!(parse_u32(&chars("-1")), None);
    assert_eq!(parse_u32(&chars("1a")), None);
    for t in ["0", "17", "+3", "99999", "x", " 1"] {
        assert_eq!(parse_u32(&chars(t)), t.parse::<u32>().ok(), "{t}");
    }
}

#[test]
fn confirm_closes_the_prompt() {
    let names = strings(&["work"]);
    let none: Vec<String> = vec![];
    let c = ctx(&names, &none);
    let out = confirm_input(Some(PendingInput::Search), "  todo  ", &c);
    assert_eq!(out.action, ConfirmAction::Jump(s("todo")));
    assert_eq!(out.mode, Mode::Normal);
    assert!(out.pending.is_none());
    assert!(out.input_title.is_none());
    assert!(!out.show_settings);
    let out = confirm_input(None, "x", &c);
    assert_eq!(out.action, ConfirmAction::Nothing);
}

#[test]
fn confirm_new_note_and_folder() {
    let names = strings(&["work"]);
    let none: Vec<String> = vec![];
    let mut c = ctx(&names, &none);
    assert_eq!(
        act(PendingInput::NewNote, " Ideas ", &c),
        ConfirmAction::NewNote { title: Some(s("Ideas")), with_body: false }
    );
    c.has_scratch_body = true;
    assert_eq!(act(PendingInput::NewNote, "", &c), ConfirmAction::NewNote { title: None, with_body: true });
    assert_eq!(
        act(PendingInput::NewFolder, "", &c),
        ConfirmAction::Notify(s("new folder cancelled (name can't be empty)"))
    );
    assert_eq!(act(PendingInput::NewFolder, "refs", &c), ConfirmAction::CreateFolder(s("refs")));
    c.has_notebook = false;
    assert_eq!(act(PendingInput::NewFolder, "refs", &c), ConfirmAction::Notify(s("create a notebook first")));
}

#[test]
fn confirm_new_notebook() {
    let names = strings(&["notebook", "notebook-2"]);
    let none: Vec<String> = vec![];
    let c = ctx(&names, &none);
    assert_eq!(
        act(PendingInput::NewNotebook, "https://example.com/n.git", &c),
        ConfirmAction::ImportFromUrl(s("https://example.com/n.git"))
    );
    assert_eq!(act(PendingInput::NewNotebook, "~/notes", &c), ConfirmAction::AdoptPath(s("~/notes")));
    assert_eq!(act(PendingInput::NewNotebook, "", &c), ConfirmAction::CreateNotebook(s("notebook-3")));
    assert_eq!(act(PendingInput::NewNotebook, "journal", &c), ConfirmAction::CreateNotebook(s("journal")));
}

#[test]
fn confirm_renames_and_remote() {
    let names = strings(&["work"]);
    let none: Vec<String> = vec![];
    let mut c = ctx(&names, &none);
    assert_eq!(act(PendingInput::RenameNote, "b", &c), ConfirmAction::RenameNote(s("b")));
    assert_eq!(
        act(PendingInput::RenameNote, " ", &c),
        ConfirmAction::Notify(s("rename cancelled (title can't be empty)"))
    );
    assert_eq!(act(PendingInput::RenameNotebook, "w2", &c), ConfirmAction::RenameNotebook(s("w2")));
    assert_eq!(
        act(PendingInput::RenameNotebook, "", &c),
        ConfirmAction::Notify(s("rename cancelled (name can't be empty)"))
    );
    assert_eq!(act(PendingInput::Search, "", &c), ConfirmAction::Notify(s("jump cancelled")));
    assert_eq!(act(PendingInput::SetRemote, "git@h:r.git", &c), ConfirmAction::SetRemote(s("git@h:r.git")));
    assert_eq!(act(PendingInput::SetRemote, "", &c), ConfirmAction::Notify(s("remote cancelled (empty)")));
    c.has_note = false;
    assert_eq!(act(PendingInput::RenameNote, "b", &c), ConfirmAction::Nothing);
    c.has_notebook = false;
    assert_eq!(act(PendingInput::RenameNotebook, "w2", &c), ConfirmAction::Nothing);
    assert_eq!(act(PendingInput::SetRemote, "u", &c), ConfirmAction::Nothing);
}

#[test]
fn confirm_settings_prompts() {
    let names = strings(&["work"]);
    let triggers = strings(&["sig"]);
    let mut c = ctx(&names, &triggers);
    assert_eq!(act(PendingInput::SettingsNotebookRemote, "u", &c), ConfirmAction::Nothing);
    c.notebook_drill = Some("work");
    let out = confirm_input(Some(PendingInput::SettingsNotebookRemote), "u", &c);
    assert!(out.show_settings);
    assert_eq!(out.action, ConfirmAction::SetNotebookRemote { notebook: s("work"), url: s("u") });
    assert_eq!(
        act(PendingInput::SettingsNotebookRemote, "", &c),
        ConfirmAction::Notify(s("remote unchanged (empty)"))
    );
    assert_eq!(
        act(PendingInput::SettingsNotebookAutoSyncEvery, "5", &c),
        ConfirmAction::SetNotebookAutoSync { notebook: s("work"), every: Some(5) }
    );
    assert_eq!(
        act(PendingInput::SettingsNotebookAutoSyncEvery, "", &c),
        ConfirmAction::SetNotebookAutoSync { notebook: s("work"), every: None }
    );
    assert_eq!(
        act(PendingInput::SettingsNotebookAutoSyncEvery, "abc", &c),
        ConfirmAction::Notify(s("'abc' isn't a whole number"))
    );
    c.notebook_drill = Some("gone");
    assert_eq!(act(PendingInput::SettingsNotebookRemote, "u", &c), ConfirmAction::Nothing);
    assert_eq!(
        act(PendingInput::SettingsGeneralText, "vim", &c),
        ConfirmAction::SetGeneral { field: GeneralField::Editor, value: s("vim") }
    );
    assert_eq!(act(PendingInput::SettingsGeneralText, "", &c), ConfirmAction::Notify(s("unchanged (empty)")));
    assert_eq!(
        act(PendingInput::SettingsGitText, "main", &c),
        ConfirmAction::SetGitText { field: GitField::Remote, value: s("main") }
    );
    assert_eq!(act(PendingInput::SettingsGitText, "", &c), ConfirmAction::Notify(s("unchanged (empty)")));
    c.git_field = GitField::AutoSyncEvery;
    assert_eq!(act(PendingInput::SettingsGitText, "10", &c), ConfirmAction::SetGitAutoSync(10));
    assert_eq!(
        act(PendingInput::SettingsGitText, "ten", &c),
        ConfirmAction::Notify(s("'ten' isn't a whole number"))
    );
    c.git_field = GitField::RemoteTemplate;
    assert_eq!(
        act(PendingInput::SettingsGitText, "", &c),
        ConfirmAction::SetGitText { field: GitField::RemoteTemplate, value: s("") }
    );
    c.git_field = GitField::AutoPush;
    assert_eq!(act(PendingInput::SettingsGitText, "x", &c), ConfirmAction::Nothing);
}

#[test]
fn confirm_snippets_and_move() {
    let names = strings(&["work"]);
    let triggers = strings(&["sig"]);
    let mut c = ctx(&names, &triggers);
    assert_eq!(
        act(PendingInput::SettingsSnippetTrigger, "sig", &c),
        ConfirmAction::Notify(s("a snippet with trigger 'sig' already exists"))
    );
    assert_eq!(act(PendingInput::SettingsSnippetTrigger, "date", &c), ConfirmAction::CreateSnippet(s("date")));
    assert_eq!(
        act(PendingInput::SettingsSnippetTrigger, "", &c),
        ConfirmAction::Notify(s("new snippet cancelled (trigger can't be empty)"))
    );
    assert_eq!(act(PendingInput::SettingsSnippetLabel, "x", &c), ConfirmAction::Nothing);
    c.snippet_drill = Some("sig");
    assert_eq!(
        act(PendingInput::SettingsSnippetLabel, "Signature", &c),
        ConfirmAction::SetSnippetLabel { trigger: s("sig"), label: Some(s("Signature")) }
    );
    assert_eq!(
        act(PendingInput::SettingsSnippetLabel, "", &c),
        ConfirmAction::SetSnippetLabel { trigger: s("sig"), label: None }
    );
    assert_eq!(act(PendingInput::MoveOrCopy, "  ", &c), ConfirmAction::CancelMoveOrCopy(s("move/copy cancelled (empty)")));
    assert_eq!(act(PendingInput::MoveOrCopy, "work", &c), ConfirmAction::MoveOrCopy(s("work")));
    assert_eq!(act(PendingInput::RenameTag, "x", &c), ConfirmAction::Nothing);
}

fn nothing() -> PendingConfirm {
    PendingConfirm {
        delete: None,
        revert: false,
        clear_logs: false,
        batch_delete: false,
        delete_snippet: false,
        notebook_adopt: false,
    }
}

#[test]
fn confirm_key_runs_first_pending() {
    let p = PendingConfirm { delete: Some(DeleteTarget::Note), revert: true, ..nothing() };
    let (q, a, open) = confirm_key_step(p, true);
    assert_eq!(a, ConfirmKeyAction::DeleteNote);
    assert!(!open);
    assert_eq!(q, PendingConfirm { revert: true, ..nothing() });
    let (q, a, _) = confirm_key_step(q, true);
    assert_eq!(a, ConfirmKeyAction::Revert);
    assert_eq!(q, nothing());
    let (q, a, _) = confirm_key_step(q, true);
    assert_eq!(a, ConfirmKeyAction::Nothing);
    assert_eq!(q, nothing());
    let p = PendingConfirm { clear_logs: true, notebook_adopt: true, ..nothing() };
    assert_eq!(confirm_key_step(p, true).1, ConfirmKeyAction::ClearLogs);
    let p = PendingConfirm { batch_delete: true, delete_snippet: true, ..nothing() };
    assert_eq!(confirm_key_step(p, true).1, ConfirmKeyAction::BatchDelete);
    let p = PendingConfirm { delete_snippet: true, ..nothing() };
    assert_eq!(confirm_key_step(p, true).1, ConfirmKeyAction::DeleteSnippet);
    let p = PendingConfirm { notebook_adopt: true, ..nothing() };
    assert_eq!(confirm_key_step(p, true).1, ConfirmKeyAction::AdoptNotebook);
    let p = PendingConfirm { delete: Some(DeleteTarget::Folder), ..nothing() };
    assert_eq!(confirm_key_step(p, true).1, ConfirmKeyAction::DeleteFolder);
}

#[test]
fn confirm_key_other_key_drops_everything() {
    let p = PendingConfirm { delete: Some(DeleteTarget::Note), revert: true, clear_logs: true, ..nothing() };
    let (q, a, open) = confirm_key_step(p, false);
    assert_eq!(a, ConfirmKeyAction::Dismiss);
    assert_eq!(q, nothing());
    assert!(!open);
}

#[test]
fn confirm_key_notebook_delete_has_its_own_dialog() {
    let p = PendingConfirm { delete: Some(DeleteTarget::Notebook), ..nothing() };
    for yes in [true, false] {
        let (q, a, open) = confirm_key_step(p, yes);
        assert_eq!(a, ConfirmKeyAction::NotebookDeleteDialog);
        assert_eq!(q, p);
        assert!(open);
    }
}

fn view(section: SettingsSection) -> SettingsView {
    SettingsView {
        section,
        notebook_drill: false,
        snippet_drill: false,
        selected: 1,
        rows: 5,
        page: 10,
        notebooks: 2,
        snippets: 1,
        use_favorite_editor: false,
    }
}

#[test]
fn settings_keys_switch_and_drill() {
    let mut v = view(SettingsSection::Notebooks);
    assert_eq!(settings_command(SettingsKey::Right, &v), SettingsCommand::SwitchSection { forward: true });
    assert_eq!(settings_command(SettingsKey::Left, &v), SettingsCommand::SwitchSection { forward: false });
    assert_eq!(settings_command(SettingsKey::Enter, &v), SettingsCommand::DrillNotebook(1));
    v.notebook_drill = true;
    assert_eq!(settings_command(SettingsKey::Char('q'), &v), SettingsCommand::NotebookFieldKey);
    assert_eq!(settings_command(SettingsKey::Left, &v), SettingsCommand::SwitchSection { forward: false });
    let mut v = view(SettingsSection::Snippets);
    assert_eq!(settings_command(SettingsKey::Char('l'), &v), SettingsCommand::Nothing);
    v.selected = 0;
    assert_eq!(settings_command(SettingsKey::Char('l'), &v), SettingsCommand::DrillSnippet(0));
    assert_eq!(settings_command(SettingsKey::Char('a'), &v), SettingsCommand::NewSnippet);
    assert_eq!(settings_command(SettingsKey::Char('d'), &v), SettingsCommand::DeleteSnippet);
    v.snippet_drill = true;
    assert_eq!(settings_command(SettingsKey::Esc, &v), SettingsCommand::SnippetFieldKey);
}

#[test]
fn settings_keys_move_and_close() {
    let v = view(SettingsSection::General);
    assert_eq!(settings_command(SettingsKey::Char('j'), &v), SettingsCommand::Select(2));
    assert_eq!(settings_command(SettingsKey::Up, &v), SettingsCommand::Select(0));
    assert_eq!(settings_command(SettingsKey::PageDown, &v), SettingsCommand::Select(4));
    assert_eq!(settings_command(SettingsKey::PageUp, &v), SettingsCommand::Select(0));
    assert_eq!(settings_command(SettingsKey::Home, &v), SettingsCommand::Select(0));
    assert_eq!(settings_command(SettingsKey::End, &v), SettingsCommand::Select(4));
    assert_eq!(settings_command(SettingsKey::Esc, &v), SettingsCommand::Close);
    assert_eq!(settings_command(SettingsKey::Char('q'), &v), SettingsCommand::Close);
    assert_eq!(settings_command(SettingsKey::Enter, &v), SettingsCommand::GeneralFieldEnter);
    assert_eq!(settings_command(SettingsKey::Char('a'), &v), SettingsCommand::Nothing);
    assert_eq!(settings_command(SettingsKey::Char('i'), &v), SettingsCommand::EditConfigInline);
    assert_eq!(settings_command(SettingsKey::Char('E'), &v), SettingsCommand::EditConfigExternal);
    assert_eq!(settings_command(SettingsKey::Other, &v), SettingsCommand::Nothing);
    let mut v = view(SettingsSection::Git);
    v.use_favorite_editor = true;
    assert_eq!(settings_command(SettingsKey::Char('i'), &v), SettingsCommand::EditConfigFavorite);
    assert_eq!(settings_command(SettingsKey::Enter, &v), SettingsCommand::GitFieldEnter);
    assert_eq!(settings_command(SettingsKey::Enter, &view(SettingsSection::Theme)), SettingsCommand::ThemeFieldEnter);
    assert_eq!(settings_command(SettingsKey::Enter, &view(SettingsSection::Editor)), SettingsCommand::EditorFieldEnter);
}

fn theme(name: &str, family: &str) -> ThemeInfo {
    ThemeInfo { name: name.to_string(), family: family.to_string() }
}

#[test]
fn theme_picker_groups_by_family_then_name() {
    let themes = vec![
        theme("default", "System"),
        theme("Nord", "Arctic"),
        theme("dracula", "Hack"),
        theme("aurora", "arctic"),
        theme("Monokai", "hack"),
    ];
    assert_eq!(theme_picker_filtered(&themes, ""), vec![3, 1, 2, 4, 0]);
    assert_eq!(theme_picker_filtered(&themes, "HACK"), vec![2, 4]);
    assert_eq!(theme_picker_filtered(&themes, "or"), vec![3, 1]);
    assert_eq!(theme_picker_filtered(&themes, "zzz"), Vec::<usize>::new());
}

#[test]
fn theme_picker_keeps_order_of_equal_keys() {
    let themes = vec![theme("Same", "F"), theme("same", "f"), theme("a", "g")];
    assert_eq!(theme_picker_filtered(&themes, ""), vec![0, 1, 2]);
}

#[test]
fn shift_wraps_both_ways() {
    assert_eq!(shift(0, -1, 5), 4);
    assert_eq!(shift(4, 1, 5), 0);
    assert_eq!(shift(2, 10, 5), 2);
    assert_eq!(shift(3, -10, 4), 1);
    assert_eq!(shift(3, 1, 0), 0);
    for (c, d, n) in [(0usize, -10isize, 3usize), (7, 3, 9), (1, -1, 1)] {
        assert_eq!(shift(c, d, n), (c as isize + d).rem_euclid(n as isize) as usize);
    }
}

#[test]
fn theme_picker_keys() {
    assert_eq!(theme_picker_key(ThemePickerKey::Esc, false, 2, 5), ThemePickerCommand::ClearQuery);
    assert_eq!(theme_picker_key(ThemePickerKey::Esc, true, 2, 5), ThemePickerCommand::Cancel);
    assert_eq!(theme_picker_key(ThemePickerKey::Enter, true, 2, 5), ThemePickerCommand::Choose(2));
    assert_eq!(theme_picker_key(ThemePickerKey::Enter, false, 0, 0), ThemePickerCommand::Nothing);
    assert_eq!(theme_picker_key(ThemePickerKey::Down, true, 4, 5), ThemePickerCommand::Preview(0));
    assert_eq!(theme_picker_key(ThemePickerKey::Char('k'), true, 0, 5), ThemePickerCommand::Preview(4));
    assert_eq!(theme_picker_key(ThemePickerKey::Char('j'), false, 1, 5), ThemePickerCommand::Preview(2));
    assert_eq!(theme_picker_key(ThemePickerKey::PageDown, true, 1, 5), ThemePickerCommand::Preview(1));
    assert_eq!(theme_picker_key(ThemePickerKey::PageUp, true, 1, 4), ThemePickerCommand::Preview(3));
    assert_eq!(theme_picker_key(ThemePickerKey::Up, true, 0, 0), ThemePickerCommand::Nothing);
    assert_eq!(theme_picker_key(ThemePickerKey::Home, true, 3, 5), ThemePickerCommand::Preview(0));
    assert_eq!(theme_picker_key(ThemePickerKey::End, true, 0, 5), ThemePickerCommand::Preview(4));
    assert_eq!(theme_picker_key(ThemePickerKey::End, true, 0, 0), ThemePickerCommand::Nothing);
    assert_eq!(theme_picker_key(ThemePickerKey::Backspace, false, 3, 5), ThemePickerCommand::Backspace);
    assert_eq!(theme_picker_key(ThemePickerKey::Backspace, true, 3, 5), ThemePickerCommand::Nothing);
    assert_eq!(theme_picker_key(ThemePickerKey::Char('x'), true, 3, 5), ThemePickerCommand::Type('x'));
    assert_eq!(theme_picker_key(ThemePickerKey::Other, true, 3, 5), ThemePickerCommand::Nothing);
}

#[test]
fn settings_rows_toggle_or_prompt() {
    assert_eq!(general_field_enter(GeneralField::ShowHints), RowEnter::Toggle(GeneralField::ShowHints));
    assert_eq!(general_field_enter(GeneralField::RememberLastSession), RowEnter::Toggle(GeneralField::RememberLastSession));
    assert_eq!(general_field_enter(GeneralField::Editor), RowEnter::Prompt(GeneralField::Editor));
    assert_eq!(general_label(GeneralField::DailyTemplate), "daily_template");
    assert_eq!(git_field_enter(GitField::SignCommits), RowEnter::Toggle(GitField::SignCommits));
    assert_eq!(git_field_enter(GitField::AutoSyncEvery), RowEnter::Prompt(GitField::AutoSyncEvery));
    assert_eq!(git_field_enter(GitField::Branch), RowEnter::Prompt(GitField::Branch));
    assert_eq!(git_label(GitField::RemoteTemplate), "remote_template");
}

#[test]
fn drilled_in_keys_and_override_cycle() {
    assert_eq!(drill_key(SettingsKey::Esc, 2, 4), DrillCommand::Back);
    assert_eq!(drill_key(SettingsKey::Backspace, 2, 4), DrillCommand::Back);
    assert_eq!(drill_key(SettingsKey::Char('h'), 2, 4), DrillCommand::Back);
    assert_eq!(drill_key(SettingsKey::Char('j'), 2, 4), DrillCommand::Select(3));
    assert_eq!(drill_key(SettingsKey::Down, 3, 4), DrillCommand::Select(3));
    assert_eq!(drill_key(SettingsKey::Up, 0, 4), DrillCommand::Select(0));
    assert_eq!(drill_key(SettingsKey::Char('k'), 1, 2), DrillCommand::Select(0));
    assert_eq!(drill_key(SettingsKey::Enter, 1, 2), DrillCommand::Enter);
    assert_eq!(drill_key(SettingsKey::Char('x'), 1, 2), DrillCommand::Nothing);
    assert_eq!(cycle_override(None), Some(true));
    assert_eq!(cycle_override(Some(true)), Some(false));
    assert_eq!(cycle_override(Some(false)), None);
    assert_eq!(settings_command(SettingsKey::Backspace, &view(SettingsSection::General)), SettingsCommand::Nothing);
}

#[test]
fn batch_tally_and_status() {
    let outcomes = vec![None, Some(s("exists")), None, Some(s("denied"))];
    assert_eq!(tally(&outcomes), (2, 2, Some(s("exists"))));
    assert_eq!(tally(&vec![]), (0, 0, None));
    assert_eq!(batch_status(false, 3, 3, 0, "work", None), "moved 3 items to 'work'");
    assert_eq!(batch_status(true, 1, 1, 0, "work/refs", None), "copied 1 item to 'work/refs'");
    assert_eq!(
        batch_status(false, 4, 2, 2, "work", Some("exists")),
        "moved 2/4 to 'work', 2 failed (exists)"
    );
    assert_eq!(batch_status(true, 2, 0, 2, "x", None), "copied 0/2 to 'x', 2 failed");
}

fn no_popups() -> OpenPopups {
    OpenPopups {
        confirm: false,
        which_key: false,
        tags: false,
        theme_picker: false,
        template_picker: false,
        global_search: false,
        logs: false,
        update: false,
        tree: false,
        links: false,
        history: false,
        drawer: false,
        settings: false,
    }
}

#[test]
fn keys_go_to_the_topmost_popup_then_the_mode() {
    assert_eq!(key_route(&no_popups(), Mode::Normal), KeyRoute::Normal);
    assert_eq!(key_route(&no_popups(), Mode::Visual), KeyRoute::Normal);
    assert_eq!(key_route(&no_popups(), Mode::Insert), KeyRoute::Insert);
    assert_eq!(key_route(&no_popups(), Mode::Edit), KeyRoute::Edit);
    let history_and_confirm = OpenPopups { history: true, confirm: true, ..no_popups() };
    assert_eq!(key_route(&history_and_confirm, Mode::Normal), KeyRoute::Confirm);
    let settings_and_theme = OpenPopups { settings: true, theme_picker: true, ..no_popups() };
    assert_eq!(key_route(&settings_and_theme, Mode::Edit), KeyRoute::ThemePicker);
    assert_eq!(key_route(&OpenPopups { drawer: true, ..no_popups() }, Mode::Insert), KeyRoute::Drawer);
}

#[test]
fn prompt_keys_with_and_without_the_dropdown() {
    let nn = Some(PendingInput::NewNote);
    assert_eq!(insert_command(InsertKey::Esc, nn, true, 1, 3), InsertCommand::DropQuickQuery);
    assert_eq!(insert_command(InsertKey::Enter, nn, true, 1, 3), InsertCommand::RunQuick(1));
    assert_eq!(insert_command(InsertKey::Enter, nn, true, 0, 0), InsertCommand::Nothing);
    assert_eq!(insert_command(InsertKey::Down, nn, true, 2, 3), InsertCommand::SelectQuick(2));
    assert_eq!(insert_command(InsertKey::Down, nn, true, 0, 3), InsertCommand::SelectQuick(1));
    assert_eq!(insert_command(InsertKey::Up, nn, true, 0, 3), InsertCommand::SelectQuick(0));
    assert_eq!(insert_command(InsertKey::Char('t'), nn, true, 2, 3), InsertCommand::Type { c: 't', reset: true });
    assert_eq!(insert_command(InsertKey::Backspace, nn, true, 2, 3), InsertCommand::Backspace { reset: true });
    assert_eq!(insert_command(InsertKey::Esc, nn, false, 0, 0), InsertCommand::Cancel { reopen_settings: false });
    assert_eq!(
        insert_command(InsertKey::Esc, Some(PendingInput::SettingsGitText), false, 0, 0),
        InsertCommand::Cancel { reopen_settings: true }
    );
    assert_eq!(insert_command(InsertKey::Enter, nn, false, 0, 0), InsertCommand::Confirm);
    assert_eq!(insert_command(InsertKey::Up, nn, false, 0, 0), InsertCommand::Nothing);
    assert_eq!(insert_command(InsertKey::Char('a'), None, false, 0, 0), InsertCommand::Type { c: 'a', reset: false });
}

#[test]
fn notebook_delete_dialog_answers() {
    assert_eq!(notebook_delete_choice(Some('d')), NotebookDeleteChoice::Delete);
    assert_eq!(notebook_delete_choice(Some('D')), NotebookDeleteChoice::Delete);
    assert_eq!(notebook_delete_choice(Some('R')), NotebookDeleteChoice::Untrack);
    assert_eq!(notebook_delete_choice(Some('n')), NotebookDeleteChoice::Cancel);
    assert_eq!(notebook_delete_choice(None), NotebookDeleteChoice::Cancel);
    assert_eq!(notebook_delete_status(NotebookDeleteChoice::Delete, "work", "/n/work"), "notebook 'work' deleted");
    assert_eq!(
        notebook_delete_status(NotebookDeleteChoice::Untrack, "work", "/n/work"),
        "notebook 'work' untracked \u{2014} files left in place at '/n/work'"
    );
    assert_eq!(notebook_delete_status(NotebookDeleteChoice::Cancel, "work", "/n/work"), "notebook delete cancelled");
}

#[test]
fn find_bar_keys() {
    let q = FindField::Query;
    let r = FindField::Replace;
    assert_eq!(find_bar_command(FindKeyCode::Esc, false, false, false, q), FindCommand::Close);
    assert_eq!(find_bar_command(FindKeyCode::Tab, false, false, false, q), FindCommand::Focus(r));
    assert_eq!(find_bar_command(FindKeyCode::Tab, false, false, false, r), FindCommand::Focus(q));
    assert_eq!(
        find_bar_command(FindKeyCode::Char('x'), false, false, false, q),
        FindCommand::Type { field: q, c: 'x', search: true }
    );
    assert_eq!(
        find_bar_command(FindKeyCode::Backspace, false, false, false, r),
        FindCommand::Backspace { field: r, search: false }
    );
    assert_eq!(find_bar_command(FindKeyCode::Enter, true, true, false, q), FindCommand::ReplaceAll);
    assert_eq!(find_bar_command(FindKeyCode::Enter, true, false, true, q), FindCommand::ReplaceAndNext);
    assert_eq!(find_bar_command(FindKeyCode::Enter, false, false, true, q), FindCommand::Step { backward: true });
    assert_eq!(find_bar_command(FindKeyCode::Enter, false, true, false, q), FindCommand::Step { backward: false });
    assert_eq!(find_bar_command(FindKeyCode::Other, false, false, false, q), FindCommand::Nothing);
}

#[test]
fn which_key_and_search_popup_keys() {
    let a = Some(Action::NewNote);
    assert_eq!(which_key_command(PopupKey::Esc, 0, 5, 10, a), WhichKeyCommand::Close);
    assert_eq!(which_key_command(PopupKey::Enter, 0, 5, 10, a), WhichKeyCommand::Run(Action::NewNote));
    assert_eq!(which_key_command(PopupKey::Enter, 0, 5, 10, None), WhichKeyCommand::Nothing);
    assert_eq!(which_key_command(PopupKey::Char('j'), 0, 5, 10, a), WhichKeyCommand::Type('j'));
    assert_eq!(which_key_command(PopupKey::Down, 4, 5, 10, a), WhichKeyCommand::Select(4));
    assert_eq!(which_key_command(PopupKey::PageDown, 1, 5, 10, a), WhichKeyCommand::Select(4));
    assert_eq!(which_key_command(PopupKey::End, 1, 0, 10, a), WhichKeyCommand::Select(0));
    assert_eq!(which_key_command(PopupKey::Backspace, 3, 5, 10, a), WhichKeyCommand::Backspace);
    assert_eq!(search_command(PopupKey::Enter, 2, 3, 10), SearchCommand::Jump(2));
    assert_eq!(search_command(PopupKey::Enter, 0, 0, 10), SearchCommand::Nothing);
    assert_eq!(search_command(PopupKey::Up, 2, 3, 10), SearchCommand::Select(1));
    assert_eq!(search_command(PopupKey::Char('k'), 2, 3, 10), SearchCommand::Type('k'));
    assert_eq!(search_command(PopupKey::Esc, 2, 3, 10), SearchCommand::Close);
}

#[test]
fn logs_history_tags_and_template_popup_keys() {
    assert_eq!(logs_command(PopupKey::Char('q'), 0, 3, 10), LogsCommand::Close);
    assert_eq!(logs_command(PopupKey::Char('j'), 0, 3, 10), LogsCommand::Select(1));
    assert_eq!(logs_command(PopupKey::Char('c'), 0, 3, 10), LogsCommand::CopyAll);
    assert_eq!(logs_command(PopupKey::Char('y'), 0, 3, 10), LogsCommand::CopyAll);
    assert_eq!(logs_command(PopupKey::Char('x'), 0, 3, 10), LogsCommand::AskClear);
    assert_eq!(logs_command(PopupKey::Home, 2, 3, 10), LogsCommand::Select(0));
    assert_eq!(history_command(PopupKey::Esc, true, 1, 3, 10), HistoryCommand::CloseView);
    assert_eq!(history_command(PopupKey::Char('r'), true, 1, 3, 10), HistoryCommand::Revert);
    assert_eq!(history_command(PopupKey::Char('j'), true, 1, 3, 10), HistoryCommand::Nothing);
    assert_eq!(history_command(PopupKey::Char('j'), false, 1, 3, 10), HistoryCommand::Select(2));
    assert_eq!(history_command(PopupKey::Enter, false, 1, 3, 10), HistoryCommand::View);
    assert_eq!(history_command(PopupKey::Char('q'), false, 1, 3, 10), HistoryCommand::Close);
    assert_eq!(tags_command(PopupKey::Char('l'), false, 1, 3), TagsCommand::OpenTag(1));
    assert_eq!(tags_command(PopupKey::Enter, false, 0, 0), TagsCommand::Nothing);
    assert_eq!(tags_command(PopupKey::Left, false, 1, 3), TagsCommand::Nothing);
    assert_eq!(tags_command(PopupKey::Left, true, 1, 3), TagsCommand::Back);
    assert_eq!(tags_command(PopupKey::Char('q'), true, 1, 3), TagsCommand::Close);
    assert_eq!(tags_command(PopupKey::Right, true, 1, 3), TagsCommand::JumpToNote);
    assert_eq!(tags_command(PopupKey::PageDown, true, 1, 3), TagsCommand::Nothing);
    assert_eq!(tags_command(PopupKey::Char('k'), true, 1, 3), TagsCommand::Select(0));
    assert_eq!(template_picker_command(PopupKey::Char('q'), 0, 2), TemplatePickerCommand::Cancel);
    assert_eq!(template_picker_command(PopupKey::Down, 0, 2), TemplatePickerCommand::Select(1));
    assert_eq!(template_picker_command(PopupKey::Char('l'), 0, 2), TemplatePickerCommand::Choose);
    assert_eq!(template_picker_command(PopupKey::Char('z'), 0, 2), TemplatePickerCommand::Nothing);
}

#[test]
fn menu_tree_drawer_and_update_keys() {
    assert_eq!(menu_command(PopupKey::Esc, 0, 3), MenuCommand::Close);
    assert_eq!(menu_command(PopupKey::Down, 2, 3), MenuCommand::Select(2));
    assert_eq!(menu_command(PopupKey::Up, 2, 3), MenuCommand::Select(1));
    assert_eq!(menu_command(PopupKey::Enter, 1, 3), MenuCommand::Apply(1));
    assert_eq!(menu_command(PopupKey::Enter, 0, 0), MenuCommand::Nothing);
    assert_eq!(menu_command(PopupKey::Char('j'), 0, 3), MenuCommand::EditText);
    assert_eq!(menu_command(PopupKey::Backspace, 0, 3), MenuCommand::EditText);
    assert_eq!(menu_command(PopupKey::Home, 2, 3), MenuCommand::Nothing);
    assert_eq!(jump_list_command(PopupKey::Char('q'), 0, 3, 10), JumpListCommand::Close);
    assert_eq!(jump_list_command(PopupKey::End, 0, 3, 10), JumpListCommand::Select(2));
    assert_eq!(jump_list_command(PopupKey::Char('l'), 0, 3, 10), JumpListCommand::Jump);
    assert_eq!(jump_list_command(PopupKey::Left, 0, 3, 10), JumpListCommand::Nothing);
    assert_eq!(drawer_command(PopupKey::Char('j'), 2, 3), DrawerCommand::Select(0));
    assert_eq!(drawer_command(PopupKey::Up, 0, 3), DrawerCommand::Select(2));
    assert_eq!(drawer_command(PopupKey::Char('k'), 2, 3), DrawerCommand::Select(1));
    assert_eq!(drawer_command(PopupKey::Down, 0, 0), DrawerCommand::Nothing);
    assert_eq!(drawer_command(PopupKey::Enter, 0, 3), DrawerCommand::Jump);
    assert_eq!(drawer_command(PopupKey::Char('i'), 0, 3), DrawerCommand::NewNotebook);
    assert_eq!(drawer_command(PopupKey::Esc, 0, 3), DrawerCommand::Close);
    assert_eq!(update_command(UpdateStage::Downloading, PopupKey::Esc), UpdateCommand::Nothing);
    assert_eq!(update_command(UpdateStage::Available, PopupKey::Enter), UpdateCommand::Install);
    assert_eq!(update_command(UpdateStage::Available, PopupKey::Char('q')), UpdateCommand::Nothing);
    assert_eq!(update_command(UpdateStage::Available, PopupKey::Esc), UpdateCommand::Dismiss);
    assert_eq!(update_command(UpdateStage::Installed, PopupKey::Char('x')), UpdateCommand::Hide);
    assert_eq!(update_command(UpdateStage::Other, PopupKey::Char('q')), UpdateCommand::Dismiss);
    assert_eq!(update_command(UpdateStage::Other, PopupKey::Char('x')), UpdateCommand::Nothing);
}

#[test]
fn mouse_scroll_and_paste_routes() {
    let e = Mode::Edit;
    let n = Mode::Normal;
    assert_eq!(mouse_route(MouseKind::LeftDown, e, true, true, true, false), MouseRoute::AddCursor);
    assert_eq!(mouse_route(MouseKind::LeftDown, e, true, false, true, false), MouseRoute::Click);
    assert_eq!(mouse_route(MouseKind::LeftDown, n, true, true, false, true), MouseRoute::FollowLinkOrClick);
    assert_eq!(mouse_route(MouseKind::LeftDown, e, true, true, false, true), MouseRoute::Click);
    assert_eq!(mouse_route(MouseKind::LeftDrag, n, false, false, false, false), MouseRoute::Drag);
    assert_eq!(mouse_route(MouseKind::LeftUp, n, false, false, false, false), MouseRoute::Release);
    assert_eq!(mouse_route(MouseKind::ScrollDown, n, false, false, false, false), MouseRoute::Scroll { down: true });
    assert_eq!(mouse_route(MouseKind::Other, n, false, false, false, false), MouseRoute::Nothing);
    assert_eq!(scroll_command(true, e, true), ScrollCommand::EditorCursor(3));
    assert_eq!(scroll_command(true, Mode::Visual, false), ScrollCommand::Selection(-3));
    assert_eq!(scroll_command(false, n, true), ScrollCommand::Nothing);
    assert_eq!(scroll_command(true, Mode::Insert, true), ScrollCommand::Nothing);
    assert!(paste_whole(e, false, false, false));
    assert!(!paste_whole(e, true, false, false));
    assert!(!paste_whole(n, false, false, false));
    assert_eq!(paste_keys("a\nb"), vec![KeyCode::Char('a'), KeyCode::Enter, KeyCode::Char('b')]);
}

#[test]
fn delete_and_move_prompts() {
    assert_eq!(count_kinds(&[false, true, false]), (2, 1));
    assert_eq!(count_kinds(&[]), (0, 0));
    assert_eq!(
        batch_delete_prompt(2, 1),
        "Delete 2 note(s) and 1 folder(s) (and everything inside them)? Restorable with leader+u."
    );
    assert_eq!(delete_prompt(false, "ideas"), "Delete note 'ideas'? Restorable with leader+u.");
    assert_eq!(
        delete_prompt(true, "refs"),
        "Delete folder 'refs' and everything inside it? Restorable with leader+u."
    );
    assert_eq!(move_prompt_title(false, MoveSubject::Selection(3)), " Move 3 items to ");
    assert_eq!(move_prompt_title(true, MoveSubject::Named("Ideas")), " Copy 'Ideas' to ");
}

#[test]
fn panel_moves_wrap_and_scroll() {
    assert_eq!(panel_move(Focus::Notebooks, 0, 3, 0, 0, 0, -1), PanelMove::Notebook(2));
    assert_eq!(panel_move(Focus::Notebooks, 2, 3, 0, 0, 0, 1), PanelMove::Notebook(0));
    assert_eq!(panel_move(Focus::Notebooks, 0, 0, 0, 0, 0, 1), PanelMove::Nothing);
    assert_eq!(panel_move(Focus::Notes, 0, 0, 4, 5, 0, 10), PanelMove::Note(4));
    assert_eq!(panel_move(Focus::Notes, 0, 0, 0, 0, 0, 1), PanelMove::Nothing);
    assert_eq!(panel_move(Focus::Preview, 0, 0, 0, 0, 5, 3), PanelMove::PreviewScroll(8));
    assert_eq!(panel_move(Focus::Preview, 0, 0, 0, 0, 2, -3), PanelMove::PreviewScroll(0));
    assert_eq!(panel_move(Focus::Preview, 0, 0, 0, 0, 65534, 10), PanelMove::PreviewScroll(65535));
    assert_eq!(panel_move(Focus::Preview, 0, 0, 0, 0, 100, -70000), PanelMove::PreviewScroll(0));
    assert_eq!(panel_move(Focus::Preview, 0, 0, 0, 0, 10000, -70000), PanelMove::PreviewScroll(10000 - 4464));
}

#[test]
fn restore_status_and_cursor_marker() {
    assert_eq!(restore_status(3, 0), "restored 3 item(s)");
    assert_eq!(restore_status(1, 2), "restored 1 item(s), 2 failed");
    assert_eq!(split_cursor_marker("a {{cursor}} b {{cursor}}"), (s("a "), Some(s(" b {{cursor}}"))));
    assert_eq!(split_cursor_marker("{{cursor}}"), (s(""), Some(s(""))));
    assert_eq!(split_cursor_marker("plain {{cur"), (s("plain {{cur"), None));
}

#[test]
fn empty_answers_report_a_cancellation() {
    let names = strings(&["work"]);
    let none: Vec<String> = vec![];
    let c = ctx(&names, &none);
    for kind in [
        PendingInput::NewFolder,
        PendingInput::RenameNote,
        PendingInput::RenameNotebook,
        PendingInput::Search,
        PendingInput::SetRemote,
        PendingInput::MoveOrCopy,
    ] {
        let out = confirm_input(Some(kind), "   ", &c);
        let text = match out.action {
            ConfirmAction::Notify(t) | ConfirmAction::CancelMoveOrCopy(t) => t,
            other => panic!("{kind:?} gave {other:?}"),
        };
        assert!(text.contains("cancelled"), "{kind:?}: {text}");
        assert_eq!(out.mode, Mode::Normal);
        assert!(out.pending.is_none() && out.input_title.is_none());
    }
}
