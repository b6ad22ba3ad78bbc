use shiki_tui::icons;
use shiki_tui::keybindings::{
    action_icon, action_label, describe_key, parse_key, Action, GlobalKeys, KeyCode, KeyMaps, KeybindingsConfig,
    NoteKeys, NotebookKeys, PreviewKeys, WhichKeyRow,
};
use shiki_tui::normal_keys::{normal_command, NormalCommand, NormalKey};
use shiki_tui::state::{Focus, Mode};
use shiki_tui::which_key::which_key_filtered_entries;

fn s(x: &str) -> String {
    x.to_string()
}

fn config() -> KeybindingsConfig {
    KeybindingsConfig {
        leader: s("space"),
        quit: s("q"),
        global: GlobalKeys {
            theme_picker: s("t"),
            global_search: s("/"),
            tags_panel: s("T"),
            logs: s("l"),
            toggle_favorite_editor: s("e"),
            check_update: s("U"),
            drawer: s("b"),
            undo_delete: s("u"),
            settings: s(","),
            scratchpad: s("s"),
            links: s("L"),
            tasks_panel: s("x"),
            query_panel: s("?"),
            publish: s("P"),
            export: s("E"),
            zen_mode: s("z"),
        },
        notebooks: NotebookKeys {
            new: s("n"),
            rename: s("r"),
            delete: s("d"),
            sync: s("s"),
            pull: s("p"),
            pull_all: s("P"),
            set_remote: s("R"),
            push: s("u"),
        },
        notes: NoteKeys {
            new: s("n"),
            new_folder: s("N"),
            rename: s("r"),
            delete: s("d"),
            edit_inline: s("enter"),
            edit_external: s("E"),
            search: s("/"),
            daily_note: s("D"),
            move_to_notebook: s("m"),
            sort: s("o"),
            tree_view: s("t"),
            toggle_dates: s("a"),
            visual: s("v"),
            copy_entries: s("c"),
        },
        preview: PreviewKeys {
            edit_inline: s("i"),
            edit_external: s("E"),
            history: s("h"),
            links: s("L"),
            outline: s("not a key"),
        },
    }
}

#[test]
fn parse_key_reads_names_in_any_case_and_single_characters() {
    assert_eq!(parse_key("enter"), Some(KeyCode::Enter));
    assert_eq!(parse_key("ENTER"), Some(KeyCode::Enter));
    assert_eq!(parse_key("Tab"), Some(KeyCode::Tab));
    assert_eq!(parse_key("escape"), Some(KeyCode::Esc));
    assert_eq!(parse_key("Esc"), Some(KeyCode::Esc));
    assert_eq!(parse_key("space"), Some(KeyCode::Char(' ')));
    assert_eq!(parse_key("backspace"), Some(KeyCode::Backspace));
    assert_eq!(parse_key("A"), Some(KeyCode::Char('A')));
    assert_eq!(parse_key("é"), Some(KeyCode::Char('é')));
    assert_eq!(parse_key(""), None);
    assert_eq!(parse_key("ctrl+x"), None);
}

#[test]
fn describe_key_round_trips_through_parse_key() {
    for k in [KeyCode::Enter, KeyCode::Tab, KeyCode::Esc, KeyCode::Backspace, KeyCode::Char(' '), KeyCode::Char('x')] {
        assert_eq!(parse_key(&describe_key(k)), Some(k));
    }
    assert_eq!(describe_key(KeyCode::Char(' ')), "space");
    assert_eq!(describe_key(KeyCode::Char('Q')), "Q");
}

#[test]
fn keymaps_resolve_per_scope_and_last_binding_wins() {
    let maps = KeyMaps::from_config(&config());
    assert!(maps.is_leader(KeyCode::Char(' ')));
    assert_eq!(maps.leader_key(), KeyCode::Char(' '));
    assert!(maps.is_quit(KeyCode::Char('q')));
    assert_eq!(maps.resolve_global(KeyCode::Char('t')), Some(Action::ThemePicker));
    assert_eq!(maps.resolve_global(KeyCode::Char('L')), Some(Action::ShowLinks));
    assert_eq!(maps.resolve_global(KeyCode::Enter), None);
    assert_eq!(maps.resolve_scoped(Focus::Notebooks, KeyCode::Char('s')), Some(Action::SyncNotebook));
    assert_eq!(maps.resolve_scoped(Focus::Notes, KeyCode::Enter), Some(Action::EditInline));
    assert_eq!(maps.resolve_scoped(Focus::Preview, KeyCode::Char('h')), Some(Action::ShowHistory));
    assert_eq!(maps.resolve_scoped(Focus::Preview, KeyCode::Char('n')), None);
}

#[test]
fn a_later_binding_of_the_same_key_replaces_the_earlier() {
    let mut cfg = config();
    cfg.global.logs = s("t");
    let maps = KeyMaps::from_config(&cfg);
    assert_eq!(maps.resolve_global(KeyCode::Char('t')), Some(Action::ShowLogs));
    assert!(maps.entries().iter().filter(|e| e.0 == "GLOBAL (leader)" && e.1 == "t").count() == 1);
}

#[test]
fn unparseable_leader_and_quit_fall_back() {
    let mut cfg = config();
    cfg.leader = s("nope");
    cfg.quit = s("");
    let maps = KeyMaps::from_config(&cfg);
    assert_eq!(maps.leader_key(), KeyCode::Char(' '));
    assert!(maps.is_quit(KeyCode::Char('q')));
}

#[test]
fn entries_are_grouped_by_scope_and_sorted_by_key() {
    let maps = KeyMaps::from_config(&config());
    let e = maps.entries();
    assert_eq!(e.len(), 16 + 8 + 14 + 4);
    for w in e.windows(2) {
        assert!((w[0].0, &w[0].1) < (w[1].0, &w[1].1), "{:?}", w);
    }
    assert_eq!(e[0].0, "GLOBAL (leader)");
    assert_eq!(e[0].1, ",");
    assert_eq!(e[0].2, Action::ToggleSettings);
    assert!(e.iter().any(|x| x.0 == "NOTES" && x.1 == "enter" && x.2 == Action::EditInline));
    assert_eq!(e.last().unwrap().0, "PREVIEW");
}

#[test]
fn nav_rows_end_with_the_quit_key() {
    let maps = KeyMaps::from_config(&config());
    let rows = maps.nav_rows();
    assert_eq!(rows.len(), 11);
    assert_eq!(rows[0], ("NAVIGATION", "j / ↓".to_string(), "move down"));
    assert_eq!(rows[10], ("NAVIGATION", "q".to_string(), "quit shiki"));
}

#[test]
fn which_key_rows_describe_themselves() {
    let bound = WhichKeyRow::Bound { scope: "NOTES", key: s("n"), action: Action::NewNote };
    assert_eq!(bound.scope(), "NOTES");
    assert_eq!(bound.key(), "n");
    assert_eq!(bound.label(), "new note");
    assert_eq!(bound.icon(), icons::note());
    let nav = WhichKeyRow::Nav { scope: "NAVIGATION", key: s("Tab"), label: "switch panel" };
    assert_eq!(nav.label(), "switch panel");
    assert_eq!(nav.icon(), icons::arrow());
    let hit = WhichKeyRow::NoteHit { pool_index: 3, label: s("Ideas") };
    assert_eq!(hit.scope(), "notes");
    assert_eq!(hit.key(), "");
    assert_eq!(hit.label(), "Ideas");
    assert_eq!(hit.icon(), icons::note());
}

#[test]
fn action_labels_and_icons() {
    assert_eq!(action_label(Action::PushNotebook), "sync + push now (ignores auto_push)");
    assert_eq!(action_label(Action::CopyEntries), "copy selection to… (visual mode)");
    assert_eq!(action_icon(Action::SyncNotebook), icons::git());
    assert_eq!(action_icon(Action::ToggleQuery), icons::filter());
    assert_eq!(action_icon(Action::ShowOutline), icons::tree());
}

fn row_text(row: &WhichKeyRow) -> (String, String, String) {
    (row.scope().to_string(), row.key().to_string(), row.label().to_string())
}

#[test]
fn which_key_empty_query_lists_every_binding_then_navigation() {
    let maps = KeyMaps::from_config(&config());
    let rows = which_key_filtered_entries(&maps, "");
    let entries = maps.entries();
    let nav = maps.nav_rows();
    assert_eq!(rows.len(), entries.len() + nav.len());
    for (row, (scope, key, action)) in rows.iter().zip(entries.iter()) {
        assert!(matches!(row, WhichKeyRow::Bound { action: a, .. } if a == action));
        assert_eq!(row_text(row), (scope.to_string(), key.clone(), action_label(*action).to_string()));
    }
    let last = rows.last().unwrap();
    assert_eq!(row_text(last), (s("NAVIGATION"), s("q"), s("quit shiki")));
}

#[test]
fn which_key_query_is_case_insensitive_over_key_label_and_scope() {
    let maps = KeyMaps::from_config(&config());
    let all = which_key_filtered_entries(&maps, "");
    for query in ["QUIT", "navigation", "Zen", "notebooks", "page"] {
        let q = query.to_lowercase();
        let expected: Vec<(String, String, String)> = all
            .iter()
            .map(row_text)
            .filter(|(scope, key, label)| {
                key.to_lowercase().contains(&q) || label.to_lowercase().contains(&q) || scope.to_lowercase().contains(&q)
            })
            .collect();
        let got: Vec<(String, String, String)> = which_key_filtered_entries(&maps, query).iter().map(row_text).collect();
        assert_eq!(got, expected, "query {query}");
        assert!(!got.is_empty(), "query {query}");
    }
    assert!(which_key_filtered_entries(&maps, "no such row anywhere").is_empty());
}

#[test]
fn action_labels_are_distinct_and_non_empty() {
    let maps = KeyMaps::from_config(&config());
    let mut seen: Vec<(Action, &str)> = Vec::new();
    for (_, _, action) in maps.entries().iter() {
        let label = action_label(*action);
        assert!(!label.is_empty());
        for (a, l) in seen.iter() {
            assert!(*a == *action || *l != label, "{:?} and {:?} share a label", a, action);
        }
        seen.push((*action, label));
    }
    assert!(seen.len() >= 40);
    assert_eq!(action_label(Action::SyncNotebook), "git sync");
    assert_eq!(action_label(Action::PullAllNotebooks), "git pull (all notebooks)");
}

#[test]
fn panel_keys_leader_navigation_and_bindings() {
    let maps = KeyMaps::from_config(&config());
    let ch = |c: char| NormalKey::Code(KeyCode::Char(c));
    let n = Mode::Normal;
    assert_eq!(normal_command(ch('t'), n, true, Focus::Notes, &maps), NormalCommand::Run(Action::ThemePicker));
    assert_eq!(normal_command(ch('Z'), n, true, Focus::Notes, &maps), NormalCommand::UnknownLeader);
    assert_eq!(normal_command(NormalKey::Down, n, true, Focus::Notes, &maps), NormalCommand::UnknownLeader);
    assert_eq!(
        normal_command(NormalKey::Code(KeyCode::Esc), n, true, Focus::Notes, &maps),
        NormalCommand::LeaderCancelled
    );
    assert_eq!(
        normal_command(ch('j'), n, false, Focus::Notes, &maps),
        NormalCommand::MoveSelection { down: true, page: false }
    );
    assert_eq!(
        normal_command(NormalKey::PageUp, n, false, Focus::Notes, &maps),
        NormalCommand::MoveSelection { down: false, page: true }
    );
    assert_eq!(normal_command(NormalKey::Code(KeyCode::Enter), n, false, Focus::Notes, &maps), NormalCommand::Forward);
    assert_eq!(
        normal_command(NormalKey::Code(KeyCode::Enter), Mode::Visual, false, Focus::Notes, &maps),
        NormalCommand::Run(Action::EditInline)
    );
    assert_eq!(
        normal_command(NormalKey::Code(KeyCode::Esc), Mode::Visual, false, Focus::Notes, &maps),
        NormalCommand::LeaveVisual
    );
    assert_eq!(normal_command(ch('h'), n, false, Focus::Notes, &maps), NormalCommand::Backward);
    assert_eq!(normal_command(NormalKey::Code(KeyCode::Tab), n, false, Focus::Notes, &maps), NormalCommand::NextPanel);
    assert_eq!(normal_command(ch('?'), n, false, Focus::Notes, &maps), NormalCommand::OpenWhichKey);
    assert_eq!(normal_command(ch('q'), n, false, Focus::Notes, &maps), NormalCommand::Quit);
    assert_eq!(normal_command(ch(' '), n, false, Focus::Notes, &maps), NormalCommand::Leader);
    assert_eq!(normal_command(ch('d'), n, false, Focus::Notes, &maps), NormalCommand::Run(Action::DeleteNote));
    assert_eq!(normal_command(ch('s'), n, false, Focus::Preview, &maps), NormalCommand::Run(Action::SyncNotebook));
    assert_eq!(normal_command(ch('r'), n, false, Focus::Preview, &maps), NormalCommand::NotForThisPanel);
    assert_eq!(normal_command(ch('x'), n, false, Focus::Preview, &maps), NormalCommand::Nothing);
    assert_eq!(normal_command(NormalKey::Other, n, false, Focus::Preview, &maps), NormalCommand::Nothing);
}
