use shiki_tui::prompts::{
    current_address, cursor_after_insert, quick_template_filtered, unique_default_notebook_name, wikilink_start,
};
use shiki_tui::types::QuickCommand;
use shiki_tui::prompts::{quick_template_query, slash_query, wikilink_query};
use shiki_tui::prompts::{default_notebook_name, editor_status_label, notes_breadcrumb, split_move_target};
use shiki_tui::geometry::Rect;
use shiki_tui::prompts::global_search_hit_at;
use shiki_tui::keybindings::Action;
use shiki_tui::navigation::{
    home_relative, is_notebook_git_action, looks_like_git_url, looks_like_path, notebook_name_from_git_url, relative_folder, shift,
};

#[test]
fn only_the_git_actions_reach_the_selected_notebook_from_anywhere() {
    assert!(is_notebook_git_action(Action::SyncNotebook));
    assert!(is_notebook_git_action(Action::PushNotebook));
    assert!(!is_notebook_git_action(Action::NewNotebook));
    assert!(!is_notebook_git_action(Action::DeleteNotebook));
}

#[test]
fn git_urls_and_paths_are_told_apart_from_names() {
    assert!(looks_like_git_url("https://github.com/a/b"));
    assert!(looks_like_git_url("git@github.com:a/b.git"));
    assert!(looks_like_git_url("ssh://host/x"));
    assert!(!looks_like_git_url("notes"));
    assert!(looks_like_path("/abs"));
    assert!(looks_like_path("~"));
    assert!(looks_like_path("./rel"));
    assert!(!looks_like_path("rel"));
    assert!(!looks_like_path(".hidden"));
}

#[test]
fn notebook_names_come_from_the_last_url_segment() {
    assert_eq!(notebook_name_from_git_url("https://github.com/owner/repo.git"), Some("repo".to_string()));
    assert_eq!(notebook_name_from_git_url("git@github.com:owner/notes.git"), Some("notes".to_string()));
    assert_eq!(notebook_name_from_git_url("https://host/owner/repo/"), Some("repo".to_string()));
    assert_eq!(notebook_name_from_git_url("git@host:repo"), Some("repo".to_string()));
    assert_eq!(notebook_name_from_git_url("https://host/.git"), None);
    assert_eq!(notebook_name_from_git_url(""), None);
}

#[test]
fn shift_wraps_in_both_directions() {
    assert_eq!(shift(0, -1, 3), 2);
    assert_eq!(shift(2, 1, 3), 0);
    assert_eq!(shift(1, 5, 3), 0);
    assert_eq!(shift(0, -7, 3), 2);
    assert_eq!(shift(4, 0, 0), 0);
}

#[test]
fn relative_folder_strips_the_notebook_prefix() {
    let v = |xs: &[&str]| xs.iter().map(|s| s.to_string()).collect::<Vec<_>>();
    assert_eq!(relative_folder(&v(&["home", "nb", "work", "a.md"]), &v(&["home", "nb"])), v(&["work"]));
    assert_eq!(relative_folder(&v(&["home", "nb", "a.md"]), &v(&["home", "nb"])), Vec::<String>::new());
    assert_eq!(relative_folder(&v(&["elsewhere", "a.md"]), &v(&["home", "nb"])), Vec::<String>::new());
    assert_eq!(relative_folder(&v(&[]), &v(&["home"])), Vec::<String>::new());
}

#[test]
fn menus_read_what_is_typed_before_the_cursor() {
    let line: Vec<char> = "/head rest".chars().collect();
    assert_eq!(slash_query(&line, 5), Some("head".to_string()));
    assert_eq!(slash_query(&line, 0), None);
    assert_eq!(slash_query(&line, 99), Some("head rest".to_string()));
    let plain: Vec<char> = "head".chars().collect();
    assert_eq!(slash_query(&plain, 3), None);
    let link: Vec<char> = "see [[Weekend hi".chars().collect();
    assert_eq!(wikilink_query(&link, link.len()), Some("Weekend hi".to_string()));
    let closed: Vec<char> = "see [[Done]] and".chars().collect();
    assert_eq!(wikilink_query(&closed, closed.len()), None);
    assert_eq!(wikilink_query(&closed, 8), Some("Do".to_string()));
    assert_eq!(quick_template_query("Trip @tom"), Some("tom".to_string()));
    assert_eq!(quick_template_query("a@b@c"), Some("c".to_string()));
    assert_eq!(quick_template_query("no at"), None);
}

#[test]
fn labels_breadcrumbs_and_names() {
    assert_eq!(editor_status_label(false, Some("code -w"), "vim"), "native");
    assert_eq!(editor_status_label(true, Some("  code -w"), "vim"), "code");
    assert_eq!(editor_status_label(true, None, "nvim --clean"), "nvim");
    assert_eq!(editor_status_label(true, None, "   "), "   ");
    assert_eq!(notes_breadcrumb(&vec![]), None);
    assert_eq!(notes_breadcrumb(&vec!["work".to_string(), "2024".to_string()]), Some("work / 2024".to_string()));
    assert_eq!(default_notebook_name(1), "notebook");
    assert_eq!(default_notebook_name(3), "notebook-3");
    assert_eq!(split_move_target("/work//meetings/2024/"), Some(("work".to_string(), vec!["meetings".to_string(), "2024".to_string()])));
    assert_eq!(split_move_target("///"), None);
}

#[test]
fn search_clicks_hit_the_result_rows() {
    let list = Rect::new(10, 5, 40, 12);
    assert_eq!(global_search_hit_at(list, 3, 11, 6), Some(0));
    assert_eq!(global_search_hit_at(list, 3, 11, 8), Some(2));
    assert_eq!(global_search_hit_at(list, 3, 11, 9), None);
    assert_eq!(global_search_hit_at(list, 30, 10, 6), None);
    assert_eq!(global_search_hit_at(list, 30, 49, 6), None);
    assert_eq!(global_search_hit_at(list, 30, 11, 16), None);
}

fn line(s: &str) -> Vec<char> {
    s.chars().collect()
}

#[test]
fn wikilink_completion_starts_at_the_last_double_bracket() {
    assert_eq!(wikilink_start(&line("see [[Ide"), 9), Some(4));
    assert_eq!(wikilink_start(&line("[[a]] and [[b"), 13), Some(10));
    assert_eq!(wikilink_start(&line("[[a]] and [[b"), 6), Some(0));
    assert_eq!(wikilink_start(&line("no link"), 7), None);
    assert_eq!(wikilink_start(&line("[["), 1), None);
}

#[test]
fn cursor_lands_after_the_text_before_the_marker() {
    assert_eq!(cursor_after_insert(3, "## Title\n\n- "), (5, 2));
    assert_eq!(cursor_after_insert(3, "inline"), (3, 6));
    assert_eq!(cursor_after_insert(0, "a\n"), (1, 0));
    assert_eq!(cursor_after_insert(2, "é\nñá"), (3, 2));
}

#[test]
fn quick_commands_filter_by_label_ignoring_case() {
    let options = || {
        vec![
            QuickCommand::Today,
            QuickCommand::Yesterday,
            QuickCommand::Tomorrow,
            QuickCommand::Template("Daily Standup".to_string()),
        ]
    };
    assert_eq!(quick_template_filtered("errand @TO", options()), vec![QuickCommand::Today, QuickCommand::Tomorrow]);
    assert_eq!(quick_template_filtered("@", options()).len(), 4);
    assert_eq!(quick_template_filtered("x @daily", options()), vec![QuickCommand::Template("Daily Standup".to_string())]);
    assert_eq!(quick_template_filtered("no at sign", options()), Vec::<QuickCommand>::new());
    assert_eq!(quick_template_filtered("@zzz", options()), Vec::<QuickCommand>::new());
}

#[test]
fn tilde_paths_name_a_place_under_home() {
    assert_eq!(home_relative("~"), Some(String::new()));
    assert_eq!(home_relative("~/notes/work"), Some("notes/work".to_string()));
    assert_eq!(home_relative("~notes"), Some("notes".to_string()));
    assert_eq!(home_relative("/abs/~"), None);
    assert_eq!(home_relative(""), None);
}

#[test]
fn a_new_notebook_takes_the_first_free_default_name() {
    let names = |v: &[&str]| v.iter().map(|s| s.to_string()).collect::<Vec<String>>();
    assert_eq!(unique_default_notebook_name(&[]), "notebook");
    assert_eq!(unique_default_notebook_name(&names(&["notebook"])), "notebook-2");
    assert_eq!(unique_default_notebook_name(&names(&["x", "notebook-2", "notebook"])), "notebook-3");
    assert_eq!(unique_default_notebook_name(&names(&["notebook-2"])), "notebook");
}

#[test]
fn the_address_is_the_notebook_and_its_folders() {
    let path = vec!["projects".to_string(), "2024".to_string()];
    assert_eq!(current_address(Some("work"), &path), "work/projects/2024");
    assert_eq!(current_address(Some("work"), &[]), "work");
    assert_eq!(current_address(None, &path), "");
}
