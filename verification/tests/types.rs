use shiki_tui::attachments::{attachments_dir_name, candidate_name, image_link, pasted_stem, pasted_stem_now, LocalTime};
use shiki_tui::clipboard::osc52_sequence;
use shiki_tui::types::{format_ymd, hint_line_count, Date, PendingInput, QuerySuggestion, QuickCommand};

#[test]
fn pending_input_titles_and_hints() {
    assert_eq!(PendingInput::NewNote.title(), " New note (@ for quick date/template) ");
    assert_eq!(PendingInput::RenameNote.title(), " Rename ");
    assert_eq!(PendingInput::SettingsExportText.title(), " Edit value ");
    assert!(PendingInput::NewNotebook.hint().unwrap().starts_with("A name creates"));
    assert_eq!(PendingInput::Search.hint(), None);
}

#[test]
fn quick_commands_label_and_display() {
    assert_eq!(QuickCommand::Yesterday.label(), "yesterday");
    assert_eq!(QuickCommand::Template("meeting".into()).label(), "meeting");
    assert_eq!(QuickCommand::Template("meeting".into()).display(), "meeting  (template)");
    let d = Date { year: 2024, month: 3, day: 1 };
    assert_eq!(QuickCommand::Today.display_with(Some(d)), "today  \u{2192} 2024-03-01");
    assert_eq!(QuickCommand::Tomorrow.display_with(None), "tomorrow  \u{2192} ");
    assert_eq!(QuickCommand::Yesterday.date_from(d), Some(Date { year: 2024, month: 2, day: 29 }));
    assert_eq!(QuickCommand::Tomorrow.date_from(Date { year: 2023, month: 12, day: 31 }), Some(Date { year: 2024, month: 1, day: 1 }));
    assert_eq!(QuickCommand::Template("x".into()).date_from(d), None);
    assert!(QuickCommand::Today.display().contains("\u{2192} "));
}

#[test]
fn years_are_written_as_chrono_writes_them() {
    assert_eq!(format_ymd(Date { year: 7, month: 1, day: 2 }), "0007-01-02");
    assert_eq!(format_ymd(Date { year: 12345, month: 11, day: 30 }), "+12345-11-30");
    assert_eq!(format_ymd(Date { year: -3, month: 1, day: 1 }), "-0003-01-01");
}

#[test]
fn query_suggestions() {
    let g = QuerySuggestion::generated("where a".into());
    assert_eq!(g.display, "where a");
    assert_eq!(g.saved_name, None);
    let s = QuerySuggestion::saved("todo", "where done = false".into(), true);
    assert_eq!(s.display, "\u{f005}  todo");
    assert_eq!(s.saved_name.as_deref(), Some("todo"));
    assert_eq!(QuerySuggestion::saved("todo", "x".into(), false).display, " todo");
}

#[test]
fn hint_lines_wrap_greedily_at_words() {
    assert_eq!(hint_line_count("", 10), 1);
    assert_eq!(hint_line_count("one two three", 7), 2);
    assert_eq!(hint_line_count("one two three", 100), 1);
    assert_eq!(hint_line_count("aaaaaaaaaa b", 3), 3);
    assert_eq!(hint_line_count("a b c", 0), 3);
}

#[test]
fn osc52_carries_base64_of_the_text() {
    assert_eq!(osc52_sequence("hi"), "\x1b]52;c;aGk=\x07");
    assert_eq!(osc52_sequence(""), "\x1b]52;c;\x07");
}

#[test]
fn pasted_image_names_and_links() {
    let t = LocalTime { year: 2024, month: 5, day: 6, hour: 7, minute: 8, second: 9 };
    assert_eq!(pasted_stem(t), "pasted-20240506-070809");
    assert_eq!(candidate_name("s", 1), "s.png");
    assert_eq!(candidate_name("s", 2), "s-2.png");
    assert_eq!(candidate_name("s", 12), "s-12.png");
    assert_eq!(image_link("attachments", "s", "s-2.png"), "![s](attachments/s-2.png)");
    assert_eq!(image_link("images", "s", "s.png"), "![s](images/s.png)");
    assert_eq!(attachments_dir_name("  pics ", "attachments"), "pics");
    assert_eq!(attachments_dir_name("   ", "attachments"), "attachments");
}

#[test]
fn the_stem_of_an_image_pasted_now_is_dated() {
    let stem = pasted_stem_now();
    assert_eq!(stem.len(), "pasted-20240501-102030".len());
    assert!(stem.starts_with("pasted-"));
    let rest: Vec<char> = stem["pasted-".len()..].chars().collect();
    assert_eq!(rest[8], '-');
    assert!(rest.iter().enumerate().all(|(i, c)| i == 8 || c.is_ascii_digit()));
}

fn ymd(year: i32, month: u32, day: u32) -> Date {
    Date { year, month, day }
}

#[test]
fn quick_dates_step_across_month_year_and_leap_day() {
    assert_eq!(QuickCommand::Today.date_from(ymd(2024, 3, 1)), Some(ymd(2024, 3, 1)));
    assert_eq!(QuickCommand::Yesterday.date_from(ymd(2024, 3, 1)), Some(ymd(2024, 2, 29)));
    assert_eq!(QuickCommand::Yesterday.date_from(ymd(2023, 3, 1)), Some(ymd(2023, 2, 28)));
    assert_eq!(QuickCommand::Yesterday.date_from(ymd(2000, 3, 1)), Some(ymd(2000, 2, 29)));
    assert_eq!(QuickCommand::Yesterday.date_from(ymd(1900, 3, 1)), Some(ymd(1900, 2, 28)));
    assert_eq!(QuickCommand::Yesterday.date_from(ymd(2025, 1, 1)), Some(ymd(2024, 12, 31)));
    assert_eq!(QuickCommand::Tomorrow.date_from(ymd(2024, 12, 31)), Some(ymd(2025, 1, 1)));
    assert_eq!(QuickCommand::Tomorrow.date_from(ymd(2024, 2, 28)), Some(ymd(2024, 2, 29)));
    assert_eq!(QuickCommand::Tomorrow.date_from(ymd(2024, 4, 30)), Some(ymd(2024, 5, 1)));
    assert_eq!(QuickCommand::Tomorrow.date_from(ymd(2024, 2, 30)), None);
    assert_eq!(QuickCommand::Yesterday.date_from(ymd(-262143, 1, 1)), None);
    assert_eq!(QuickCommand::Tomorrow.date_from(ymd(262142, 12, 31)), None);
    assert_eq!(QuickCommand::Template("t".to_string()).date_from(ymd(2024, 1, 1)), None);
}

#[test]
fn osc52_encodes_each_padding_case() {
    assert_eq!(osc52_sequence(""), "\x1b]52;c;\x07");
    assert_eq!(osc52_sequence("M"), "\x1b]52;c;TQ==\x07");
    assert_eq!(osc52_sequence("Ma"), "\x1b]52;c;TWE=\x07");
    assert_eq!(osc52_sequence("Man"), "\x1b]52;c;TWFu\x07");
    assert_eq!(osc52_sequence("ÿ?>"), "\x1b]52;c;w78/Pg==\x07");
}
