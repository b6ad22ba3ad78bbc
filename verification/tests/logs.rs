use shiki_tui::logs::{format_log_line, keep_last, record_log_entry, split_log_line};

#[test]
fn a_log_line_is_the_stamp_a_tab_and_the_message() {
    assert_eq!(
        format_log_line("2024-05-01T10:20:30+02:00", "saved [note]: ok"),
        "2024-05-01T10:20:30+02:00\tsaved [note]: ok\n"
    );
}

#[test]
fn reading_a_line_splits_on_the_first_tab_only() {
    assert_eq!(
        split_log_line("2024-05-01T10:20:30Z\ta\tb"),
        Some(("2024-05-01T10:20:30Z".to_string(), "a\tb".to_string()))
    );
    assert_eq!(split_log_line("no tab here"), None);
    assert_eq!(split_log_line("\t"), Some((String::new(), String::new())));
}

#[test]
fn a_written_line_reads_back() {
    let line = format_log_line("2024-05-01T10:20:30.5+00:00", "pull failed: 3 conflicts\tsee git");
    let first = line.lines().next().unwrap();
    assert_eq!(line.lines().count(), 1);
    assert_eq!(
        split_log_line(first),
        Some(("2024-05-01T10:20:30.5+00:00".to_string(), "pull failed: 3 conflicts\tsee git".to_string()))
    );
}

#[test]
fn only_the_last_entries_are_kept() {
    assert_eq!(keep_last(vec![1, 2, 3, 4, 5], 2), vec![4, 5]);
    assert_eq!(keep_last(vec![1, 2], 5), vec![1, 2]);
    assert_eq!(keep_last(vec![1, 2], 0), Vec::<i32>::new());
}

#[test]
fn recording_past_the_limit_drops_the_oldest() {
    let mut history = vec!["a", "b"];
    record_log_entry(&mut history, "c", 3);
    assert_eq!(history, vec!["a", "b", "c"]);
    record_log_entry(&mut history, "d", 3);
    assert_eq!(history, vec!["b", "c", "d"]);
    let mut empty: Vec<&str> = Vec::new();
    record_log_entry(&mut empty, "x", 0);
    assert!(empty.is_empty());
}
