use shiki_tui::links_panel::{build, selectable_count, selected_row, LinkRow, LinkedNote};

fn note(path: &str, title: &str) -> LinkedNote {
    LinkedNote { path: path.to_string(), title: title.to_string() }
}

#[test]
fn build_omits_empty_sections() {
    assert!(build(&[], &[], &[]).is_empty());
}

#[test]
fn build_includes_outgoing_and_backlinks_with_headers() {
    let rows = build(&[("Other".to_string(), Some("a/other.md".to_string()))], &[note("a/other.md", "Other")], &[]);
    assert!(matches!(rows[0], LinkRow::Header("Outgoing")));
    assert!(matches!(rows[1], LinkRow::Outgoing { .. }));
    assert!(matches!(rows[2], LinkRow::Header("Backlinks")));
    assert!(matches!(rows[3], LinkRow::Backlink { .. }));
    assert_eq!(selectable_count(&rows), 2);
}

#[test]
fn selected_row_skips_headers() {
    let rows = build(&[("Other".to_string(), Some("a/other.md".to_string()))], &[note("a/other.md", "Other")], &[]);
    assert_eq!(selected_row(&rows, 0), Some(1));
    assert_eq!(selected_row(&rows, 1), Some(3));
    assert_eq!(selected_row(&rows, 2), None);
}

#[test]
fn unlinked_mentions_get_their_own_section_after_backlinks() {
    let rows = build(&[], &[note("a/linker.md", "Linker")], &[note("a/mentioner.md", "Mentioner")]);
    assert!(matches!(rows[0], LinkRow::Header("Backlinks")));
    assert!(matches!(rows[1], LinkRow::Backlink { .. }));
    assert!(matches!(rows[2], LinkRow::Header("Mentions (unlinked)")));
    assert!(matches!(&rows[3], LinkRow::Mention { note } if note.title == "Mentioner"));
    assert_eq!(selectable_count(&rows), 2);
}

#[test]
fn unresolved_outgoing_link_is_still_shown() {
    let rows = build(&[("Nowhere".to_string(), None)], &[], &[]);
    assert!(matches!(&rows[1], LinkRow::Outgoing { resolved: None, text } if text == "Nowhere"));
}
