use shiki_tui::panel_outline::{filtered_headings, Heading};

fn heading(line: usize, level: u8, text: &str) -> Heading {
    Heading { line, level, text: text.to_string() }
}

#[test]
fn empty_query_matches_everything() {
    let headings = vec![heading(0, 1, "Intro"), heading(3, 2, "Setup"), heading(9, 1, "Deploy")];
    let filtered = filtered_headings("", &headings);
    assert_eq!(filtered.len(), 3);
    assert_eq!(filtered[0].line, 0);
    assert_eq!(filtered[2].line, 9);
}

#[test]
fn query_filters_case_insensitively() {
    let headings = vec![heading(0, 1, "Instalación"), heading(3, 2, "setup"), heading(9, 1, "DEPLOY")];
    let filtered = filtered_headings("dep", &headings);
    assert_eq!(filtered.len(), 1);
    assert_eq!(filtered[0].line, 9);
    assert_eq!(filtered[0].text, "DEPLOY");
}

#[test]
fn query_with_no_matches_is_empty() {
    let headings = vec![heading(0, 1, "Intro"), heading(3, 2, "Setup")];
    assert!(filtered_headings("zzz", &headings).is_empty());
}

#[test]
fn query_matches_substring_in_heading_text_only() {
    let headings = vec![heading(0, 1, "Intro"), heading(3, 2, "Setup"), heading(9, 1, "Deploy")];
    let filtered = filtered_headings("set", &headings);
    assert_eq!(filtered.len(), 1);
    assert_eq!(filtered[0].text, "Setup");
}

#[test]
fn uppercase_query_matches_too() {
    let headings = vec![heading(0, 1, "instalación")];
    assert_eq!(filtered_headings("INSTALACIÓN", &headings).len(), 1);
}
