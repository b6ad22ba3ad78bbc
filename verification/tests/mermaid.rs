use shiki_tui::mermaid::{render, DiagramKind, Role, StyledLine};

fn text(lines: &[StyledLine]) -> Vec<String> {
    lines
        .iter()
        .map(|l| l.spans.iter().map(|s| s.text.as_str()).collect::<String>())
        .collect()
}

#[test]
fn unknown_source_returns_none() {
    assert!(render("not a diagram at all").is_none());
    assert!(render("").is_none());
}

#[test]
fn graph_kind_is_detected() {
    let (kind, _) = render("graph TD\nA --> B").unwrap();
    assert_eq!(kind, DiagramKind::Graph);
}

#[test]
fn renders_node_shapes_and_tree() {
    let src = "graph TD\nA[Christmas] -->|Get money| B(Go shopping)\nB --> C{Let me think}\nC -->|One| D[Laptop]\nC -->|Two| E[iPhone]";
    let (_, lines) = render(src).unwrap();
    let t = text(&lines);
    assert_eq!(t[0], "[Christmas]");
    assert_eq!(t[1], "└─ Get money ───▶");
    assert_eq!(t[2], "   (Go shopping)");
    assert!(t.iter().any(|l| l.contains("{Let me think}")), "{t:?}");
    assert!(t.iter().any(|l| l.contains("[Laptop]")), "{t:?}");
    assert!(t.iter().any(|l| l.contains("[iPhone]")), "{t:?}");
    assert!(t.iter().any(|l| l.contains("├─ One ───▶")), "{t:?}");
    assert!(t.iter().any(|l| l.contains("└─ Two ───▶")), "{t:?}");
}

#[test]
fn direction_header_sets_uppercase() {
    let (_, lines) = render("flowchart LR\nA --> B").unwrap();
    let t = text(&lines);
    assert_eq!(t[0], "A");
    assert_eq!(t[1], "└─ ───▶");
    assert_eq!(t[2], "   B");
}

#[test]
fn bare_ids_become_plain_nodes() {
    let (_, lines) = render("graph TD\nA --> B").unwrap();
    let t = text(&lines);
    assert_eq!(t[0], "A");
    assert_eq!(t[1], "└─ ───▶");
    assert_eq!(t[2], "   B");
}

#[test]
fn edge_label_between_dashes() {
    let (_, lines) = render("graph TD\nA -- hello --> B").unwrap();
    let t = text(&lines);
    assert!(t[1].contains("hello"), "{t:?}");
}

#[test]
fn sequence_participants_and_messages_render() {
    let src = "sequenceDiagram\nparticipant Alice\nparticipant Bob\nAlice->>Bob: Hello Bob\nBob-->>Alice: Hi Alice";
    let (kind, lines) = render(src).unwrap();
    assert_eq!(kind, DiagramKind::Sequence);
    let t = text(&lines);
    assert!(t[0].contains("Alice"), "{t:?}");
    assert!(t[0].contains("Bob"), "{t:?}");
    assert!(t.iter().any(|l| l.contains("Hello Bob")), "{t:?}");
    assert!(t.iter().any(|l| l.contains("Hi Alice")), "{t:?}");
    assert!(t[1].contains('▶'), "solid arrow: {t:?}");
    assert!(t[2].contains('◀'), "back arrow: {t:?}");
}

#[test]
fn sequence_shorthand_participants_are_implicit() {
    let src = "sequenceDiagram\nAlice->>Bob: hi";
    let (_, lines) = render(src).unwrap();
    let t = text(&lines);
    assert!(t[0].contains("Alice") && t[0].contains("Bob"), "{t:?}");
}

#[test]
fn comment_lines_are_ignored() {
    let (_, lines) = render("graph TD\n%% a comment\nA --> B").unwrap();
    let t = text(&lines);
    assert_eq!(t, vec!["A", "└─ ───▶", "   B"]);
}

#[test]
fn sequence_self_message_does_not_panic() {
    let src = "sequenceDiagram\nCron->>DB: read\nCron->>Cron: skip if empty\nCron->>DB: write";
    let (_, lines) = render(src).unwrap();
    let t = text(&lines);
    assert!(t[2].contains('↺'), "self-message loop glyph: {t:?}");
    assert!(t[2].contains("skip if empty"), "{t:?}");
    assert!(t[3].contains('▶'), "later messages still render: {t:?}");
}

#[test]
fn sequence_rows_have_exact_columns() {
    let (_, lines) = render("sequenceDiagram\nA->>B: go\nB-->>A: back").unwrap();
    let t = text(&lines);
    assert_eq!(t[0], "A   B");
    assert_eq!(t[1], "│───▶     go");
    assert_eq!(t[2], "◀···│     back");
    assert_eq!(lines[1].spans[0].role, Role::Accent);
    assert_eq!(lines[1].spans[1].role, Role::Fg);
    assert_eq!(lines[0].spans[2].role, Role::AccentBold);
}

#[test]
fn sequence_without_participants_renders_nothing() {
    let (kind, lines) = render("sequenceDiagram").unwrap();
    assert_eq!(kind, DiagramKind::Sequence);
    assert!(lines.is_empty());
}

#[test]
fn graph_edge_roles_follow_theme() {
    let (_, lines) = render("graph TD\nA --> B").unwrap();
    assert_eq!(lines.len(), 3);
    assert!(lines[1].spans.iter().any(|s| s.role == Role::Muted || s.role == Role::Accent));
}

#[test]
fn sequence_row_count_and_arrowheads() {
    let src = "sequenceDiagram\nparticipant A\nparticipant B\nparticipant C\nC->>A: back\nA->>C: go\nB->>B: loop";
    let (_, lines) = render(src).unwrap();
    assert_eq!(lines.len(), 1 + 3);
    let t = text(&lines);
    let row = |i: usize| -> Vec<char> { t[i].chars().collect() };
    assert_eq!(row(1)[0], '◀');
    assert_eq!(row(1)[8], '│');
    assert_eq!(row(2)[8], '▶');
    assert_eq!(row(2)[0], '│');
    assert_eq!(row(3)[4], '↺');
}
