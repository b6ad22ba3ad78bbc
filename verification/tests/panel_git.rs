use shiki_tui::panel_git::{
    build_rows, selectable_count, selected_row, status_line, CommitTime, DashRow, FileRevision, GitStatus,
    NotebookGitState, Tone,
};

fn status(dirty: usize, ahead: usize, behind: usize) -> GitStatus {
    GitStatus {
        is_repo: true,
        dirty: dirty > 0,
        dirty_count: dirty,
        branch: Some("main".into()),
        ahead,
        behind,
        status_error: None,
    }
}

fn now() -> CommitTime {
    CommitTime { month: 3, day: 7, hour: 9, minute: 5 }
}

#[test]
fn clean_and_synced_reads_as_all_synced() {
    let (line, tone) = status_line(&status(0, 0, 0), false);
    assert_eq!(line, "all synced");
    assert_eq!(tone, Tone::Good);
}

#[test]
fn dirty_names_the_count_and_the_fixing_key() {
    let (line, tone) = status_line(&status(3, 0, 0), false);
    assert_eq!(line, "3 uncommitted \u{2014} s saves");
    assert_eq!(tone, Tone::Attention);
}

#[test]
fn combined_states_join_parts_and_hints() {
    let (line, tone) = status_line(&status(2, 1, 4), false);
    assert_eq!(
        line,
        "2 uncommitted \u{B7} 4 on remote \u{B7} 1 unpushed \u{2014} s saves, p pulls, u pushes"
    );
    assert_eq!(tone, Tone::Attention);
}

#[test]
fn merge_in_progress_beats_every_pending_change() {
    let (line, tone) = status_line(&status(5, 2, 2), true);
    assert_eq!(line, "merge in progress \u{2014} resolve conflicts first");
    assert_eq!(tone, Tone::Problem);
}

#[test]
fn non_repos_and_errors_are_reported_without_keys() {
    let mut broken = status(0, 0, 0);
    broken.is_repo = false;
    let (line, _tone) = status_line(&broken, false);
    assert_eq!(line, "not a git repository yet");

    let mut errored = status(0, 0, 0);
    errored.status_error = Some("boom".into());
    let (line, tone) = status_line(&errored, false);
    assert_eq!(line, "status unavailable (boom)");
    assert_eq!(tone, Tone::Problem);
}

#[test]
fn build_rows_interleaves_commits_under_each_notebook() {
    let states = vec![
        NotebookGitState {
            name: "personal".into(),
            status: status(0, 0, 0),
            merging: false,
            commits: vec![],
        },
        NotebookGitState {
            name: "work".into(),
            status: status(1, 0, 0),
            merging: false,
            commits: vec![
                FileRevision {
                    commit_id: "abcdef1234567890".into(),
                    date: now(),
                    message: "shiki: added (Ideas.md)".into(),
                },
                FileRevision {
                    commit_id: "1234567890abcdef".into(),
                    date: now(),
                    message: "shiki: updated (Roadmap.md)".into(),
                },
            ],
        },
    ];

    let rows = build_rows(&states);
    assert!(
        matches!(&rows[0], DashRow::Notebook { name, line, tone: Tone::Good }
        if name == "personal" && line == "all synced")
    );
    assert!(matches!(&rows[1], DashRow::Notebook { .. }));
    assert!(matches!(&rows[2], DashRow::Commit { short, message, .. }
        if short == "abcdef1" && message == "shiki: added (Ideas.md)"));
    assert!(matches!(&rows[3], DashRow::Commit { short, .. } if short == "1234567"));
    assert_eq!(selectable_count(&rows), 2);
    assert_eq!(selected_row(&rows, 0), Some(0));
    assert_eq!(selected_row(&rows, 1), Some(1));
    assert_eq!(selected_row(&rows, 2), None);
}

#[test]
fn build_rows_caps_commits_at_three() {
    let commits: Vec<FileRevision> = (0..7)
        .map(|i| FileRevision {
            commit_id: format!("{i:040}"),
            date: now(),
            message: format!("commit {i}"),
        })
        .collect();
    let states = vec![NotebookGitState {
        name: "big".into(),
        status: status(0, 0, 0),
        merging: false,
        commits,
    }];
    let rows = build_rows(&states);
    assert_eq!(rows.len(), 4, "1 notebook line + at most 3 commits");
}

#[test]
fn commit_rows_show_a_zero_padded_date_and_a_short_id() {
    let states = vec![NotebookGitState {
        name: "n".into(),
        status: status(0, 0, 0),
        merging: false,
        commits: vec![FileRevision { commit_id: "abc".into(), date: now(), message: "m".into() }],
    }];
    let rows = build_rows(&states);
    match &rows[1] {
        DashRow::Commit { short, date, message } => {
            assert_eq!(short, "abc");
            assert_eq!(date, "03-07 09:05");
            assert_eq!(message, "m");
        }
        _ => panic!("expected a commit row"),
    }
}

#[test]
fn large_counts_are_written_in_decimal() {
    let (line, _) = status_line(&status(0, 0, 1203), false);
    assert_eq!(line, "1203 on remote \u{2014} p pulls");
}

#[test]
fn every_notebook_is_selectable_once() {
    let states: Vec<NotebookGitState> = (0..4)
        .map(|i| NotebookGitState {
            name: format!("nb{i}"),
            status: status(0, 0, 0),
            merging: false,
            commits: vec![FileRevision { commit_id: "x".into(), date: now(), message: "m".into() }; i],
        })
        .collect();
    let rows = build_rows(&states);
    assert_eq!(selectable_count(&rows), 4);
    assert_eq!(selected_row(&rows, 3), Some(6));
}
