use shiki_tui::icons;
use shiki_tui::input::InputBox;
use shiki_tui::state::{Focus, NoteSort};

#[test]
fn tab_cycles_through_every_panel() {
    for f in [Focus::Notebooks, Focus::Notes, Focus::Preview] {
        assert_eq!(f.next().next().next(), f);
        assert_ne!(f.next(), f);
    }
    assert_eq!(Focus::Notebooks.next(), Focus::Notes);
}

#[test]
fn forward_and_backward_stop_at_the_ends() {
    assert_eq!(Focus::Preview.forward(), Focus::Preview);
    assert_eq!(Focus::Notebooks.backward(), Focus::Notebooks);
    assert_eq!(Focus::Notebooks.forward().backward(), Focus::Notebooks);
    assert_eq!(Focus::Preview.backward().forward(), Focus::Preview);
}

#[test]
fn session_names_round_trip() {
    for f in [Focus::Notebooks, Focus::Notes, Focus::Preview] {
        assert_eq!(Focus::from_session_str(f.as_session_str()), Some(f));
    }
    assert_eq!(Focus::from_session_str("Notes"), None);
    assert_eq!(Focus::from_session_str(""), None);
}

#[test]
fn note_sort_cycles_and_reads_its_own_labels() {
    for s in [NoteSort::Filename, NoteSort::TitleAz, NoteSort::DateNewest] {
        assert_eq!(s.next().next().next(), s);
        assert_eq!(NoteSort::from_config_str(s.label()), s);
    }
    assert_eq!(NoteSort::from_config_str("  Title A-Z "), NoteSort::TitleAz);
    assert_eq!(NoteSort::from_config_str("DATE"), NoteSort::DateNewest);
    assert_eq!(NoteSort::from_config_str("whatever"), NoteSort::Filename);
    assert_eq!(NoteSort::default(), NoteSort::Filename);
}

#[test]
fn input_box_edits_its_value() {
    let mut b = InputBox::default();
    b.push('h');
    b.push('é');
    assert_eq!(b.value, "hé");
    b.backspace();
    assert_eq!(b.value, "h");
    b.backspace();
    b.backspace();
    assert_eq!(b.value, "");
    b.push('x');
    b.clear();
    assert_eq!(b.value, "");
    assert!(!b.masked);
}

#[test]
fn icons_fall_back_when_disabled() {
    assert_eq!(icons::note().text(true), "\u{f0f6} ");
    assert_eq!(icons::note().text(false), "");
    assert_eq!(icons::arrow().text(false), "> ");
    assert_eq!(icons::upload().text(true), "\u{f093}");
    assert_eq!(icons::arrow().bare(false), ">");
    assert_eq!(icons::git().bare(true), "\u{f126}");
}
