use terminal_guitar_tuner::guitar::Note;
use terminal_guitar_tuner::tuning_notes::{current_peg_index, State};
use terminal_guitar_tuner::widgets::LoadingIcon;

#[test]
fn standard_tuning() {
    let state = State::standard();
    let names = ["E4", "B3", "G3", "D3", "A2", "E2"];
    assert_eq!(state.notes, names.iter().map(|n| Note::new(n)).collect::<Vec<_>>());
    assert_eq!(state.selected_note_index, None);
    assert_eq!(state.detecting_note, None);
    assert!(state.tuned_notes.is_empty());
}

#[test]
fn string_selection_wraps_round() {
    let mut state = State::standard();
    state.prev_string();
    assert_eq!(state.selected_note_index, Some(5));
    state.next_string();
    assert_eq!(state.selected_note_index, Some(0));
    state.prev_string();
    assert_eq!(state.selected_note_index, Some(5));
    state.prev_string();
    assert_eq!(state.selected_note_index, Some(4));

    let mut fresh = State::standard();
    fresh.next_string();
    assert_eq!(fresh.selected_note_index, Some(0));
}

#[test]
fn retuning_the_selected_string() {
    let mut state = State::standard();
    state.next_note();
    assert_eq!(state.notes[0], Note::new("E4"));
    state.next_string();
    state.prev_note();
    assert_eq!(state.notes[0], Note::new("Eb4"));
    state.next_note();
    state.next_note();
    assert_eq!(state.notes[0], Note::new("F4"));
}

#[test]
fn tuned_notes_are_recorded_once() {
    let mut state = State::standard();
    state.mark_tuned(&Note::new("E4"));
    state.mark_tuned(&Note::new("E4"));
    state.mark_tuned(&Note::new("A2"));
    assert_eq!(state.tuned_notes, vec![Note::new("E4"), Note::new("A2")]);
    assert!(state.has_note(&Note::new("D3")));
    assert!(!state.has_note(&Note::new("F4")));
}

#[test]
fn peg_of_the_heard_string() {
    let mut state = State::standard();
    assert_eq!(current_peg_index(&state), None);
    state.detecting_note = Some(Note::new("D3"));
    assert_eq!(current_peg_index(&state), Some(3));
}

#[test]
fn spinner_turns_every_few_frames() {
    assert_eq!(LoadingIcon::new(0).char, '⣷');
    assert_eq!(LoadingIcon::new(3).char, '⣷');
    assert_eq!(LoadingIcon::new(4).char, '⣯');
    assert_eq!(LoadingIcon::new(31).char, '⣾');
    assert_eq!(LoadingIcon::new(32).char, '⣷');
}
