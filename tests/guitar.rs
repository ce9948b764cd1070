use terminal_guitar_tuner::guitar::{
    semi_tone_count, semi_tone_down, semi_tone_up, Accidentals, BaseNote, Note, NoteError,
};

#[test]
fn a4() {
    assert_eq!(
        Note::new("A4"),
        Note {
            note: BaseNote::A,
            accidentals: None,
            octave: 4
        }
    );
}

#[test]
fn a4_sharp() {
    assert_eq!(
        Note::new("A#4"),
        Note {
            note: BaseNote::A,
            accidentals: Some(Accidentals::Sharp),
            octave: 4
        }
    );
}

#[test]
fn a4_flat() {
    assert_eq!(
        Note::new("Ab4"),
        Note {
            note: BaseNote::A,
            accidentals: Some(Accidentals::Flat),
            octave: 4
        }
    );
}

#[test]
fn guitar_a4() {
    let result = semi_tone_up(&Note::new("A4"));
    assert_eq!(result, Note::new("A#4"));
}

#[test]
fn guitar_a4_sharp() {
    let result = semi_tone_up(&Note::new("A#4"));
    assert_eq!(result, Note::new("B4"));
}

#[test]
fn guitar_a4_flat() {
    let result = semi_tone_up(&Note::new("Ab4"));
    assert_eq!(result, Note::new("A4"));
}

#[test]
fn guitar_e4() {
    let result = semi_tone_up(&Note::new("E4"));
    assert_eq!(result, Note::new("F4"));
}

#[test]
fn b4_flat() {
    let result = semi_tone_up(&Note::new("B4"));
    assert_eq!(result, Note::new("C5"));
}

#[test]
fn down_a4() {
    let result = semi_tone_down(&Note::new("A4"));
    assert_eq!(result, Note::new("Ab4"));
}

#[test]
fn down_a4_sharp() {
    let result = semi_tone_down(&Note::new("A#4"));
    assert_eq!(result, Note::new("A4"));
}

#[test]
fn down_a4_flat() {
    let result = semi_tone_down(&Note::new("Ab4"));
    assert_eq!(result, Note::new("G4"));
}

#[test]
fn guitar_c4() {
    let result = semi_tone_down(&Note::new("C4"));
    assert_eq!(result, Note::new("B3"));
}

#[test]
fn disallowed_spellings_are_refused() {
    for s in ["Cb4", "Fb4", "E#4", "B#4"] {
        assert_eq!(Note::parse(s), Err(NoteError::Disallowed));
    }
}

#[test]
fn malformed_spellings_are_refused() {
    for s in ["", "A", "H4", "A#", "Ax4", "A44", "a4", "A4 ", " A4", "A##4", "A\u{0664}"] {
        assert_eq!(Note::parse(s), Err(NoteError::Malformed), "{s:?}");
    }
}

#[test]
fn parse_reads_every_part() {
    assert_eq!(
        Note::parse("Gb2"),
        Ok(Note {
            note: BaseNote::G,
            accidentals: Some(Accidentals::Flat),
            octave: 2
        })
    );
    assert_eq!(
        Note::parse("C#0"),
        Ok(Note {
            note: BaseNote::C,
            accidentals: Some(Accidentals::Sharp),
            octave: 0
        })
    );
    assert_eq!(
        Note::parse("E9"),
        Ok(Note {
            note: BaseNote::E,
            accidentals: None,
            octave: 9
        })
    );
}

#[test]
fn semitone_counts() {
    assert_eq!(semi_tone_count(&Note::new("C0")), 0);
    assert_eq!(semi_tone_count(&Note::new("A4")), 57);
    assert_eq!(semi_tone_count(&Note::new("A#4")), 58);
    assert_eq!(semi_tone_count(&Note::new("Bb3")), 46);
    assert_eq!(semi_tone_count(&Note::new("E2")), 28);
    assert_eq!(semi_tone_count(&Note::new("B9")), 119);
}

#[test]
fn stepping_wraps_across_octaves_and_half_steps() {
    assert_eq!(semi_tone_up(&Note::new("B3")), Note::new("C4"));
    assert_eq!(semi_tone_up(&Note::new("Bb3")), Note::new("B3"));
    assert_eq!(semi_tone_up(&Note::new("D#3")), Note::new("E3"));
    assert_eq!(semi_tone_down(&Note::new("F3")), Note::new("E3"));
    assert_eq!(semi_tone_down(&Note::new("Db3")), Note::new("C3"));
    assert_eq!(semi_tone_down(&Note::new("C#3")), Note::new("C3"));
}

#[test]
fn stepping_round_trips() {
    for s in ["C4", "C#4", "D4", "E4", "F#4", "G4", "A#2", "B3", "A4"] {
        let n = Note::new(s);
        assert_eq!(semi_tone_up(&semi_tone_down(&n)), n, "{s}");
    }
    for s in ["C4", "Db4", "D4", "E4", "F4", "Gb4", "Ab2", "B3", "Bb4"] {
        let n = Note::new(s);
        assert_eq!(semi_tone_down(&semi_tone_up(&n)), n, "{s}");
    }
}

#[test]
fn stepping_never_spells_a_disallowed_note() {
    let mut n = Note::new("C1");
    for _ in 0..60 {
        n = semi_tone_up(&n);
        assert!(Note::parse(&spelling(&n)).is_ok());
    }
    for _ in 0..60 {
        n = semi_tone_down(&n);
        assert!(Note::parse(&spelling(&n)).is_ok());
    }
    assert_eq!(n, Note::new("C1"));
}

fn spelling(n: &Note) -> String {
    let letter = match n.note {
        BaseNote::A => "A",
        BaseNote::B => "B",
        BaseNote::C => "C",
        BaseNote::D => "D",
        BaseNote::E => "E",
        BaseNote::F => "F",
        BaseNote::G => "G",
    };
    let accidental = match n.accidentals {
        Some(Accidentals::Sharp) => "#",
        Some(Accidentals::Flat) => "b",
        None => "",
    };
    format!("{letter}{accidental}{}", n.octave)
}

#[test]
fn notes_are_shown_with_signs_and_octave() {
    assert_eq!(Note::new("A#4").to_string(), "A♯(4)");
    assert_eq!(Note::new("Bb3").to_string(), "B♭(3)");
    assert_eq!(Note::new("E2").to_string(), "E(2)");
    let high = Note {
        note: BaseNote::C,
        accidentals: None,
        octave: 123,
    };
    assert_eq!(high.to_string(), "C(123)");
    let ten = Note {
        note: BaseNote::D,
        accidentals: Some(Accidentals::Sharp),
        octave: 10,
    };
    assert_eq!(ten.to_string(), "D♯(10)");
}

fn equal_tempered(note: &Note) -> f64 {
    let difference = semi_tone_count(note) - semi_tone_count(&Note::new("A4"));
    440.0 * 2_f64.powf(difference as f64 / 12.0)
}

#[test]
fn frequencies_from_semitone_counts() {
    let cases = [
        ("A4", 440.0),
        ("A#4", 466.1637615180899),
        ("C4", 261.6255653005986),
        ("Bb3", 233.08188075904496),
        ("E2", 82.4068892282175),
        ("D3", 146.8323839587038),
        ("A2", 110.0),
    ];
    for (name, expected) in cases {
        assert!((equal_tempered(&Note::new(name)) - expected).abs() < 1e-6, "{name}");
    }
}
