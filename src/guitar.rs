use vstd::prelude::*;

verus! {

/// An accidental that raises or lowers a natural note by one semitone.
#[derive(Copy, Clone, Debug, Hash, PartialEq, Eq, Structural)]
pub enum Accidentals {
    Sharp,
    Flat,
}

/// The letter of a note.
#[derive(Copy, Clone, Debug, Hash, PartialEq, Eq, Structural)]
pub enum BaseNote {
    A,
    B,
    C,
    D,
    E,
    F,
    G,
}

/// A note spelled as letter, optional accidental and octave.
#[derive(Copy, Clone, Debug, Hash, PartialEq, Eq, Structural)]
pub struct Note {
    pub note: BaseNote,
    pub octave: u8,
    pub accidentals: Option<Accidentals>,
}

/// Semitones of a letter above C in the same octave.
pub open spec fn base_offset(b: BaseNote) -> int {
    match b {
        BaseNote::C => 0,
        BaseNote::D => 2,
        BaseNote::E => 4,
        BaseNote::F => 5,
        BaseNote::G => 7,
        BaseNote::A => 9,
        BaseNote::B => 11,
    }
}

/// Semitones by which an accidental moves a note.
pub open spec fn accidental_delta(a: Option<Accidentals>) -> int {
    match a {
        Some(Accidentals::Sharp) => 1,
        Some(Accidentals::Flat) => -1,
        None => 0,
    }
}

/// Position of a note on the chromatic scale, counted in semitones from C0.
pub open spec fn semitone(n: Note) -> int {
    base_offset(n.note) + accidental_delta(n.accidentals) + 12 * n.octave
}

impl Note {
    /// E#, B#, Cb and Fb are redundant spellings of naturals and are never used.
    pub open spec fn is_legal(self) -> bool {
        !(((self.note == BaseNote::E || self.note == BaseNote::B) && self.accidentals
            == Some(Accidentals::Sharp)) || ((self.note == BaseNote::C || self.note
            == BaseNote::F) && self.accidentals == Some(Accidentals::Flat)))
    }
}

/// Semitones from C0 up to the note. Octaves above 9 would overflow the count.
pub fn semi_tone_count(note: &Note) -> (r: i8)
    requires
        note.octave <= 9,
    ensures
        r == semitone(*note),
{
    let mut count: i8 = match note.note {
        BaseNote::C => 0,
        BaseNote::D => 2,
        BaseNote::E => 4,
        BaseNote::F => 5,
        BaseNote::G => 7,
        BaseNote::A => 9,
        BaseNote::B => 11,
    };
    match note.accidentals {
        Some(Accidentals::Sharp) => count += 1,
        Some(Accidentals::Flat) => count -= 1,
        None => (),
    }
    count + (note.octave as i8) * 12
}


/// Letter and accidental, with a natural or a sharp, of the pitch class `pc`.
pub open spec fn sharp_name(pc: int) -> (BaseNote, Option<Accidentals>) {
    if pc == 0 {
        (BaseNote::C, None)
    } else if pc == 1 {
        (BaseNote::C, Some(Accidentals::Sharp))
    } else if pc == 2 {
        (BaseNote::D, None)
    } else if pc == 3 {
        (BaseNote::D, Some(Accidentals::Sharp))
    } else if pc == 4 {
        (BaseNote::E, None)
    } else if pc == 5 {
        (BaseNote::F, None)
    } else if pc == 6 {
        (BaseNote::F, Some(Accidentals::Sharp))
    } else if pc == 7 {
        (BaseNote::G, None)
    } else if pc == 8 {
        (BaseNote::G, Some(Accidentals::Sharp))
    } else if pc == 9 {
        (BaseNote::A, None)
    } else if pc == 10 {
        (BaseNote::A, Some(Accidentals::Sharp))
    } else {
        (BaseNote::B, None)
    }
}

/// The spelling with a natural or a sharp of the pitch `k` semitones above C0.
pub open spec fn sharp_spelling(k: int) -> Note {
    let (note, accidentals) = sharp_name(k % 12);
    Note { note, octave: (k / 12) as u8, accidentals }
}

/// Letter and accidental, with a natural or a flat, of the pitch class `pc`.
pub open spec fn flat_name(pc: int) -> (BaseNote, Option<Accidentals>) {
    if pc == 0 {
        (BaseNote::C, None)
    } else if pc == 1 {
        (BaseNote::D, Some(Accidentals::Flat))
    } else if pc == 2 {
        (BaseNote::D, None)
    } else if pc == 3 {
        (BaseNote::E, Some(Accidentals::Flat))
    } else if pc == 4 {
        (BaseNote::E, None)
    } else if pc == 5 {
        (BaseNote::F, None)
    } else if pc == 6 {
        (BaseNote::G, Some(Accidentals::Flat))
    } else if pc == 7 {
        (BaseNote::G, None)
    } else if pc == 8 {
        (BaseNote::A, Some(Accidentals::Flat))
    } else if pc == 9 {
        (BaseNote::A, None)
    } else if pc == 10 {
        (BaseNote::B, Some(Accidentals::Flat))
    } else {
        (BaseNote::B, None)
    }
}

/// The spelling with a natural or a flat of the pitch `k` semitones above C0.
pub open spec fn flat_spelling(k: int) -> Note {
    let (note, accidentals) = flat_name(k % 12);
    Note { note, octave: (k / 12) as u8, accidentals }
}

/// Highest pitch a note can spell: B in the largest octave.
pub open spec fn max_semitone() -> int {
    12 * 255 + 11int
}

proof fn lemma_split_semitone(p: int, octave: int)
    requires
        0 <= p < 12,
        0 <= octave,
    ensures
        (p + 12 * octave) % 12 == p,
        (p + 12 * octave) / 12 == octave,
{
    vstd::arithmetic::div_mod::lemma_fundamental_div_mod_converse(p + 12 * octave, 12, octave, p);
}

/// A legal note sits within its octave: 0 to 11 semitones above that octave's C.
pub proof fn lemma_legal_offset(n: Note)
    requires
        n.is_legal(),
    ensures
        0 <= base_offset(n.note) + accidental_delta(n.accidentals) < 12,
        semitone(n) % 12 == base_offset(n.note) + accidental_delta(n.accidentals),
        semitone(n) / 12 == n.octave,
{
    lemma_split_semitone(base_offset(n.note) + accidental_delta(n.accidentals), n.octave as int);
}

/// Both spellings of a pitch are legal and sit at that pitch.
pub proof fn lemma_spellings(k: int)
    requires
        0 <= k <= max_semitone(),
    ensures
        sharp_spelling(k).is_legal(),
        flat_spelling(k).is_legal(),
        semitone(sharp_spelling(k)) == k,
        semitone(flat_spelling(k)) == k,
        sharp_spelling(k).accidentals != Some(Accidentals::Flat),
        flat_spelling(k).accidentals != Some(Accidentals::Sharp),
{
    vstd::arithmetic::div_mod::lemma_fundamental_div_mod(k, 12);
    assert(0 <= k / 12 <= 255) by {
        vstd::arithmetic::div_mod::lemma_div_is_ordered(k, max_semitone(), 12);
        vstd::arithmetic::div_mod::lemma_div_pos_is_pos(k, 12);
        assert(max_semitone() / 12 == 255) by {
            lemma_split_semitone(11, 255);
        }
    }
}

/// A legal note without a flat is the sharp spelling of its own pitch, and a
/// legal note without a sharp is its flat spelling.
pub proof fn lemma_spelling_of_note(n: Note)
    requires
        n.is_legal(),
    ensures
        n.accidentals != Some(Accidentals::Flat) ==> sharp_spelling(semitone(n)) == n,
        n.accidentals != Some(Accidentals::Sharp) ==> flat_spelling(semitone(n)) == n,
{
    lemma_legal_offset(n);
}

fn next_base_note(base_note: &BaseNote) -> (r: BaseNote)
    ensures
        r == match *base_note {
            BaseNote::A => BaseNote::B,
            BaseNote::B => BaseNote::C,
            BaseNote::C => BaseNote::D,
            BaseNote::D => BaseNote::E,
            BaseNote::E => BaseNote::F,
            BaseNote::F => BaseNote::G,
            BaseNote::G => BaseNote::A,
        },
{
    match base_note {
        BaseNote::A => BaseNote::B,
        BaseNote::B => BaseNote::C,
        BaseNote::C => BaseNote::D,
        BaseNote::D => BaseNote::E,
        BaseNote::E => BaseNote::F,
        BaseNote::F => BaseNote::G,
        BaseNote::G => BaseNote::A,
    }
}

fn prev_base_note(base_note: &BaseNote) -> (r: BaseNote)
    ensures
        r == match *base_note {
            BaseNote::A => BaseNote::G,
            BaseNote::B => BaseNote::A,
            BaseNote::C => BaseNote::B,
            BaseNote::D => BaseNote::C,
            BaseNote::E => BaseNote::D,
            BaseNote::F => BaseNote::E,
            BaseNote::G => BaseNote::F,
        },
{
    match base_note {
        BaseNote::A => BaseNote::G,
        BaseNote::B => BaseNote::A,
        BaseNote::C => BaseNote::B,
        BaseNote::D => BaseNote::C,
        BaseNote::E => BaseNote::D,
        BaseNote::F => BaseNote::E,
        BaseNote::G => BaseNote::F,
    }
}

/// The note one semitone higher, spelled with a natural or a sharp.
pub fn semi_tone_up(note: &Note) -> (r: Note)
    requires
        note.is_legal(),
        semitone(*note) + 1 <= max_semitone(),
    ensures
        r == sharp_spelling(semitone(*note) + 1),
        r.is_legal(),
{
    proof {
        lemma_legal_offset(*note);
        lemma_spellings(semitone(*note) + 1);
        let k = semitone(*note) + 1;
        let p = base_offset(note.note) + accidental_delta(note.accidentals) + 1;
        if p == 12 {
            lemma_split_semitone(0, note.octave + 1);
        } else {
            lemma_split_semitone(p, note.octave as int);
        }
    }
    match note.accidentals {
        None => match note.note {
            BaseNote::E => Note { note: BaseNote::F, accidentals: None, octave: note.octave },
            BaseNote::B => Note { note: BaseNote::C, accidentals: None, octave: note.octave + 1 },
            _ => Note { accidentals: Some(Accidentals::Sharp), ..*note },
        },
        Some(Accidentals::Sharp) => {
            let new_base_note = next_base_note(&note.note);
            let new_octave = if note.note == BaseNote::B {
                note.octave + 1
            } else {
                note.octave
            };
            Note { note: new_base_note, octave: new_octave, accidentals: None }
        },
        Some(Accidentals::Flat) => Note { accidentals: None, ..*note },
    }
}

/// The note one semitone lower, spelled with a natural or a flat.
pub fn semi_tone_down(note: &Note) -> (r: Note)
    requires
        note.is_legal(),
        semitone(*note) >= 1,
    ensures
        r == flat_spelling(semitone(*note) - 1),
        r.is_legal(),
{
    proof {
        lemma_legal_offset(*note);
        lemma_spellings(semitone(*note) - 1);
        let p = base_offset(note.note) + accidental_delta(note.accidentals) - 1;
        if p == -1 {
            lemma_split_semitone(11, note.octave - 1);
        } else {
            lemma_split_semitone(p, note.octave as int);
        }
    }
    match note.accidentals {
        None => match note.note {
            BaseNote::F => Note { note: BaseNote::E, accidentals: None, octave: note.octave },
            BaseNote::C => Note { note: BaseNote::B, accidentals: None, octave: note.octave - 1 },
            _ => Note { accidentals: Some(Accidentals::Flat), ..*note },
        },
        Some(Accidentals::Flat) => {
            let new_base_note = prev_base_note(&note.note);
            let new_octave = if note.note == BaseNote::C {
                note.octave - 1
            } else {
                note.octave
            };
            Note { note: new_base_note, octave: new_octave, accidentals: None }
        },
        Some(Accidentals::Sharp) => Note { accidentals: None, ..*note },
    }
}


/// Stepping down a semitone and back up gives back a note spelled with a
/// natural or a sharp; stepping up and back down gives back a note spelled with
/// a natural or a flat.
pub proof fn lemma_semitone_round_trips(n: Note)
    requires
        n.is_legal(),
    ensures
        n.accidentals != Some(Accidentals::Flat) && semitone(n) >= 1 ==> sharp_spelling(
            semitone(flat_spelling(semitone(n) - 1)) + 1,
        ) == n,
        n.accidentals != Some(Accidentals::Sharp) && semitone(n) + 1 <= max_semitone()
            ==> flat_spelling(semitone(sharp_spelling(semitone(n) + 1)) - 1) == n,
{
    lemma_legal_offset(n);
    lemma_spelling_of_note(n);
    if semitone(n) >= 1 {
        lemma_spellings(semitone(n) - 1);
    }
    if semitone(n) + 1 <= max_semitone() {
        lemma_spellings(semitone(n) + 1);
    }
}

/// Why a text is not a note.
#[derive(Copy, Clone, Debug, PartialEq, Eq, Structural)]
pub enum NoteError {
    /// Not a letter A to G, an optional `#` or `b`, and one ASCII digit.
    Malformed,
    /// One of the spellings E#, B#, Cb, Fb.
    Disallowed,
}

pub open spec fn letter_of(c: char) -> Option<BaseNote> {
    if c == 'A' {
        Some(BaseNote::A)
    } else if c == 'B' {
        Some(BaseNote::B)
    } else if c == 'C' {
        Some(BaseNote::C)
    } else if c == 'D' {
        Some(BaseNote::D)
    } else if c == 'E' {
        Some(BaseNote::E)
    } else if c == 'F' {
        Some(BaseNote::F)
    } else if c == 'G' {
        Some(BaseNote::G)
    } else {
        None
    }
}

pub open spec fn accidental_of(c: char) -> Option<Accidentals> {
    if c == '#' {
        Some(Accidentals::Sharp)
    } else if c == 'b' {
        Some(Accidentals::Flat)
    } else {
        None
    }
}

pub open spec fn is_ascii_digit(c: char) -> bool {
    '0' <= c <= '9'
}

pub open spec fn digit_value(c: char) -> u8 {
    (c as u32 - '0' as u32) as u8
}

/// The note that a text spells: a letter, an optional `#` or `b`, and an
/// octave digit, as in `A4`, `C#3` or `Bb2`.
pub open spec fn spec_parse(s: Seq<char>) -> Result<Note, NoteError> {
    if s.len() == 2 && letter_of(s[0]) is Some && is_ascii_digit(s[1]) {
        Ok(Note { note: letter_of(s[0])->0, octave: digit_value(s[1]), accidentals: None })
    } else if s.len() == 3 && letter_of(s[0]) is Some && accidental_of(s[1]) is Some
        && is_ascii_digit(s[2]) {
        let n = Note {
            note: letter_of(s[0])->0,
            octave: digit_value(s[2]),
            accidentals: Some(accidental_of(s[1])->0),
        };
        if n.is_legal() {
            Ok(n)
        } else {
            Err(NoteError::Disallowed)
        }
    } else {
        Err(NoteError::Malformed)
    }
}

/// Relies on regex::Regex::captures with the pattern `^([ABCDEFG])([#b]?)(\d)$`:
/// a match is the whole text, made of a letter, an optional `#` or `b`, and one
/// character of Unicode class Nd, which takes in every ASCII digit.
#[verifier::external_body]
fn match_spelling(s: &str) -> (r: Option<(char, Option<char>, char)>)
    ensures
        match r {
            Some((l, a, d)) => letter_of(l) is Some && match a {
                Some(x) => accidental_of(x) is Some && s@ == seq![l, x, d],
                None => s@ == seq![l, d],
            },
            None => !(s@.len() == 2 && letter_of(s@[0]) is Some && is_ascii_digit(s@[1]))
                && !(s@.len() == 3 && letter_of(s@[0]) is Some && accidental_of(s@[1]) is Some
                && is_ascii_digit(s@[2])),
        },
{
    let re = regex::Regex::new(r"^([ABCDEFG])([#b]?)(\d)$").unwrap();
    let caps = re.captures(s)?;
    let letter = caps[1].chars().next().unwrap();
    let accidental = caps[2].chars().next();
    let digit = caps[3].chars().next().unwrap();
    Some((letter, accidental, digit))
}

fn letter_from_char(c: char) -> (r: Option<BaseNote>)
    ensures
        r == letter_of(c),
{
    if c == 'A' {
        Some(BaseNote::A)
    } else if c == 'B' {
        Some(BaseNote::B)
    } else if c == 'C' {
        Some(BaseNote::C)
    } else if c == 'D' {
        Some(BaseNote::D)
    } else if c == 'E' {
        Some(BaseNote::E)
    } else if c == 'F' {
        Some(BaseNote::F)
    } else if c == 'G' {
        Some(BaseNote::G)
    } else {
        None
    }
}

fn accidental_from_char(c: char) -> (r: Option<Accidentals>)
    ensures
        r == accidental_of(c),
{
    if c == '#' {
        Some(Accidentals::Sharp)
    } else if c == 'b' {
        Some(Accidentals::Flat)
    } else {
        None
    }
}

fn is_disallowed(note: BaseNote, accidentals: Option<Accidentals>) -> (r: bool)
    ensures
        r == !(Note { note, octave: 0, accidentals }).is_legal(),
{
    match (note, accidentals) {
        (BaseNote::E, Some(Accidentals::Sharp)) => true,
        (BaseNote::B, Some(Accidentals::Sharp)) => true,
        (BaseNote::C, Some(Accidentals::Flat)) => true,
        (BaseNote::F, Some(Accidentals::Flat)) => true,
        _ => false,
    }
}

impl Note {
    /// The natural note of a letter in an octave.
    pub open spec fn spec_named(note: BaseNote, octave: u8) -> Note {
        Note { note, octave, accidentals: None }
    }

    /// The natural note of a letter in an octave.
    pub fn natural(note: BaseNote, octave: u8) -> (r: Note)
        ensures
            r == Note::spec_named(note, octave),
            r.is_legal(),
    {
        Note { note, octave, accidentals: None }
    }

    /// Reads a note from its spelling, refusing malformed texts and the four
    /// disallowed spellings.
    pub fn parse(s: &str) -> (r: Result<Note, NoteError>)
        ensures
            r == spec_parse(s@),
            r matches Ok(n) ==> n.is_legal() && n.octave <= 9,
    {
        let (l, a, d) = match match_spelling(s) {
            Some(parts) => parts,
            None => return Err(NoteError::Malformed),
        };
        if !('0' <= d && d <= '9') {
            return Err(NoteError::Malformed);
        }
        let octave = (d as u32 - '0' as u32) as u8;
        let note = match letter_from_char(l) {
            Some(b) => b,
            None => return Err(NoteError::Malformed),
        };
        let accidentals = match a {
            Some(x) => match accidental_from_char(x) {
                Some(acc) => Some(acc),
                None => return Err(NoteError::Malformed),
            },
            None => None,
        };
        if is_disallowed(note, accidentals) {
            return Err(NoteError::Disallowed);
        }
        Ok(Note { note, octave, accidentals })
    }

    /// The note that a legal spelling names.
    pub fn new(string_representation: &str) -> (r: Note)
        requires
            spec_parse(string_representation@) is Ok,
        ensures
            spec_parse(string_representation@) == Ok::<Note, NoteError>(r),
            r.is_legal(),
            r.octave <= 9,
    {
        Note::parse(string_representation).unwrap()
    }
}

/// Decimal digits of `n`, most significant first.
pub open spec fn decimal(n: nat) -> Seq<char>
    decreases n,
{
    if n < 10 {
        seq![(n + '0' as nat) as char]
    } else {
        decimal(n / 10).push(((n % 10) + '0' as nat) as char)
    }
}

pub open spec fn letter_text(b: BaseNote) -> char {
    match b {
        BaseNote::A => 'A',
        BaseNote::B => 'B',
        BaseNote::C => 'C',
        BaseNote::D => 'D',
        BaseNote::E => 'E',
        BaseNote::F => 'F',
        BaseNote::G => 'G',
    }
}

pub open spec fn accidental_text(a: Option<Accidentals>) -> Seq<char> {
    match a {
        Some(Accidentals::Sharp) => seq!['♯'],
        Some(Accidentals::Flat) => seq!['♭'],
        None => seq![],
    }
}

/// How a note is shown: letter, accidental sign, and the octave in brackets,
/// as in `A♯(4)`.
pub open spec fn note_text(n: Note) -> Seq<char> {
    seq![letter_text(n.note)] + accidental_text(n.accidentals) + seq!['('] + decimal(
        n.octave as nat,
    ) + seq![')']
}

/// Relies on String::push: appends one character to the end of the string.
#[verifier::external_body]
fn push_char(s: &mut String, c: char)
    ensures
        final(s)@ == old(s)@.push(c),
{
    s.push(c);
}

fn digit_char(d: u8) -> (r: char)
    requires
        d < 10,
    ensures
        r == (d + '0' as nat) as char,
{
    if d == 0 {
        '0'
    } else if d == 1 {
        '1'
    } else if d == 2 {
        '2'
    } else if d == 3 {
        '3'
    } else if d == 4 {
        '4'
    } else if d == 5 {
        '5'
    } else if d == 6 {
        '6'
    } else if d == 7 {
        '7'
    } else if d == 8 {
        '8'
    } else {
        '9'
    }
}

impl Note {
    /// The note as shown to the user, as in `A♯(4)`.
    pub fn to_string(&self) -> (r: String)
        ensures
            r@ == note_text(*self),
    {
        let mut text = String::new();
        let letter = match self.note {
            BaseNote::A => 'A',
            BaseNote::B => 'B',
            BaseNote::C => 'C',
            BaseNote::D => 'D',
            BaseNote::E => 'E',
            BaseNote::F => 'F',
            BaseNote::G => 'G',
        };
        push_char(&mut text, letter);
        match self.accidentals {
            Some(Accidentals::Sharp) => push_char(&mut text, '♯'),
            Some(Accidentals::Flat) => push_char(&mut text, '♭'),
            None => {},
        }
        push_char(&mut text, '(');
        let o = self.octave;
        if o >= 100 {
            push_char(&mut text, digit_char(o / 100));
        }
        if o >= 10 {
            push_char(&mut text, digit_char((o / 10) % 10));
        }
        push_char(&mut text, digit_char(o % 10));
        push_char(&mut text, ')');
        proof {
            let n = o as nat;
            if n >= 100 {
                assert(decimal(n / 10 / 10) == seq![((n / 100) + '0' as nat) as char]);
                assert(decimal(n / 10) == decimal(n / 10 / 10).push((((n / 10) % 10) + '0' as nat) as char));
            } else if n >= 10 {
                assert(decimal(n / 10) == seq![((n / 10 % 10) + '0' as nat) as char]);
            }
            assert(text@ =~= note_text(*self));
        }
        text
    }
}

} // verus!
