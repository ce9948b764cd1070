use vstd::prelude::*;

use crate::guitar::{max_semitone, semi_tone_down, semi_tone_up, semitone, BaseNote, Note};
use crate::guitar::{flat_spelling, sharp_spelling};

verus! {

/// The list of strings to tune: which string is selected for retuning, which
/// note is being heard, and which strings were found in tune.
#[derive(Clone, Debug)]
pub struct State {
    pub notes: Vec<Note>,
    pub tuned_notes: Vec<Note>,
    pub selected_note_index: Option<usize>,
    pub detecting_note: Option<Note>,
}

impl State {
    pub open spec fn wf(&self) -> bool {
        &&& self.notes@.len() > 0
        &&& forall|i: int| 0 <= i < self.notes@.len() ==> (#[trigger] self.notes@[i]).is_legal()
        &&& self.selected_note_index matches Some(i) ==> i < self.notes@.len()
    }

    /// Standard guitar tuning, from the highest string to the lowest, with
    /// nothing selected, heard or tuned yet.
    pub fn standard() -> (r: State)
        ensures
            r.wf(),
            r.notes@ == seq![
                Note::spec_named(BaseNote::E, 4),
                Note::spec_named(BaseNote::B, 3),
                Note::spec_named(BaseNote::G, 3),
                Note::spec_named(BaseNote::D, 3),
                Note::spec_named(BaseNote::A, 2),
                Note::spec_named(BaseNote::E, 2),
            ],
            r.tuned_notes@.len() == 0,
            r.selected_note_index is None,
            r.detecting_note is None,
    {
        let notes = vec![
            Note::natural(BaseNote::E, 4),
            Note::natural(BaseNote::B, 3),
            Note::natural(BaseNote::G, 3),
            Note::natural(BaseNote::D, 3),
            Note::natural(BaseNote::A, 2),
            Note::natural(BaseNote::E, 2),
        ];
        State { notes, tuned_notes: Vec::new(), selected_note_index: None, detecting_note: None }
    }

    /// Raises the selected string by a semitone.
    pub fn next_note(&mut self)
        requires
            old(self).wf(),
            old(self).selected_note_index matches Some(i) ==> semitone(old(self).notes@[i as int])
                + 1 <= max_semitone(),
        ensures
            final(self).wf(),
            final(self).selected_note_index == old(self).selected_note_index,
            final(self).tuned_notes == old(self).tuned_notes,
            final(self).detecting_note == old(self).detecting_note,
            final(self).notes@ == match old(self).selected_note_index {
                Some(i) => old(self).notes@.update(
                    i as int,
                    sharp_spelling(semitone(old(self).notes@[i as int]) + 1),
                ),
                None => old(self).notes@,
            },
    {
        if let Some(index) = self.selected_note_index {
            let up = semi_tone_up(&self.notes[index]);
            self.notes.set(index, up);
            assert forall|i: int| 0 <= i < self.notes@.len() implies (#[trigger] self.notes@[i]).is_legal() by {
                if i != index {
                    assert(self.notes@[i] == old(self).notes@[i]);
                }
            }
        }
    }

    /// Lowers the selected string by a semitone.
    pub fn prev_note(&mut self)
        requires
            old(self).wf(),
            old(self).selected_note_index matches Some(i) ==> semitone(old(self).notes@[i as int])
                >= 1,
        ensures
            final(self).wf(),
            final(self).selected_note_index == old(self).selected_note_index,
            final(self).tuned_notes == old(self).tuned_notes,
            final(self).detecting_note == old(self).detecting_note,
            final(self).notes@ == match old(self).selected_note_index {
                Some(i) => old(self).notes@.update(
                    i as int,
                    flat_spelling(semitone(old(self).notes@[i as int]) - 1),
                ),
                None => old(self).notes@,
            },
    {
        if let Some(index) = self.selected_note_index {
            let down = semi_tone_down(&self.notes[index]);
            self.notes.set(index, down);
            assert forall|i: int| 0 <= i < self.notes@.len() implies (#[trigger] self.notes@[i]).is_legal() by {
                if i != index {
                    assert(self.notes@[i] == old(self).notes@[i]);
                }
            }
        }
    }

    /// Selects the next string down the list, wrapping round to the first;
    /// selects the first where none was selected.
    pub fn next_string(&mut self)
        requires
            old(self).wf(),
        ensures
            final(self).wf(),
            final(self).notes == old(self).notes,
            final(self).tuned_notes == old(self).tuned_notes,
            final(self).detecting_note == old(self).detecting_note,
            final(self).selected_note_index == Some(
                match old(self).selected_note_index {
                    Some(i) => ((i + 1) % old(self).notes@.len() as int) as usize,
                    None => 0usize,
                },
            ),
    {
        let len = self.notes.len();
        let new_selected_index = match self.selected_note_index {
            Some(current_index) => (current_index + 1) % len,
            None => 0,
        };
        self.selected_note_index = Some(new_selected_index);
    }

    /// Selects the previous string up the list, wrapping round to the last;
    /// selects the last where none was selected.
    pub fn prev_string(&mut self)
        requires
            old(self).wf(),
        ensures
            final(self).wf(),
            final(self).notes == old(self).notes,
            final(self).tuned_notes == old(self).tuned_notes,
            final(self).detecting_note == old(self).detecting_note,
            final(self).selected_note_index == Some(
                match old(self).selected_note_index {
                    Some(i) => ((i + old(self).notes@.len() - 1) % old(self).notes@.len() as int) as usize,
                    None => (old(self).notes@.len() - 1) as usize,
                },
            ),
    {
        let len = self.notes.len();
        proof {
            if let Some(i) = self.selected_note_index {
                if i == 0 {
                    vstd::arithmetic::div_mod::lemma_fundamental_div_mod_converse(
                        len - 1,
                        len as int,
                        0,
                        len - 1,
                    );
                } else {
                    vstd::arithmetic::div_mod::lemma_fundamental_div_mod_converse(
                        i + len - 1,
                        len as int,
                        1,
                        i - 1,
                    );
                }
            }
        }
        let new_selected_index = match self.selected_note_index {
            Some(current_index) => {
                if current_index == 0 {
                    len - 1
                } else {
                    current_index - 1
                }
            },
            None => len - 1,
        };
        self.selected_note_index = Some(new_selected_index);
    }

    /// Whether `note` is one of the strings of the tuning.
    pub fn has_note(&self, note: &Note) -> (r: bool)
        ensures
            r == self.notes@.contains(*note),
    {
        let mut i: usize = 0;
        while i < self.notes.len()
            invariant
                i <= self.notes@.len(),
                forall|j: int| 0 <= j < i ==> self.notes@[j] != *note,
            decreases self.notes.len() - i,
        {
            if self.notes[i] == *note {
                return true;
            }
            i += 1;
        }
        false
    }

    /// Records that `note` was heard in tune; each note is recorded once.
    pub fn mark_tuned(&mut self, note: &Note)
        ensures
            final(self).notes == old(self).notes,
            final(self).selected_note_index == old(self).selected_note_index,
            final(self).detecting_note == old(self).detecting_note,
            final(self).tuned_notes@.to_set() == old(self).tuned_notes@.to_set().insert(*note),
            old(self).tuned_notes@.no_duplicates() ==> final(self).tuned_notes@.no_duplicates(),
    {
        proof {
            if !old(self).tuned_notes@.contains(*note) {
                old(self).tuned_notes@.lemma_push_to_set_commute(*note);
            }
        }
        let mut i: usize = 0;
        while i < self.tuned_notes.len()
            invariant
                i <= self.tuned_notes@.len(),
                forall|j: int| 0 <= j < i ==> self.tuned_notes@[j] != *note,
            decreases self.tuned_notes.len() - i,
        {
            if self.tuned_notes[i] == *note {
                assert(self.tuned_notes@.to_set() =~= self.tuned_notes@.to_set().insert(*note));
                return;
            }
            i += 1;
        }
        self.tuned_notes.push(*note);
        proof {
            if old(self).tuned_notes@.no_duplicates() {
                assert forall|a: int, b: int|
                    0 <= a < b < self.tuned_notes@.len() implies self.tuned_notes@[a]
                    != self.tuned_notes@[b] by {
                    if b < old(self).tuned_notes@.len() {
                        assert(old(self).tuned_notes@[a] != old(self).tuned_notes@[b]);
                    }
                }
            }
        }
    }
}

/// Index of the string whose note is being heard, if any.
pub fn current_peg_index(state: &State) -> (r: Option<usize>)
    requires
        state.detecting_note matches Some(n) ==> state.notes@.contains(n),
    ensures
        match state.detecting_note {
            Some(n) => {
                &&& r is Some
                &&& r->0 < state.notes@.len()
                &&& state.notes@[r->0 as int] == n
                &&& forall|j: int| 0 <= j < r->0 ==> state.notes@[j] != n
            },
            None => r is None,
        },
{
    match state.detecting_note {
        Some(note) => {
            let mut i: usize = 0;
            while i < state.notes.len()
                invariant
                    i <= state.notes@.len(),
                    state.detecting_note == Some(note),
                    state.notes@.contains(note),
                    forall|j: int| 0 <= j < i ==> state.notes@[j] != note,
                decreases state.notes.len() - i,
            {
                if state.notes[i] == note {
                    return Some(i);
                }
                i += 1;
            }
            None
        },
        None => None,
    }
}

} // verus!
