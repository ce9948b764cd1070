use vstd::prelude::*;

verus! {

/// The list of strings of the tuning, drawn from a `tuning_notes::State`.
#[derive(Clone, Copy, Debug)]
pub struct TuningNotes();

impl TuningNotes {
    pub fn new() -> Self {
        TuningNotes()
    }
}

/// The headstock, with the peg of the string being heard marked.
#[derive(Clone, Copy, Debug)]
pub struct TuningPegs();

impl TuningPegs {
    pub fn new() -> Self {
        TuningPegs()
    }
}

/// The bar that shows how far the heard pitch is from the note.
#[derive(Clone, Copy, Debug)]
pub struct TuningBar {}

impl TuningBar {
    pub fn new() -> Self {
        TuningBar {}
    }
}

/// The key bindings.
#[derive(Clone, Copy, Debug)]
pub struct Instruction {}

impl Instruction {
    pub fn new() -> Self {
        Instruction {}
    }
}

/// Shown in place of everything else when the terminal is too small.
#[derive(Clone, Copy, Debug)]
pub struct InsufficientSizeNotice;

impl InsufficientSizeNotice {
    pub fn new() -> Self {
        InsufficientSizeNotice
    }
}

/// The plot of the latest samples.
#[derive(Clone, Copy, Debug)]
pub struct AudioGraph();

impl AudioGraph {
    pub fn new() -> Self {
        AudioGraph()
    }
}

/// Frames of the spinner, each shown for `SPINNING_SPEED` frames.
pub open spec fn spinner_frame(i: int) -> char {
    if i == 0 {
        '⣷'
    } else if i == 1 {
        '⣯'
    } else if i == 2 {
        '⣟'
    } else if i == 3 {
        '⡿'
    } else if i == 4 {
        '⢿'
    } else if i == 5 {
        '⣻'
    } else if i == 6 {
        '⣽'
    } else {
        '⣾'
    }
}

/// Frames each spinner character stays on screen; higher is slower.
pub const SPINNING_SPEED: usize = 4;

/// A spinner character that turns as frames are drawn.
#[derive(Clone, Copy, Debug)]
pub struct LoadingIcon {
    pub char: char,
}

impl LoadingIcon {
    /// The spinner as it stands at the given frame of the render loop.
    pub fn new(frame_count: usize) -> (r: Self)
        ensures
            r.char == spinner_frame((frame_count as int % (8 * SPINNING_SPEED as int)) / SPINNING_SPEED as int),
    {
        let step = frame_count % (8 * SPINNING_SPEED) / SPINNING_SPEED;
        let char = if step == 0 {
            '⣷'
        } else if step == 1 {
            '⣯'
        } else if step == 2 {
            '⣟'
        } else if step == 3 {
            '⡿'
        } else if step == 4 {
            '⢿'
        } else if step == 5 {
            '⣻'
        } else if step == 6 {
            '⣽'
        } else {
            '⣾'
        };
        LoadingIcon { char }
    }
}

} // verus!
