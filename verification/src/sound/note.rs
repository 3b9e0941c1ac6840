//! Notes: a pitch held for a number of milliseconds.

use vstd::prelude::*;

verus! {

/// The pitches the songs use, by name; `Rest` is silence.
#[derive(Debug, Clone, Copy, PartialEq, Eq, Structural)]
pub enum Pitch {
    Rest,
    D4,
    E4,
    Fs4,
    G4,
    Gs4,
    A4,
    Bb4,
    B4,
    C5,
    Cs5,
    D5,
    Ds5,
    Eb5,
    E5,
    F5,
    Gb5,
    G5,
    A5,
    C6,
}

/// The written length of a note.
#[derive(Debug, Clone, Copy, PartialEq, Eq, Structural)]
pub enum NoteTempo {
    Whole,
    Half,
    Quarter,
    Eighth,
    Sixteenth,
    Thirty2nd,
}

/// How a written note is played: as written, dotted (half as long again),
/// or as a triplet (three notes sharing its length).
#[derive(Debug, Clone, Copy, PartialEq, Eq, Structural)]
pub enum NoteType {
    Base,
    Dotted,
    Triplet,
}

/// A pitch and its duration in milliseconds.
#[derive(Debug, Clone, Copy, PartialEq, Eq, Structural)]
pub struct Note {
    pub pitch: Pitch,
    pub duration: usize,
}

impl Note {
    pub fn new(pitch: Pitch, duration: usize) -> (res: Self)
        ensures
            res == (Note { pitch, duration }),
    {
        Note { pitch, duration }
    }
}

} // verus!
