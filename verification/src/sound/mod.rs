//! Songs for the PC speaker: a tempo and the notes to play in turn.

use vstd::prelude::*;

pub mod mii;
pub mod note;
pub mod overworld;

use crate::sound::note::{Note, NoteTempo, NoteType, Pitch};

verus! {

/// The note that gets one beat.
#[derive(Debug, Clone, Copy, PartialEq, Eq, Structural)]
pub enum BeatType {
    Whole,
    Half,
    Quarter,
    Eighth,
    Sixteenth,
    Thirty2nd,
}

/// The number of beats in a whole note.
pub open spec fn beats(b: BeatType) -> nat {
    match b {
        BeatType::Whole => 1,
        BeatType::Half => 2,
        BeatType::Quarter => 4,
        BeatType::Eighth => 8,
        BeatType::Sixteenth => 16,
        BeatType::Thirty2nd => 32,
    }
}

impl BeatType {
    /// The number of beats in a whole note.
    pub fn number(self) -> (res: usize)
        ensures
            res == beats(self),
    {
        match self {
            BeatType::Whole => 1,
            BeatType::Half => 2,
            BeatType::Quarter => 4,
            BeatType::Eighth => 8,
            BeatType::Sixteenth => 16,
            BeatType::Thirty2nd => 32,
        }
    }
}

/// A song: its tempo, the duration of each written length, and its notes.
pub struct Partition {
    pub bpm: usize,
    pub whole_note_duration: usize,
    pub half_note_duration: usize,
    pub quarter_note_duration: usize,
    pub eigth_note_duration: usize,
    pub sixteenth_note_duration: usize,
    pub thirty2nd_note_duration: usize,
    pub notes: Vec<Note>,
}

/// The notes that a written note of `duration` milliseconds plays as.
pub open spec fn played(pitch: Pitch, duration: usize, note_type: NoteType) -> Seq<Note> {
    match note_type {
        NoteType::Base => seq![Note { pitch, duration }],
        NoteType::Dotted => seq![Note { pitch, duration: (duration * 3 / 2) as usize }],
        NoteType::Triplet => {
            let third = Note { pitch, duration: duration / 3 };
            seq![third, third, third]
        },
    }
}

impl Partition {
    /// The durations follow from the whole note's, which a tempo of at
    /// least one beat a minute bounds.
    pub open spec fn wf(&self) -> bool {
        &&& self.whole_note_duration <= 1_920_000
        &&& self.half_note_duration == self.whole_note_duration / 2
        &&& self.quarter_note_duration == self.whole_note_duration / 4
        &&& self.eigth_note_duration == self.whole_note_duration / 8
        &&& self.sixteenth_note_duration == self.whole_note_duration / 16
        &&& self.thirty2nd_note_duration == self.whole_note_duration / 32
    }

    /// The duration of a written note of length `tempo`.
    pub open spec fn length_of(&self, tempo: NoteTempo) -> usize {
        match tempo {
            NoteTempo::Whole => self.whole_note_duration,
            NoteTempo::Half => self.half_note_duration,
            NoteTempo::Quarter => self.quarter_note_duration,
            NoteTempo::Eighth => self.eigth_note_duration,
            NoteTempo::Sixteenth => self.sixteenth_note_duration,
            NoteTempo::Thirty2nd => self.thirty2nd_note_duration,
        }
    }

    /// `other` has the tempo and durations of this song.
    pub open spec fn same_tempo(&self, other: Self) -> bool {
        &&& other.bpm == self.bpm
        &&& other.whole_note_duration == self.whole_note_duration
        &&& other.half_note_duration == self.half_note_duration
        &&& other.quarter_note_duration == self.quarter_note_duration
        &&& other.eigth_note_duration == self.eigth_note_duration
        &&& other.sixteenth_note_duration == self.sixteenth_note_duration
        &&& other.thirty2nd_note_duration == self.thirty2nd_note_duration
    }

    /// An empty song at `bpm` beats a minute, `beat_type` getting one beat:
    /// a whole note lasts 60000 / `bpm` ms per beat.
    pub fn new(bpm: usize, beat_type: BeatType) -> (res: Self)
        requires
            bpm > 0,
        ensures
            res.wf(),
            res.bpm == bpm,
            res.whole_note_duration == (60000nat / bpm as nat) * beats(beat_type),
            res.notes@.len() == 0,
    {
        let per_beat: usize = 60000 / bpm;
        assert(per_beat * beats(beat_type) <= 1_920_000) by (nonlinear_arith)
            requires
                per_beat <= 60000,
                beats(beat_type) <= 32,
        ;
        let whole_note: usize = per_beat * beat_type.number();
        Partition {
            bpm: bpm,
            whole_note_duration: whole_note,
            half_note_duration: whole_note / 2,
            quarter_note_duration: whole_note / 4,
            eigth_note_duration: whole_note / 8,
            sixteenth_note_duration: whole_note / 16,
            thirty2nd_note_duration: whole_note / 32,
            notes: Vec::new(),
        }
    }

    /// The duration of a written note of length `note_tempo`.
    fn duration(&self, note_tempo: NoteTempo) -> (res: usize)
        ensures
            res == self.length_of(note_tempo),
    {
        match note_tempo {
            NoteTempo::Whole => self.whole_note_duration,
            NoteTempo::Half => self.half_note_duration,
            NoteTempo::Quarter => self.quarter_note_duration,
            NoteTempo::Eighth => self.eigth_note_duration,
            NoteTempo::Sixteenth => self.sixteenth_note_duration,
            NoteTempo::Thirty2nd => self.thirty2nd_note_duration,
        }
    }

    /// Adds a written note of `pitch`: one note as written, one half as
    /// long again when dotted, three of a third of its length as a
    /// triplet. Returns the song, to add more.
    pub fn add_note(&mut self, pitch: Pitch, note_tempo: NoteTempo, note_type: NoteType) -> (res:
        &mut Self)
        requires
            old(self).wf(),
        ensures
            old(self).same_tempo(*res),
            res.notes@ == old(self).notes@ + played(pitch, old(self).length_of(note_tempo), note_type),
            *final(self) == *final(res),
    {
        let duration = self.duration(note_tempo);
        match note_type {
            NoteType::Base => self.notes.push(Note::new(pitch, duration)),
            NoteType::Dotted => self.notes.push(Note::new(pitch, duration * 3 / 2)),
            NoteType::Triplet => {
                self.notes.push(Note::new(pitch, duration / 3));
                self.notes.push(Note::new(pitch, duration / 3));
                self.notes.push(Note::new(pitch, duration / 3));
            },
        }
        self
    }

    /// Adds a triplet of three pitches sharing a written note of length
    /// `note_tempo`.
    pub fn add_triplet(&mut self, frequencies: (Pitch, Pitch, Pitch), note_tempo: NoteTempo)
        requires
            old(self).wf(),
        ensures
            old(self).same_tempo(*final(self)),
            final(self).notes@ == old(self).notes@ + seq![
                Note { pitch: frequencies.0, duration: old(self).length_of(note_tempo) / 3 },
                Note { pitch: frequencies.1, duration: old(self).length_of(note_tempo) / 3 },
                Note { pitch: frequencies.2, duration: old(self).length_of(note_tempo) / 3 },
            ],
    {
        let duration = self.duration(note_tempo);
        self.notes.push(Note::new(frequencies.0, duration / 3));
        self.notes.push(Note::new(frequencies.1, duration / 3));
        self.notes.push(Note::new(frequencies.2, duration / 3));
    }

    /// Adds `pitch` for a `div`-th of a written note of length
    /// `note_tempo`.
    pub fn add_irregular_note(&mut self, frequency: Pitch, note_tempo: NoteTempo, div: usize)
        requires
            old(self).wf(),
            div > 0,
        ensures
            old(self).same_tempo(*final(self)),
            final(self).notes@ == old(self).notes@.push(
                Note { pitch: frequency, duration: old(self).length_of(note_tempo) / div },
            ),
    {
        let duration = self.duration(note_tempo);
        self.notes.push(Note::new(frequency, duration / div));
    }
}

} // verus!
