//! A short tune.

use vstd::prelude::*;

use crate::sound::note::{Note, NoteTempo, NoteType, Pitch};
use crate::sound::{BeatType, Partition};

verus! {

impl Partition {
    /// The opening of the Mii channel theme, at 114 beats a minute.
    pub fn mii() -> (res: Self)
        ensures
            res.wf(),
            res.bpm == 114,
            res.whole_note_duration == 2104,
            res.notes@ == seq![
                Note { pitch: Pitch::Fs4, duration: 526 },
                Note { pitch: Pitch::A4, duration: 263 },
                Note { pitch: Pitch::Cs5, duration: 263 },
                Note { pitch: Pitch::Rest, duration: 263 },
                Note { pitch: Pitch::A4, duration: 263 },
                Note { pitch: Pitch::Rest, duration: 263 },
                Note { pitch: Pitch::D4, duration: 263 },
                Note { pitch: Pitch::D4, duration: 263 },
                Note { pitch: Pitch::D4, duration: 263 },
            ],
    {
        let mut partition = Partition::new(114, BeatType::Quarter);

        partition.add_note(Pitch::Fs4, NoteTempo::Quarter, NoteType::Base);
        partition.add_note(Pitch::A4, NoteTempo::Eighth, NoteType::Base);
        partition.add_note(Pitch::Cs5, NoteTempo::Eighth, NoteType::Base);

        partition.add_note(Pitch::Rest, NoteTempo::Eighth, NoteType::Base);
        partition.add_note(Pitch::A4, NoteTempo::Eighth, NoteType::Base);

        partition.add_note(Pitch::Rest, NoteTempo::Eighth, NoteType::Base);
        partition.add_note(Pitch::D4, NoteTempo::Eighth, NoteType::Base);

        partition.add_note(Pitch::D4, NoteTempo::Eighth, NoteType::Base);
        partition.add_note(Pitch::D4, NoteTempo::Eighth, NoteType::Base);

        partition
    }
}

} // verus!
