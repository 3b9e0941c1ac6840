//! The overworld theme of a well-known platform game.

use vstd::prelude::*;

use crate::sound::note::{Note, NoteTempo, NoteType, Pitch};
use crate::sound::{BeatType, Partition};

verus! {

/// `s` played `n` times in a row.
pub open spec fn repeated(s: Seq<Note>, n: nat) -> Seq<Note>
    decreases n,
{
    if n == 0 {
        Seq::empty()
    } else {
        repeated(s, (n - 1) as nat) + s
    }
}

/// The opening bar of the overworld theme at 100 beats a minute.
pub open spec fn overworld_intro() -> Seq<Note> {
    seq![
        Note { pitch: Pitch::E5, duration: 75 },
        Note { pitch: Pitch::Rest, duration: 75 },
        Note { pitch: Pitch::E5, duration: 300 },
        Note { pitch: Pitch::Rest, duration: 75 },
        Note { pitch: Pitch::E5, duration: 300 },
        Note { pitch: Pitch::C5, duration: 150 },
        Note { pitch: Pitch::E5, duration: 300 },
        Note { pitch: Pitch::G5, duration: 600 },
        Note { pitch: Pitch::G4, duration: 600 },
    ]
}

/// The first theme, four bars; it comes twice after the opening and
/// twice again after the bridge.
pub open spec fn overworld_a() -> Seq<Note> {
    seq![
        Note { pitch: Pitch::C5, duration: 450 },
        Note { pitch: Pitch::G4, duration: 450 },
        Note { pitch: Pitch::E4, duration: 300 },
        Note { pitch: Pitch::Rest, duration: 150 },
        Note { pitch: Pitch::A4, duration: 300 },
        Note { pitch: Pitch::B4, duration: 300 },
        Note { pitch: Pitch::Bb4, duration: 150 },
        Note { pitch: Pitch::A4, duration: 300 },
        Note { pitch: Pitch::G4, duration: 100 },
        Note { pitch: Pitch::E5, duration: 100 },
        Note { pitch: Pitch::G5, duration: 100 },
        Note { pitch: Pitch::A5, duration: 300 },
        Note { pitch: Pitch::F5, duration: 150 },
        Note { pitch: Pitch::G5, duration: 300 },
        Note { pitch: Pitch::E5, duration: 300 },
        Note { pitch: Pitch::C5, duration: 150 },
        Note { pitch: Pitch::D5, duration: 150 },
        Note { pitch: Pitch::B4, duration: 150 },
        Note { pitch: Pitch::Rest, duration: 300 },
    ]
}

/// The second theme, eight bars, played twice.
pub open spec fn overworld_b() -> Seq<Note> {
    seq![
        Note { pitch: Pitch::Rest, duration: 300 },
        Note { pitch: Pitch::G5, duration: 150 },
        Note { pitch: Pitch::Gb5, duration: 150 },
        Note { pitch: Pitch::F5, duration: 150 },
        Note { pitch: Pitch::Ds5, duration: 300 },
        Note { pitch: Pitch::E5, duration: 150 },
        Note { pitch: Pitch::Rest, duration: 150 },
        Note { pitch: Pitch::G4, duration: 150 },
        Note { pitch: Pitch::A4, duration: 150 },
        Note { pitch: Pitch::C5, duration: 150 },
        Note { pitch: Pitch::Rest, duration: 150 },
        Note { pitch: Pitch::A4, duration: 150 },
        Note { pitch: Pitch::C5, duration: 150 },
        Note { pitch: Pitch::D5, duration: 150 },
        Note { pitch: Pitch::Rest, duration: 300 },
        Note { pitch: Pitch::G5, duration: 150 },
        Note { pitch: Pitch::Gb5, duration: 150 },
        Note { pitch: Pitch::F5, duration: 150 },
        Note { pitch: Pitch::Ds5, duration: 300 },
        Note { pitch: Pitch::E5, duration: 150 },
        Note { pitch: Pitch::Rest, duration: 150 },
        Note { pitch: Pitch::C6, duration: 150 },
        Note { pitch: Pitch::Rest, duration: 150 },
        Note { pitch: Pitch::C6, duration: 150 },
        Note { pitch: Pitch::C6, duration: 600 },
        Note { pitch: Pitch::Rest, duration: 300 },
        Note { pitch: Pitch::G5, duration: 150 },
        Note { pitch: Pitch::Gb5, duration: 150 },
        Note { pitch: Pitch::F5, duration: 150 },
        Note { pitch: Pitch::Ds5, duration: 300 },
        Note { pitch: Pitch::E5, duration: 150 },
        Note { pitch: Pitch::Rest, duration: 150 },
        Note { pitch: Pitch::G4, duration: 150 },
        Note { pitch: Pitch::A4, duration: 150 },
        Note { pitch: Pitch::C5, duration: 150 },
        Note { pitch: Pitch::Rest, duration: 150 },
        Note { pitch: Pitch::A4, duration: 150 },
        Note { pitch: Pitch::C5, duration: 150 },
        Note { pitch: Pitch::D5, duration: 150 },
        Note { pitch: Pitch::Rest, duration: 300 },
        Note { pitch: Pitch::Eb5, duration: 300 },
        Note { pitch: Pitch::Rest, duration: 150 },
        Note { pitch: Pitch::D5, duration: 450 },
        Note { pitch: Pitch::C5, duration: 600 },
        Note { pitch: Pitch::Rest, duration: 600 },
    ]
}

/// The bridge, after the second theme.
pub open spec fn overworld_c() -> Seq<Note> {
    seq![
        Note { pitch: Pitch::C5, duration: 75 },
        Note { pitch: Pitch::Rest, duration: 75 },
        Note { pitch: Pitch::C5, duration: 300 },
        Note { pitch: Pitch::Rest, duration: 75 },
        Note { pitch: Pitch::C5, duration: 300 },
        Note { pitch: Pitch::Rest, duration: 75 },
        Note { pitch: Pitch::C5, duration: 150 },
        Note { pitch: Pitch::D5, duration: 300 },
        Note { pitch: Pitch::E5, duration: 150 },
        Note { pitch: Pitch::C5, duration: 300 },
        Note { pitch: Pitch::A4, duration: 150 },
        Note { pitch: Pitch::G4, duration: 600 },
        Note { pitch: Pitch::C5, duration: 75 },
        Note { pitch: Pitch::Rest, duration: 75 },
        Note { pitch: Pitch::C5, duration: 300 },
        Note { pitch: Pitch::Rest, duration: 75 },
        Note { pitch: Pitch::C5, duration: 300 },
        Note { pitch: Pitch::Rest, duration: 75 },
        Note { pitch: Pitch::C5, duration: 150 },
        Note { pitch: Pitch::D5, duration: 150 },
        Note { pitch: Pitch::E5, duration: 150 },
        Note { pitch: Pitch::Rest, duration: 1200 },
        Note { pitch: Pitch::C5, duration: 75 },
        Note { pitch: Pitch::Rest, duration: 75 },
        Note { pitch: Pitch::C5, duration: 300 },
        Note { pitch: Pitch::Rest, duration: 75 },
        Note { pitch: Pitch::C5, duration: 300 },
        Note { pitch: Pitch::Rest, duration: 75 },
        Note { pitch: Pitch::C5, duration: 150 },
        Note { pitch: Pitch::D5, duration: 300 },
        Note { pitch: Pitch::E5, duration: 150 },
        Note { pitch: Pitch::C5, duration: 300 },
        Note { pitch: Pitch::A4, duration: 150 },
        Note { pitch: Pitch::G4, duration: 600 },
        Note { pitch: Pitch::E5, duration: 75 },
        Note { pitch: Pitch::Rest, duration: 75 },
        Note { pitch: Pitch::E5, duration: 300 },
        Note { pitch: Pitch::Rest, duration: 75 },
        Note { pitch: Pitch::E5, duration: 300 },
        Note { pitch: Pitch::C5, duration: 150 },
        Note { pitch: Pitch::E5, duration: 300 },
        Note { pitch: Pitch::G5, duration: 600 },
        Note { pitch: Pitch::G4, duration: 600 },
    ]
}

/// The third theme, four bars, played twice.
pub open spec fn overworld_d() -> Seq<Note> {
    seq![
        Note { pitch: Pitch::E5, duration: 150 },
        Note { pitch: Pitch::C5, duration: 300 },
        Note { pitch: Pitch::G4, duration: 450 },
        Note { pitch: Pitch::Gs4, duration: 300 },
        Note { pitch: Pitch::A4, duration: 150 },
        Note { pitch: Pitch::F5, duration: 150 },
        Note { pitch: Pitch::Rest, duration: 150 },
        Note { pitch: Pitch::F5, duration: 150 },
        Note { pitch: Pitch::A4, duration: 600 },
        Note { pitch: Pitch::B4, duration: 200 },
        Note { pitch: Pitch::A5, duration: 100 },
        Note { pitch: Pitch::Rest, duration: 100 },
        Note { pitch: Pitch::A5, duration: 100 },
        Note { pitch: Pitch::Rest, duration: 100 },
        Note { pitch: Pitch::A5, duration: 100 },
        Note { pitch: Pitch::G5, duration: 100 },
        Note { pitch: Pitch::F5, duration: 100 },
        Note { pitch: Pitch::E5, duration: 150 },
        Note { pitch: Pitch::C5, duration: 300 },
        Note { pitch: Pitch::A4, duration: 150 },
        Note { pitch: Pitch::G4, duration: 600 },
        Note { pitch: Pitch::E5, duration: 150 },
        Note { pitch: Pitch::C5, duration: 300 },
        Note { pitch: Pitch::G4, duration: 450 },
        Note { pitch: Pitch::Gs4, duration: 300 },
        Note { pitch: Pitch::A4, duration: 150 },
        Note { pitch: Pitch::F5, duration: 150 },
        Note { pitch: Pitch::Rest, duration: 150 },
        Note { pitch: Pitch::F5, duration: 150 },
        Note { pitch: Pitch::A4, duration: 600 },
        Note { pitch: Pitch::B4, duration: 150 },
        Note { pitch: Pitch::F5, duration: 150 },
        Note { pitch: Pitch::Rest, duration: 150 },
        Note { pitch: Pitch::F5, duration: 75 },
        Note { pitch: Pitch::Rest, duration: 75 },
        Note { pitch: Pitch::F5, duration: 100 },
        Note { pitch: Pitch::E5, duration: 100 },
        Note { pitch: Pitch::D5, duration: 100 },
        Note { pitch: Pitch::C5, duration: 600 },
        Note { pitch: Pitch::Rest, duration: 600 },
    ]
}

/// The closing part.
pub open spec fn overworld_e() -> Seq<Note> {
    seq![
        Note { pitch: Pitch::C5, duration: 75 },
        Note { pitch: Pitch::Rest, duration: 75 },
        Note { pitch: Pitch::C5, duration: 300 },
        Note { pitch: Pitch::Rest, duration: 75 },
        Note { pitch: Pitch::C5, duration: 300 },
        Note { pitch: Pitch::Rest, duration: 75 },
        Note { pitch: Pitch::C5, duration: 150 },
        Note { pitch: Pitch::D5, duration: 300 },
        Note { pitch: Pitch::E5, duration: 150 },
        Note { pitch: Pitch::C5, duration: 300 },
        Note { pitch: Pitch::A4, duration: 150 },
        Note { pitch: Pitch::G4, duration: 600 },
        Note { pitch: Pitch::C5, duration: 75 },
        Note { pitch: Pitch::Rest, duration: 75 },
        Note { pitch: Pitch::C5, duration: 300 },
        Note { pitch: Pitch::Rest, duration: 75 },
        Note { pitch: Pitch::C5, duration: 300 },
        Note { pitch: Pitch::Rest, duration: 75 },
        Note { pitch: Pitch::C5, duration: 150 },
        Note { pitch: Pitch::D5, duration: 150 },
        Note { pitch: Pitch::E5, duration: 150 },
        Note { pitch: Pitch::Rest, duration: 1200 },
        Note { pitch: Pitch::C5, duration: 75 },
        Note { pitch: Pitch::Rest, duration: 75 },
        Note { pitch: Pitch::C5, duration: 300 },
        Note { pitch: Pitch::Rest, duration: 75 },
        Note { pitch: Pitch::C5, duration: 300 },
        Note { pitch: Pitch::Rest, duration: 75 },
        Note { pitch: Pitch::C5, duration: 150 },
        Note { pitch: Pitch::D5, duration: 300 },
        Note { pitch: Pitch::E5, duration: 150 },
        Note { pitch: Pitch::C5, duration: 300 },
        Note { pitch: Pitch::A4, duration: 150 },
        Note { pitch: Pitch::G4, duration: 600 },
        Note { pitch: Pitch::E5, duration: 75 },
        Note { pitch: Pitch::Rest, duration: 75 },
        Note { pitch: Pitch::E5, duration: 300 },
        Note { pitch: Pitch::Rest, duration: 75 },
        Note { pitch: Pitch::E5, duration: 300 },
        Note { pitch: Pitch::C5, duration: 150 },
        Note { pitch: Pitch::E5, duration: 300 },
        Note { pitch: Pitch::G5, duration: 600 },
        Note { pitch: Pitch::G4, duration: 600 },
        Note { pitch: Pitch::E5, duration: 150 },
        Note { pitch: Pitch::C5, duration: 300 },
        Note { pitch: Pitch::G4, duration: 450 },
        Note { pitch: Pitch::Gs4, duration: 300 },
        Note { pitch: Pitch::A4, duration: 150 },
        Note { pitch: Pitch::F5, duration: 150 },
        Note { pitch: Pitch::Rest, duration: 150 },
        Note { pitch: Pitch::F5, duration: 150 },
        Note { pitch: Pitch::A4, duration: 600 },
        Note { pitch: Pitch::B4, duration: 200 },
        Note { pitch: Pitch::A5, duration: 100 },
        Note { pitch: Pitch::Rest, duration: 100 },
        Note { pitch: Pitch::A5, duration: 100 },
        Note { pitch: Pitch::Rest, duration: 100 },
        Note { pitch: Pitch::A5, duration: 100 },
        Note { pitch: Pitch::G5, duration: 100 },
        Note { pitch: Pitch::F5, duration: 100 },
        Note { pitch: Pitch::E5, duration: 150 },
        Note { pitch: Pitch::C5, duration: 300 },
        Note { pitch: Pitch::A4, duration: 150 },
        Note { pitch: Pitch::G4, duration: 600 },
        Note { pitch: Pitch::E5, duration: 150 },
        Note { pitch: Pitch::C5, duration: 300 },
        Note { pitch: Pitch::G4, duration: 450 },
        Note { pitch: Pitch::Gs4, duration: 300 },
        Note { pitch: Pitch::A4, duration: 150 },
        Note { pitch: Pitch::F5, duration: 150 },
        Note { pitch: Pitch::Rest, duration: 150 },
        Note { pitch: Pitch::F5, duration: 150 },
        Note { pitch: Pitch::A4, duration: 600 },
        Note { pitch: Pitch::B4, duration: 150 },
        Note { pitch: Pitch::F5, duration: 150 },
        Note { pitch: Pitch::Rest, duration: 150 },
        Note { pitch: Pitch::F5, duration: 75 },
        Note { pitch: Pitch::Rest, duration: 75 },
        Note { pitch: Pitch::F5, duration: 100 },
        Note { pitch: Pitch::E5, duration: 100 },
        Note { pitch: Pitch::D5, duration: 100 },
        Note { pitch: Pitch::C5, duration: 600 },
        Note { pitch: Pitch::Rest, duration: 600 },
    ]
}

/// The whole theme at 100 beats a minute, its notes in order.
pub open spec fn overworld_score() -> Seq<Note> {
    overworld_intro() + repeated(overworld_a(), 2) + repeated(overworld_b(), 2) + overworld_c() + repeated(
        overworld_a(),
        2,
    ) + repeated(overworld_d(), 2) + overworld_e()
}

/// The song is at the theme's tempo.
pub open spec fn at_overworld_tempo(p: Partition) -> bool {
    &&& p.wf()
    &&& p.bpm == 100
    &&& p.whole_note_duration == 2400
}

fn add_a(p: &mut Partition)
    requires
        at_overworld_tempo(*old(p)),
    ensures
        at_overworld_tempo(*final(p)),
        final(p).notes@ == old(p).notes@ + overworld_a(),
{
    p.add_note(Pitch::C5, NoteTempo::Eighth, NoteType::Dotted);
    p.add_note(Pitch::G4, NoteTempo::Eighth, NoteType::Dotted);
    p.add_note(Pitch::E4, NoteTempo::Eighth, NoteType::Base);
    p.add_note(Pitch::Rest, NoteTempo::Sixteenth, NoteType::Base);
    p.add_note(Pitch::A4, NoteTempo::Eighth, NoteType::Base);
    p.add_note(Pitch::B4, NoteTempo::Eighth, NoteType::Base);
    p.add_note(Pitch::Bb4, NoteTempo::Sixteenth, NoteType::Base);
    p.add_note(Pitch::A4, NoteTempo::Eighth, NoteType::Base);
    p.add_triplet((Pitch::G4, Pitch::E5, Pitch::G5), NoteTempo::Eighth);
    p.add_note(Pitch::A5, NoteTempo::Eighth, NoteType::Base);
    p.add_note(Pitch::F5, NoteTempo::Sixteenth, NoteType::Base);
    p.add_note(Pitch::G5, NoteTempo::Eighth, NoteType::Base);
    p.add_note(Pitch::E5, NoteTempo::Eighth, NoteType::Base);
    p.add_note(Pitch::C5, NoteTempo::Sixteenth, NoteType::Base);
    p.add_note(Pitch::D5, NoteTempo::Sixteenth, NoteType::Base);
    p.add_note(Pitch::B4, NoteTempo::Sixteenth, NoteType::Base);
    p.add_note(Pitch::Rest, NoteTempo::Eighth, NoteType::Base);
    assert(p.notes@ =~= old(p).notes@ + overworld_a());
}

fn add_b(p: &mut Partition)
    requires
        at_overworld_tempo(*old(p)),
    ensures
        at_overworld_tempo(*final(p)),
        final(p).notes@ == old(p).notes@ + overworld_b(),
{
    p.add_note(Pitch::Rest, NoteTempo::Eighth, NoteType::Base);
    p.add_note(Pitch::G5, NoteTempo::Sixteenth, NoteType::Base);
    p.add_note(Pitch::Gb5, NoteTempo::Sixteenth, NoteType::Base);
    p.add_note(Pitch::F5, NoteTempo::Sixteenth, NoteType::Base);
    p.add_note(Pitch::Ds5, NoteTempo::Eighth, NoteType::Base);
    p.add_note(Pitch::E5, NoteTempo::Sixteenth, NoteType::Base);
    p.add_note(Pitch::Rest, NoteTempo::Sixteenth, NoteType::Base);
    p.add_note(Pitch::G4, NoteTempo::Sixteenth, NoteType::Base);
    p.add_note(Pitch::A4, NoteTempo::Sixteenth, NoteType::Base);
    p.add_note(Pitch::C5, NoteTempo::Sixteenth, NoteType::Base);
    p.add_note(Pitch::Rest, NoteTempo::Sixteenth, NoteType::Base);
    p.add_note(Pitch::A4, NoteTempo::Sixteenth, NoteType::Base);
    p.add_note(Pitch::C5, NoteTempo::Sixteenth, NoteType::Base);
    p.add_note(Pitch::D5, NoteTempo::Sixteenth, NoteType::Base);
    p.add_note(Pitch::Rest, NoteTempo::Eighth, NoteType::Base);
    p.add_note(Pitch::G5, NoteTempo::Sixteenth, NoteType::Base);
    p.add_note(Pitch::Gb5, NoteTempo::Sixteenth, NoteType::Base);
    p.add_note(Pitch::F5, NoteTempo::Sixteenth, NoteType::Base);
    p.add_note(Pitch::Ds5, NoteTempo::Eighth, NoteType::Base);
    p.add_note(Pitch::E5, NoteTempo::Sixteenth, NoteType::Base);
    p.add_note(Pitch::Rest, NoteTempo::Sixteenth, NoteType::Base);
    p.add_note(Pitch::C6, NoteTempo::Sixteenth, NoteType::Base);
    p.add_note(Pitch::Rest, NoteTempo::Sixteenth, NoteType::Base);
    p.add_note(Pitch::C6, NoteTempo::Sixteenth, NoteType::Base);
    p.add_note(Pitch::C6, NoteTempo::Quarter, NoteType::Base);
    p.add_note(Pitch::Rest, NoteTempo::Eighth, NoteType::Base);
    p.add_note(Pitch::G5, NoteTempo::Sixteenth, NoteType::Base);
    p.add_note(Pitch::Gb5, NoteTempo::Sixteenth, NoteType::Base);
    p.add_note(Pitch::F5, NoteTempo::Sixteenth, NoteType::Base);
    p.add_note(Pitch::Ds5, NoteTempo::Eighth, NoteType::Base);
    p.add_note(Pitch::E5, NoteTempo::Sixteenth, NoteType::Base);
    p.add_note(Pitch::Rest, NoteTempo::Sixteenth, NoteType::Base);
    p.add_note(Pitch::G4, NoteTempo::Sixteenth, NoteType::Base);
    p.add_note(Pitch::A4, NoteTempo::Sixteenth, NoteType::Base);
    p.add_note(Pitch::C5, NoteTempo::Sixteenth, NoteType::Base);
    p.add_note(Pitch::Rest, NoteTempo::Sixteenth, NoteType::Base);
    p.add_note(Pitch::A4, NoteTempo::Sixteenth, NoteType::Base);
    p.add_note(Pitch::C5, NoteTempo::Sixteenth, NoteType::Base);
    p.add_note(Pitch::D5, NoteTempo::Sixteenth, NoteType::Base);
    p.add_note(Pitch::Rest, NoteTempo::Eighth, NoteType::Base);
    p.add_note(Pitch::Eb5, NoteTempo::Eighth, NoteType::Base);
    p.add_note(Pitch::Rest, NoteTempo::Sixteenth, NoteType::Base);
    p.add_note(Pitch::D5, NoteTempo::Eighth, NoteType::Dotted);
    p.add_note(Pitch::C5, NoteTempo::Quarter, NoteType::Base);
    p.add_note(Pitch::Rest, NoteTempo::Quarter, NoteType::Base);
    assert(p.notes@ =~= old(p).notes@ + overworld_b());
}

fn add_c(p: &mut Partition)
    requires
        at_overworld_tempo(*old(p)),
    ensures
        at_overworld_tempo(*final(p)),
        final(p).notes@ == old(p).notes@ + overworld_c(),
{
    p.add_note(Pitch::C5, NoteTempo::Thirty2nd, NoteType::Base);
    p.add_note(Pitch::Rest, NoteTempo::Thirty2nd, NoteType::Base);
    p.add_note(Pitch::C5, NoteTempo::Eighth, NoteType::Base);
    p.add_note(Pitch::Rest, NoteTempo::Thirty2nd, NoteType::Base);
    p.add_note(Pitch::C5, NoteTempo::Eighth, NoteType::Base);
    p.add_note(Pitch::Rest, NoteTempo::Thirty2nd, NoteType::Base);
    p.add_note(Pitch::C5, NoteTempo::Sixteenth, NoteType::Base);
    p.add_note(Pitch::D5, NoteTempo::Eighth, NoteType::Base);
    p.add_note(Pitch::E5, NoteTempo::Sixteenth, NoteType::Base);
    p.add_note(Pitch::C5, NoteTempo::Eighth, NoteType::Base);
    p.add_note(Pitch::A4, NoteTempo::Sixteenth, NoteType::Base);
    p.add_note(Pitch::G4, NoteTempo::Quarter, NoteType::Base);
    p.add_note(Pitch::C5, NoteTempo::Thirty2nd, NoteType::Base);
    p.add_note(Pitch::Rest, NoteTempo::Thirty2nd, NoteType::Base);
    p.add_note(Pitch::C5, NoteTempo::Eighth, NoteType::Base);
    p.add_note(Pitch::Rest, NoteTempo::Thirty2nd, NoteType::Base);
    p.add_note(Pitch::C5, NoteTempo::Eighth, NoteType::Base);
    p.add_note(Pitch::Rest, NoteTempo::Thirty2nd, NoteType::Base);
    p.add_note(Pitch::C5, NoteTempo::Sixteenth, NoteType::Base);
    p.add_note(Pitch::D5, NoteTempo::Sixteenth, NoteType::Base);
    p.add_note(Pitch::E5, NoteTempo::Sixteenth, NoteType::Base);
    p.add_note(Pitch::Rest, NoteTempo::Half, NoteType::Base);
    p.add_note(Pitch::C5, NoteTempo::Thirty2nd, NoteType::Base);
    p.add_note(Pitch::Rest, NoteTempo::Thirty2nd, NoteType::Base);
    p.add_note(Pitch::C5, NoteTempo::Eighth, NoteType::Base);
    p.add_note(Pitch::Rest, NoteTempo::Thirty2nd, NoteType::Base);
    p.add_note(Pitch::C5, NoteTempo::Eighth, NoteType::Base);
    p.add_note(Pitch::Rest, NoteTempo::Thirty2nd, NoteType::Base);
    p.add_note(Pitch::C5, NoteTempo::Sixteenth, NoteType::Base);
    p.add_note(Pitch::D5, NoteTempo::Eighth, NoteType::Base);
    p.add_note(Pitch::E5, NoteTempo::Sixteenth, NoteType::Base);
    p.add_note(Pitch::C5, NoteTempo::Eighth, NoteType::Base);
    p.add_note(Pitch::A4, NoteTempo::Sixteenth, NoteType::Base);
    p.add_note(Pitch::G4, NoteTempo::Quarter, NoteType::Base);
    p.add_note(Pitch::E5, NoteTempo::Thirty2nd, NoteType::Base);
    p.add_note(Pitch::Rest, NoteTempo::Thirty2nd, NoteType::Base);
    p.add_note(Pitch::E5, NoteTempo::Eighth, NoteType::Base);
    p.add_note(Pitch::Rest, NoteTempo::Thirty2nd, NoteType::Base);
    p.add_note(Pitch::E5, NoteTempo::Eighth, NoteType::Base);
    p.add_note(Pitch::C5, NoteTempo::Sixteenth, NoteType::Base);
    p.add_note(Pitch::E5, NoteTempo::Eighth, NoteType::Base);
    p.add_note(Pitch::G5, NoteTempo::Quarter, NoteType::Base);
    p.add_note(Pitch::G4, NoteTempo::Quarter, NoteType::Base);
    assert(p.notes@ =~= old(p).notes@ + overworld_c());
}

fn add_d(p: &mut Partition)
    requires
        at_overworld_tempo(*old(p)),
    ensures
        at_overworld_tempo(*final(p)),
        final(p).notes@ == old(p).notes@ + overworld_d(),
{
    p.add_note(Pitch::E5, NoteTempo::Sixteenth, NoteType::Base);
    p.add_note(Pitch::C5, NoteTempo::Eighth, NoteType::Base);
    p.add_note(Pitch::G4, NoteTempo::Eighth, NoteType::Dotted);
    p.add_note(Pitch::Gs4, NoteTempo::Eighth, NoteType::Base);
    p.add_note(Pitch::A4, NoteTempo::Sixteenth, NoteType::Base);
    p.add_note(Pitch::F5, NoteTempo::Sixteenth, NoteType::Base);
    p.add_note(Pitch::Rest, NoteTempo::Sixteenth, NoteType::Base);
    p.add_note(Pitch::F5, NoteTempo::Sixteenth, NoteType::Base);
    p.add_note(Pitch::A4, NoteTempo::Quarter, NoteType::Base);
    p.add_irregular_note(Pitch::B4, NoteTempo::Quarter, 3);
    p.add_irregular_note(Pitch::A5, NoteTempo::Quarter, 6);
    p.add_irregular_note(Pitch::Rest, NoteTempo::Quarter, 6);
    p.add_irregular_note(Pitch::A5, NoteTempo::Quarter, 6);
    p.add_irregular_note(Pitch::Rest, NoteTempo::Quarter, 6);
    p.add_triplet((Pitch::A5, Pitch::G5, Pitch::F5), NoteTempo::Eighth);
    p.add_note(Pitch::E5, NoteTempo::Sixteenth, NoteType::Base);
    p.add_note(Pitch::C5, NoteTempo::Eighth, NoteType::Base);
    p.add_note(Pitch::A4, NoteTempo::Sixteenth, NoteType::Base);
    p.add_note(Pitch::G4, NoteTempo::Quarter, NoteType::Base);
    p.add_note(Pitch::E5, NoteTempo::Sixteenth, NoteType::Base);
    p.add_note(Pitch::C5, NoteTempo::Eighth, NoteType::Base);
    p.add_note(Pitch::G4, NoteTempo::Eighth, NoteType::Dotted);
    p.add_note(Pitch::Gs4, NoteTempo::Eighth, NoteType::Base);
    p.add_note(Pitch::A4, NoteTempo::Sixteenth, NoteType::Base);
    p.add_note(Pitch::F5, NoteTempo::Sixteenth, NoteType::Base);
    p.add_note(Pitch::Rest, NoteTempo::Sixteenth, NoteType::Base);
    p.add_note(Pitch::F5, NoteTempo::Sixteenth, NoteType::Base);
    p.add_note(Pitch::A4, NoteTempo::Quarter, NoteType::Base);
    p.add_note(Pitch::B4, NoteTempo::Sixteenth, NoteType::Base);
    p.add_note(Pitch::F5, NoteTempo::Sixteenth, NoteType::Base);
    p.add_note(Pitch::Rest, NoteTempo::Sixteenth, NoteType::Base);
    p.add_note(Pitch::F5, NoteTempo::Thirty2nd, NoteType::Base);
    p.add_note(Pitch::Rest, NoteTempo::Thirty2nd, NoteType::Base);
    p.add_triplet((Pitch::F5, Pitch::E5, Pitch::D5), NoteTempo::Eighth);
    p.add_note(Pitch::C5, NoteTempo::Quarter, NoteType::Base);
    p.add_note(Pitch::Rest, NoteTempo::Quarter, NoteType::Base);
    assert(p.notes@ =~= old(p).notes@ + overworld_d());
}

#[verifier::rlimit(100)]
fn add_e(p: &mut Partition)
    requires
        at_overworld_tempo(*old(p)),
    ensures
        at_overworld_tempo(*final(p)),
        final(p).notes@ == old(p).notes@ + overworld_e(),
{
    p.add_note(Pitch::C5, NoteTempo::Thirty2nd, NoteType::Base);
    p.add_note(Pitch::Rest, NoteTempo::Thirty2nd, NoteType::Base);
    p.add_note(Pitch::C5, NoteTempo::Eighth, NoteType::Base);
    p.add_note(Pitch::Rest, NoteTempo::Thirty2nd, NoteType::Base);
    p.add_note(Pitch::C5, NoteTempo::Eighth, NoteType::Base);
    p.add_note(Pitch::Rest, NoteTempo::Thirty2nd, NoteType::Base);
    p.add_note(Pitch::C5, NoteTempo::Sixteenth, NoteType::Base);
    p.add_note(Pitch::D5, NoteTempo::Eighth, NoteType::Base);
    p.add_note(Pitch::E5, NoteTempo::Sixteenth, NoteType::Base);
    p.add_note(Pitch::C5, NoteTempo::Eighth, NoteType::Base);
    p.add_note(Pitch::A4, NoteTempo::Sixteenth, NoteType::Base);
    p.add_note(Pitch::G4, NoteTempo::Quarter, NoteType::Base);
    p.add_note(Pitch::C5, NoteTempo::Thirty2nd, NoteType::Base);
    p.add_note(Pitch::Rest, NoteTempo::Thirty2nd, NoteType::Base);
    p.add_note(Pitch::C5, NoteTempo::Eighth, NoteType::Base);
    p.add_note(Pitch::Rest, NoteTempo::Thirty2nd, NoteType::Base);
    p.add_note(Pitch::C5, NoteTempo::Eighth, NoteType::Base);
    p.add_note(Pitch::Rest, NoteTempo::Thirty2nd, NoteType::Base);
    p.add_note(Pitch::C5, NoteTempo::Sixteenth, NoteType::Base);
    p.add_note(Pitch::D5, NoteTempo::Sixteenth, NoteType::Base);
    p.add_note(Pitch::E5, NoteTempo::Sixteenth, NoteType::Base);
    p.add_note(Pitch::Rest, NoteTempo::Half, NoteType::Base);
    p.add_note(Pitch::C5, NoteTempo::Thirty2nd, NoteType::Base);
    p.add_note(Pitch::Rest, NoteTempo::Thirty2nd, NoteType::Base);
    p.add_note(Pitch::C5, NoteTempo::Eighth, NoteType::Base);
    p.add_note(Pitch::Rest, NoteTempo::Thirty2nd, NoteType::Base);
    p.add_note(Pitch::C5, NoteTempo::Eighth, NoteType::Base);
    p.add_note(Pitch::Rest, NoteTempo::Thirty2nd, NoteType::Base);
    p.add_note(Pitch::C5, NoteTempo::Sixteenth, NoteType::Base);
    p.add_note(Pitch::D5, NoteTempo::Eighth, NoteType::Base);
    p.add_note(Pitch::E5, NoteTempo::Sixteenth, NoteType::Base);
    p.add_note(Pitch::C5, NoteTempo::Eighth, NoteType::Base);
    p.add_note(Pitch::A4, NoteTempo::Sixteenth, NoteType::Base);
    p.add_note(Pitch::G4, NoteTempo::Quarter, NoteType::Base);
    p.add_note(Pitch::E5, NoteTempo::Thirty2nd, NoteType::Base);
    p.add_note(Pitch::Rest, NoteTempo::Thirty2nd, NoteType::Base);
    p.add_note(Pitch::E5, NoteTempo::Eighth, NoteType::Base);
    p.add_note(Pitch::Rest, NoteTempo::Thirty2nd, NoteType::Base);
    p.add_note(Pitch::E5, NoteTempo::Eighth, NoteType::Base);
    p.add_note(Pitch::C5, NoteTempo::Sixteenth, NoteType::Base);
    p.add_note(Pitch::E5, NoteTempo::Eighth, NoteType::Base);
    p.add_note(Pitch::G5, NoteTempo::Quarter, NoteType::Base);
    p.add_note(Pitch::G4, NoteTempo::Quarter, NoteType::Base);
    p.add_note(Pitch::E5, NoteTempo::Sixteenth, NoteType::Base);
    p.add_note(Pitch::C5, NoteTempo::Eighth, NoteType::Base);
    p.add_note(Pitch::G4, NoteTempo::Eighth, NoteType::Dotted);
    p.add_note(Pitch::Gs4, NoteTempo::Eighth, NoteType::Base);
    p.add_note(Pitch::A4, NoteTempo::Sixteenth, NoteType::Base);
    p.add_note(Pitch::F5, NoteTempo::Sixteenth, NoteType::Base);
    p.add_note(Pitch::Rest, NoteTempo::Sixteenth, NoteType::Base);
    p.add_note(Pitch::F5, NoteTempo::Sixteenth, NoteType::Base);
    p.add_note(Pitch::A4, NoteTempo::Quarter, NoteType::Base);
    p.add_irregular_note(Pitch::B4, NoteTempo::Quarter, 3);
    p.add_irregular_note(Pitch::A5, NoteTempo::Quarter, 6);
    p.add_irregular_note(Pitch::Rest, NoteTempo::Quarter, 6);
    p.add_irregular_note(Pitch::A5, NoteTempo::Quarter, 6);
    p.add_irregular_note(Pitch::Rest, NoteTempo::Quarter, 6);
    p.add_triplet((Pitch::A5, Pitch::G5, Pitch::F5), NoteTempo::Eighth);
    p.add_note(Pitch::E5, NoteTempo::Sixteenth, NoteType::Base);
    p.add_note(Pitch::C5, NoteTempo::Eighth, NoteType::Base);
    p.add_note(Pitch::A4, NoteTempo::Sixteenth, NoteType::Base);
    p.add_note(Pitch::G4, NoteTempo::Quarter, NoteType::Base);
    p.add_note(Pitch::E5, NoteTempo::Sixteenth, NoteType::Base);
    p.add_note(Pitch::C5, NoteTempo::Eighth, NoteType::Base);
    p.add_note(Pitch::G4, NoteTempo::Eighth, NoteType::Dotted);
    p.add_note(Pitch::Gs4, NoteTempo::Eighth, NoteType::Base);
    p.add_note(Pitch::A4, NoteTempo::Sixteenth, NoteType::Base);
    p.add_note(Pitch::F5, NoteTempo::Sixteenth, NoteType::Base);
    p.add_note(Pitch::Rest, NoteTempo::Sixteenth, NoteType::Base);
    p.add_note(Pitch::F5, NoteTempo::Sixteenth, NoteType::Base);
    p.add_note(Pitch::A4, NoteTempo::Quarter, NoteType::Base);
    p.add_note(Pitch::B4, NoteTempo::Sixteenth, NoteType::Base);
    p.add_note(Pitch::F5, NoteTempo::Sixteenth, NoteType::Base);
    p.add_note(Pitch::Rest, NoteTempo::Sixteenth, NoteType::Base);
    p.add_note(Pitch::F5, NoteTempo::Thirty2nd, NoteType::Base);
    p.add_note(Pitch::Rest, NoteTempo::Thirty2nd, NoteType::Base);
    p.add_triplet((Pitch::F5, Pitch::E5, Pitch::D5), NoteTempo::Eighth);
    p.add_note(Pitch::C5, NoteTempo::Quarter, NoteType::Base);
    p.add_note(Pitch::Rest, NoteTempo::Quarter, NoteType::Base);
    assert(p.notes@ =~= old(p).notes@ + overworld_e());
}

impl Partition {
    /// The overworld theme, at 100 beats a minute (see `overworld_score`).
    pub fn overworld() -> (res: Self)
        ensures
            at_overworld_tempo(res),
            res.notes@ == overworld_score(),
    {
        let mut partition = Partition::new(100, BeatType::Quarter);
        partition
            .add_note(Pitch::E5, NoteTempo::Thirty2nd, NoteType::Base)
            .add_note(Pitch::Rest, NoteTempo::Thirty2nd, NoteType::Base);
        partition.add_note(Pitch::E5, NoteTempo::Eighth, NoteType::Base);
        partition.add_note(Pitch::Rest, NoteTempo::Thirty2nd, NoteType::Base);
        partition.add_note(Pitch::E5, NoteTempo::Eighth, NoteType::Base);
        partition.add_note(Pitch::C5, NoteTempo::Sixteenth, NoteType::Base);
        partition.add_note(Pitch::E5, NoteTempo::Eighth, NoteType::Base);
        partition.add_note(Pitch::G5, NoteTempo::Quarter, NoteType::Base);
        partition.add_note(Pitch::G4, NoteTempo::Quarter, NoteType::Base);
        assert(partition.notes@ =~= overworld_intro());
        assert(repeated(overworld_a(), 0) =~= Seq::<Note>::empty());
        assert(partition.notes@ =~= overworld_intro() + repeated(overworld_a(), 0));
        for i in 0..2usize
            invariant
                at_overworld_tempo(partition),
                partition.notes@ == overworld_intro() + repeated(overworld_a(), i as nat),
        {
            add_a(&mut partition);
            assert(partition.notes@ =~= overworld_intro() + repeated(overworld_a(), (i + 1) as nat)) by {
                assert(repeated(overworld_a(), (i + 1) as nat) == repeated(overworld_a(), i as nat) + overworld_a());
            }
        }
        assert(repeated(overworld_b(), 0) =~= Seq::<Note>::empty());
        assert(partition.notes@ =~= overworld_intro() + repeated(overworld_a(), 2) + repeated(overworld_b(), 0));
        for i in 0..2usize
            invariant
                at_overworld_tempo(partition),
                partition.notes@ == overworld_intro() + repeated(overworld_a(), 2) + repeated(overworld_b(), i as nat),
        {
            add_b(&mut partition);
            assert(partition.notes@ =~= overworld_intro() + repeated(overworld_a(), 2) + repeated(overworld_b(), (i + 1) as nat)) by {
                assert(repeated(overworld_b(), (i + 1) as nat) == repeated(overworld_b(), i as nat) + overworld_b());
            }
        }
        add_c(&mut partition);
        assert(repeated(overworld_a(), 0) =~= Seq::<Note>::empty());
        assert(partition.notes@ =~= overworld_intro() + repeated(overworld_a(), 2) + repeated(overworld_b(), 2) + overworld_c() + repeated(overworld_a(), 0));
        for i in 0..2usize
            invariant
                at_overworld_tempo(partition),
                partition.notes@ == overworld_intro() + repeated(overworld_a(), 2) + repeated(overworld_b(), 2) + overworld_c() + repeated(overworld_a(), i as nat),
        {
            add_a(&mut partition);
            assert(partition.notes@ =~= overworld_intro() + repeated(overworld_a(), 2) + repeated(overworld_b(), 2) + overworld_c() + repeated(overworld_a(), (i + 1) as nat)) by {
                assert(repeated(overworld_a(), (i + 1) as nat) == repeated(overworld_a(), i as nat) + overworld_a());
            }
        }
        assert(repeated(overworld_d(), 0) =~= Seq::<Note>::empty());
        assert(partition.notes@ =~= overworld_intro() + repeated(overworld_a(), 2) + repeated(overworld_b(), 2) + overworld_c() + repeated(overworld_a(), 2) + repeated(overworld_d(), 0));
        for i in 0..2usize
            invariant
                at_overworld_tempo(partition),
                partition.notes@ == overworld_intro() + repeated(overworld_a(), 2) + repeated(overworld_b(), 2) + overworld_c() + repeated(overworld_a(), 2) + repeated(overworld_d(), i as nat),
        {
            add_d(&mut partition);
            assert(partition.notes@ =~= overworld_intro() + repeated(overworld_a(), 2) + repeated(overworld_b(), 2) + overworld_c() + repeated(overworld_a(), 2) + repeated(overworld_d(), (i + 1) as nat)) by {
                assert(repeated(overworld_d(), (i + 1) as nat) == repeated(overworld_d(), i as nat) + overworld_d());
            }
        }
        add_e(&mut partition);
        partition
    }
}

} // verus!
