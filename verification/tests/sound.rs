use kfs::sound::note::{Note, NoteTempo, NoteType, Pitch};
use kfs::sound::{BeatType, Partition};

fn n(pitch: Pitch, duration: usize) -> Note {
    Note { pitch, duration }
}

#[test]
fn partition_durations() {
    let p = Partition::new(100, BeatType::Quarter);
    assert_eq!(p.whole_note_duration, 2400);
    assert_eq!(p.half_note_duration, 1200);
    assert_eq!(p.quarter_note_duration, 600);
    assert_eq!(p.eigth_note_duration, 300);
    assert_eq!(p.sixteenth_note_duration, 150);
    assert_eq!(p.thirty2nd_note_duration, 75);
    assert!(p.notes.is_empty());
    assert_eq!(Partition::new(60, BeatType::Whole).whole_note_duration, 1000);
    assert_eq!(Partition::new(120, BeatType::Eighth).whole_note_duration, 4000);
}

#[test]
fn partition_note_types() {
    let mut p = Partition::new(100, BeatType::Quarter);
    p.add_note(Pitch::C5, NoteTempo::Quarter, NoteType::Base)
        .add_note(Pitch::D5, NoteTempo::Eighth, NoteType::Dotted);
    p.add_note(Pitch::E5, NoteTempo::Quarter, NoteType::Triplet);
    assert_eq!(
        p.notes,
        vec![n(Pitch::C5, 600), n(Pitch::D5, 450), n(Pitch::E5, 200), n(Pitch::E5, 200), n(Pitch::E5, 200)]
    );
}

#[test]
fn partition_triplet_and_irregular() {
    let mut p = Partition::new(100, BeatType::Quarter);
    p.add_triplet((Pitch::G4, Pitch::E5, Pitch::G5), NoteTempo::Eighth);
    p.add_irregular_note(Pitch::A5, NoteTempo::Quarter, 6);
    assert_eq!(p.notes, vec![n(Pitch::G4, 100), n(Pitch::E5, 100), n(Pitch::G5, 100), n(Pitch::A5, 100)]);
}

#[test]
fn songs() {
    let mii = Partition::mii();
    assert_eq!(mii.bpm, 114);
    assert_eq!(mii.notes.len(), 9);
    assert_eq!(mii.notes[0], n(Pitch::Fs4, 526));
    let overworld = Partition::overworld();
    assert_eq!(overworld.notes.len(), 381);
    assert_eq!(
        overworld.notes[..9].to_vec(),
        vec![
            n(Pitch::E5, 75),
            n(Pitch::Rest, 75),
            n(Pitch::E5, 300),
            n(Pitch::Rest, 75),
            n(Pitch::E5, 300),
            n(Pitch::C5, 150),
            n(Pitch::E5, 300),
            n(Pitch::G5, 600),
            n(Pitch::G4, 600),
        ]
    );
    // the first theme comes right after the opening bar, and again after it
    assert_eq!(overworld.notes[9..13].to_vec(), vec![n(Pitch::C5, 450), n(Pitch::G4, 450), n(Pitch::E4, 300), n(Pitch::Rest, 150)]);
    assert_eq!(overworld.notes[9..28].to_vec(), overworld.notes[28..47].to_vec());
    // the second theme follows
    assert_eq!(overworld.notes[47..50].to_vec(), vec![n(Pitch::Rest, 300), n(Pitch::G5, 150), n(Pitch::Gb5, 150)]);
    // the first theme again after the bridge
    assert_eq!(overworld.notes[180..199].to_vec(), overworld.notes[9..28].to_vec());
    assert_eq!(overworld.notes[378..].to_vec(), vec![n(Pitch::D5, 100), n(Pitch::C5, 600), n(Pitch::Rest, 600)]);
}
