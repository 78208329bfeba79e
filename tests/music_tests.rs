use music_composer::music::{
    value_in_effect_at, Instrument, Key, Note, PitchPoint, Project, ProjectContent, ProjectMetadata,
    RhythmPoint, TimePoint, TimeSignature, TimeSignatureUnit, Track, ValidationError, TICKS_PER_BEAT,
};
use music_composer::pitch::Pitch;
use std::cmp::Ordering;

fn tp(measure: u32, beat: u32) -> TimePoint {
    TimePoint::new(measure, beat as i64).unwrap()
}

fn four_four() -> TimeSignature {
    TimeSignature::new(vec![TimeSignatureUnit::new(4, vec![RhythmPoint::new(1)])])
}

fn content(tempo: Vec<(TimePoint, u32)>) -> Result<ProjectContent, ValidationError> {
    ProjectContent::new(
        "Unnamed Score".to_string(),
        "Unknown Artist".to_string(),
        None,
        tempo,
        vec![(tp(0, 0), four_four())],
        vec![(tp(0, 0), Key::new("C".to_string(), Pitch::new(0)))],
        vec![],
    )
}

#[test]
fn value_in_effect_follows_anchors() {
    let curve = vec![(tp(0, 0), 120_000u32), (tp(4, 0), 140_000u32)];
    assert_eq!(*value_in_effect_at(&curve, &tp(0, 0)), 120_000);
    assert_eq!(*value_in_effect_at(&curve, &tp(3, 9 * TICKS_PER_BEAT / 10)), 120_000);
    assert_eq!(*value_in_effect_at(&curve, &tp(4, 0)), 140_000);
    assert_eq!(*value_in_effect_at(&curve, &tp(100, 0)), 140_000);
    let late = vec![(tp(2, 0), 90_000u32), (tp(5, 10), 100_000u32), (tp(7, 0), 110_000u32)];
    assert_eq!(*value_in_effect_at(&late, &tp(0, 0)), 90_000);
    assert_eq!(*value_in_effect_at(&late, &tp(5, 9)), 90_000);
    assert_eq!(*value_in_effect_at(&late, &tp(5, 10)), 100_000);
    assert_eq!(*value_in_effect_at(&late, &tp(6, 500)), 100_000);
}

#[test]
fn tempo_at_on_content() {
    let c = content(vec![(tp(0, 0), 120_000), (tp(4, 0), 140_000)]).unwrap();
    assert_eq!(c.tempo_at(&tp(3, 900)), 120_000);
    assert_eq!(c.tempo_at(&tp(4, 0)), 140_000);
    assert_eq!(c.key_at(&tp(9, 0)).name, "C");
    assert_eq!(c.time_signature_at(&tp(9, 0)).total_beats_per_cycle(), Some(4));
}

#[test]
fn empty_tempo_curve_is_refused() {
    assert!(matches!(content(vec![]), Err(ValidationError::EmptyTimedSequence)));
}

#[test]
fn unordered_curve_is_refused() {
    let r = content(vec![(tp(4, 0), 140_000), (tp(0, 0), 120_000)]);
    assert!(matches!(r, Err(ValidationError::UnorderedTimedSequence)));
    let r = content(vec![(tp(1, 0), 140_000), (tp(1, 0), 120_000)]);
    assert!(matches!(r, Err(ValidationError::UnorderedTimedSequence)));
}

#[test]
fn set_tempo_at_inserts_and_replaces() {
    let mut c = content(vec![(tp(0, 0), 120_000)]).unwrap();
    c.set_tempo_at(tp(8, 0), 90_000);
    c.set_tempo_at(tp(4, 0), 100_000);
    let anchors: Vec<u32> = c.tempo.iter().map(|e| e.1).collect();
    assert_eq!(anchors, vec![120_000, 100_000, 90_000]);
    c.set_tempo_at(tp(4, 0), 105_000);
    assert_eq!(c.tempo.len(), 3);
    assert_eq!(c.tempo_at(&tp(5, 0)), 105_000);
    c.set_tempo(60_000);
    assert_eq!(c.tempo[0], (tp(0, 0), 60_000));
    assert_eq!(c.tempo.len(), 3);
    let c = c.with_tempo(70_000).with_name("Song".to_string());
    assert_eq!(c.tempo_at(&tp(0, 0)), 70_000);
    assert_eq!(c.name, "Song");
}

#[test]
fn opening_value_inserted_before_later_anchor() {
    let mut c = content(vec![(tp(2, 0), 120_000)]).unwrap();
    c.set_tempo(80_000);
    assert_eq!(c.tempo.len(), 2);
    assert_eq!(c.tempo[0], (tp(0, 0), 80_000));
    let c = c.with_key(Key::new("G".to_string(), Pitch::new(700)));
    assert_eq!(c.key_at(&tp(0, 0)).root, Pitch::new(700));
    assert_eq!(c.key.len(), 1);
}

#[test]
fn tracks_keep_their_order() {
    let c = content(vec![(tp(0, 0), 120_000)]).unwrap();
    let mut c = c.with_track(Track::new(Instrument::new(), vec![], vec![RhythmPoint::new(1)]));
    c.set_track(Track::new(Instrument::new(), vec![], vec![]));
    assert_eq!(c.tracks.len(), 2);
    assert_eq!(c.tracks[0].rhythm_points.len(), 1);
    let p = Project::new(ProjectMetadata::new(), c);
    assert_eq!(p.content.tracks.len(), 2);
}

#[test]
fn add_note_refuses_reversed_range() {
    let mut t = Track::new(Instrument::new(), vec![], vec![]);
    let bad = Note::new(2, 1, 0, 0, vec![]);
    assert_eq!(t.add_note(bad), Err(ValidationError::InvalidRange));
    assert!(t.notes.is_empty());
    let bad_beat = Note::new(1, 1, 500, 400, vec![]);
    assert_eq!(t.add_note(bad_beat), Err(ValidationError::InvalidRange));
    let grace = Note::new(1, 1, 400, 400, vec![]);
    assert!(grace.is_zero_length());
    assert_eq!(t.add_note(grace), Ok(()));
    assert_eq!(t.add_note(Note::new(1, 2, 0, 0, vec![])), Ok(()));
    assert_eq!(t.notes.len(), 2);
}

#[test]
fn pitch_at_clamps_and_interpolates() {
    let c4 = Pitch::from_string("C4").unwrap();
    let d4 = Pitch::from_string("D4").unwrap();
    let points = vec![
        PitchPoint::new(c4, 1000, 0),
        PitchPoint::new(d4, 500, 2 * TICKS_PER_BEAT),
    ];
    let note = Note::new(0, 1, 0, 0, points);
    let beat = TICKS_PER_BEAT as i64;
    assert_eq!(note.pitch_at(-beat), Some(c4));
    assert_eq!(note.pitch_at(5 * beat), Some(d4));
    assert_eq!(note.pitch_at(beat), Some(Pitch::new(4900)));
    assert_eq!(note.pitch_at(0), Some(c4));
    assert_eq!(note.velocity_at(beat), Some(750));
    assert_eq!(note.velocity_at(-beat), Some(1000));
    assert_eq!(note.velocity_at(3 * beat), Some(500));
}

#[test]
fn pitch_at_without_points() {
    let note = Note::new(0, 0, 0, 0, vec![]);
    assert_eq!(note.pitch_at(0), None);
    assert_eq!(note.velocity_at(0), None);
}

#[test]
fn pitch_at_falling_curve_rounds_down() {
    let points = vec![
        PitchPoint::new(Pitch::new(100), 0, 0),
        PitchPoint::new(Pitch::new(0), 0, 3),
        PitchPoint::new(Pitch::new(300), 0, 6),
    ];
    let note = Note::new(0, 0, 0, 0, points);
    assert_eq!(note.pitch_at(1), Some(Pitch::new(66)));
    assert_eq!(note.pitch_at(3), Some(Pitch::new(0)));
    assert_eq!(note.pitch_at(4), Some(Pitch::new(100)));
}

#[test]
fn beats_per_cycle() {
    let sig = TimeSignature::new(vec![
        TimeSignatureUnit::new(4, vec![RhythmPoint::new(0)]),
        TimeSignatureUnit::new(2, vec![RhythmPoint::new(1), RhythmPoint::new(2), RhythmPoint::new(3)]),
    ]);
    assert_eq!(sig.total_beats_per_cycle(), Some(10));
}

#[test]
fn time_points() {
    assert_eq!(TimePoint::new(0, -1), Err(ValidationError::InvalidBeatOffset));
    assert_eq!(TimePoint::start(), tp(0, 0));
    assert_eq!(tp(1, 5).compare(&tp(2, 0)), Ordering::Less);
    assert_eq!(tp(2, 5).compare(&tp(2, 0)), Ordering::Greater);
    assert_eq!(tp(2, 5).compare(&tp(2, 5)), Ordering::Equal);
}

#[test]
fn rhythm_point_fields() {
    let r = RhythmPoint::new(3);
    assert_eq!(r.get_divisions(), 3);
    assert_eq!(r.get_connect_next(), None);
}

#[test]
fn defaults() {
    let c = ProjectContent::default();
    assert_eq!(c.name, "Unnamed Score");
    assert_eq!(c.artist, "Unknown Artist");
    assert!(c.composer.is_none());
    assert_eq!(c.tempo, vec![(TimePoint::start(), 120_000)]);
    assert_eq!(c.key_at(&tp(7, 0)).name, "C");
    assert_eq!(c.key_at(&tp(7, 0)).root, Pitch::new(0));
    assert_eq!(c.time_signature_at(&tp(0, 0)).total_beats_per_cycle(), Some(4));
    assert!(c.tracks.is_empty());
    let p = Project::default();
    assert_eq!(p.content.tempo_at(&tp(0, 0)), 120_000);
    let t = Track::default();
    assert!(t.notes.is_empty() && t.rhythm_points.is_empty());
    assert_eq!(TimeSignatureUnit::default().repetitions, 4);
    assert_eq!(TimeSignature::default().units.len(), 1);
    let opening = c.time_signature_at(&tp(0, 0));
    assert_eq!(opening.units[0].repetitions, 4);
    assert_eq!(opening.units[0].beat, vec![RhythmPoint::new(0)]);
    assert_eq!(Key::default().name, "C");
    let _ = (Instrument::default(), ProjectMetadata::default());
}
