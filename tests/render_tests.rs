use music_composer::music::{Project, ProjectContent, RhythmPoint, TimePoint, TimeSignature, TimeSignatureUnit};
use music_composer::pitch::{Accidental, NoteValue, Pitch};

#[test]
fn pitch_text() {
    assert_eq!(Pitch::new(4850).to_string(), "C#4[-0.50]");
    assert_eq!(Pitch::new(5700).to_string(), "A4[+0.00]");
    assert_eq!(Pitch::new(5730).to_string(), "A4[+0.30]");
    assert_eq!(Pitch::new(-100).to_string(), "B-1[+0.00]");
    assert_eq!(Pitch::new(-1249).to_string(), "C-1[-0.49]");
    assert_eq!(Pitch::new(123_456).to_string(), "B102[-0.44]");
}

#[test]
fn accidental_symbols() {
    assert_eq!(Accidental::Flat.symbol(), "b");
    assert_eq!(Accidental::Natural.symbol(), "");
    assert_eq!(Accidental::Sharp.symbol(), "#");
}

#[test]
fn rhythm_glyphs() {
    assert_eq!(RhythmPoint::new(0).glyph(), "\u{30fb}");
    assert_eq!(RhythmPoint::new(1).glyph(), ":");
    assert_eq!(RhythmPoint::new(2).glyph(), "\u{22ee}");
    assert_eq!(RhythmPoint::new(3).glyph(), "{ooo}");
}

#[test]
fn time_signature_text() {
    let unit = TimeSignatureUnit::new(4, vec![RhythmPoint::new(1)]);
    assert_eq!(unit.to_string(), "4:");
    let sig = TimeSignature::new(vec![
        TimeSignatureUnit::new(4, vec![RhythmPoint::new(0)]),
        TimeSignatureUnit::new(12, vec![RhythmPoint::new(1), RhythmPoint::new(2), RhythmPoint::new(3)]),
    ]);
    assert_eq!(sig.to_string(), "4\u{30fb} 12:\u{22ee}{ooo}");
}

#[test]
fn time_point_text() {
    let t = TimePoint::new(3, 480).unwrap();
    assert_eq!(t.to_string(), "3:480");
}

#[test]
fn content_text() {
    let c = ProjectContent::default();
    assert_eq!(c.to_string(), "Unnamed Score\nby Unknown Artist\n\n120bpm\n4\u{30fb}\n");
    let mut c = ProjectContent::default();
    c.composer = Some("Someone".to_string());
    c.set_tempo_at(TimePoint::start(), 98_250);
    assert_eq!(c.to_string(), "Unnamed Score\nby Unknown Artist\ncomposed by Someone\n\n98.250bpm\n4\u{30fb}\n");
}

#[test]
fn note_value_text_reads_back() {
    for cents in (-4800i64..10800).step_by(100) {
        let v = Pitch::new(cents).to_note_value().value;
        let text = v.to_string();
        assert_eq!(Pitch::from_string(&text).unwrap().cents, cents);
    }
    let flat = NoteValue { note: 'B', accidental: Accidental::Flat, octave: -1 };
    assert_eq!(flat.to_string(), "Bb-1");
    assert_eq!(Pitch::from_string("Bb-1").unwrap().cents, -200);
    let lower = NoteValue { note: 'e', accidental: Accidental::Natural, octave: 12 };
    assert_eq!(lower.to_string(), "e12");
}

#[test]
fn project_text() {
    let p = Project::default();
    assert_eq!(
        p.to_string(),
        "--- metadata ---\nProjectMetadata\n----------------\nUnnamed Score\nby Unknown Artist\n\n120bpm\n4\u{30fb}\n"
    );
}
