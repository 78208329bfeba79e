use music_composer::pitch::{Accidental, ParseError, Pitch};

fn frequency_of(p: &Pitch) -> f64 {
    16.35160 * 2.0_f64.powf(p.cents as f64 / 1200.0)
}

fn pitch_of_frequency(hz: f64) -> Pitch {
    Pitch::new((1200.0 * (hz / 16.35160).log2()).round() as i64)
}

#[test]
fn it_works() {
    let a4 = Pitch::from_string("A4").unwrap();
    let hz = frequency_of(&a4);
    assert!((hz - 440.0).abs() < 0.01);
    let low = pitch_of_frequency(435.).to_note_value();
    assert_eq!(low.value.note, 'A');
    assert_eq!(low.value.octave, 4);
    assert!(low.error < 0);
    let high = pitch_of_frequency(445.).to_note_value();
    assert_eq!(high.value.note, 'A');
    assert_eq!(high.value.octave, 4);
    assert!(high.error > 0);
}

#[test]
fn note_name_round_trip() {
    for p in -48i64..108 {
        let r = Pitch::new(p * 100).to_note_value();
        assert_eq!(r.error, 0);
        let back = Pitch::from_note(r.value.note, r.value.accidental, r.value.octave).unwrap();
        assert_eq!(back.cents, p * 100);
    }
}

#[test]
fn midi_round_trip() {
    for m in 0u8..=127 {
        assert_eq!(Pitch::from_midi(m).midi(), m as i64);
    }
}

#[test]
fn a4_is_midi_69() {
    let a4 = Pitch::from_string("A4").unwrap();
    assert_eq!(a4.cents, 5700);
    assert_eq!(a4.midi(), 69);
    assert_eq!(Pitch::from_midi(12).cents, 0);
}

#[test]
fn parse_errors() {
    assert_eq!(Pitch::from_string(""), Err(ParseError::EmptyInput));
    assert_eq!(Pitch::from_string("c#"), Err(ParseError::MissingOctave));
    assert_eq!(Pitch::from_string("h4"), Err(ParseError::InvalidNoteLetter));
    assert_eq!(Pitch::from_string("cx"), Err(ParseError::AmbiguousSuffix));
    assert_eq!(Pitch::from_string("ab"), Err(ParseError::MissingOctave));
    assert_eq!(Pitch::from_string("c99999999999"), Err(ParseError::AmbiguousSuffix));
    assert_eq!(Pitch::from_string("h"), Err(ParseError::InvalidNoteLetter));
}

#[test]
fn parse_valid_names() {
    assert_eq!(Pitch::from_string("c").unwrap().cents, 4800);
    assert_eq!(Pitch::from_string("C4").unwrap().cents, 4800);
    assert_eq!(Pitch::from_string("Bb3").unwrap().cents, 4600);
    assert_eq!(Pitch::from_string("f#2").unwrap().cents, 3000);
    assert_eq!(Pitch::from_string("c-1").unwrap().cents, -1200);
    assert_eq!(Pitch::from_string("d+0").unwrap().cents, 200);
    assert_eq!(Pitch::from_string("cb0").unwrap().cents, -100);
}

#[test]
fn from_note_letters() {
    assert_eq!(Pitch::from_note('g', Accidental::Sharp, 1).unwrap().cents, 2000);
    assert_eq!(Pitch::from_note('E', Accidental::Flat, 0).unwrap().cents, 300);
    assert_eq!(Pitch::from_note('x', Accidental::Natural, 0), Err(ParseError::InvalidNoteLetter));
}

#[test]
fn note_value_spelling_and_error() {
    let r = Pitch::new(4850).to_note_value();
    assert_eq!((r.value.note, r.value.accidental, r.value.octave, r.error), ('C', Accidental::Sharp, 4, -50));
    let r = Pitch::new(-100).to_note_value();
    assert_eq!((r.value.note, r.value.accidental, r.value.octave, r.error), ('B', Accidental::Natural, -1, 0));
    let r = Pitch::new(-149).to_note_value();
    assert_eq!((r.value.note, r.value.octave, r.error), ('B', -1, -49));
    let r = Pitch::new(-150).to_note_value();
    assert_eq!((r.value.note, r.value.accidental, r.value.octave, r.error), ('A', Accidental::Sharp, -1, 50));
    let r = Pitch::new(5730).to_note_value();
    assert_eq!((r.value.note, r.value.octave, r.error), ('A', 4, 30));
}

#[test]
fn midi_rounds_to_nearest() {
    assert_eq!(Pitch::new(5749).midi(), 69);
    assert_eq!(Pitch::new(5750).midi(), 70);
    assert_eq!(Pitch::new(-1300).midi(), -1);
    assert_eq!(Pitch::new(-50).midi(), 12);
    assert_eq!(Pitch::new(-1250).midi(), -1);
    assert_eq!(Pitch::new(5760).midi(), 70);
    assert_eq!(Pitch::new(-2000).midi(), -8);
    assert_eq!(Pitch::new(30000).midi(), 312);
}
