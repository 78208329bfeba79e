use vstd::prelude::*;

verus! {

/// Hundredths of a semitone in one semitone.
pub const CENTS_PER_SEMITONE: i64 = 100;

/// The largest octave number (in absolute value) whose notes fit a pitch.
pub const MAX_OCTAVE: i64 = 7_000_000_000_000_000;

#[derive(Clone, Copy, Debug, PartialEq, Eq, Structural)]
pub enum Accidental {
    Flat,
    Natural,
    Sharp,
}

/// Why a note could not be built from its parts or parsed from text.
#[derive(Clone, Copy, Debug, PartialEq, Eq, Structural)]
pub enum ParseError {
    EmptyInput,
    InvalidNoteLetter,
    MissingOctave,
    AmbiguousSuffix,
}

/// A written note: letter, accidental and octave.
#[derive(Clone, Copy, Debug, PartialEq, Eq, Structural)]
pub struct NoteValue {
    pub note: char,
    pub accidental: Accidental,
    pub octave: i64,
}

/// The nearest written note to a pitch and how far (in cents) the pitch
/// lies from it.
#[derive(Clone, Copy, Debug, PartialEq, Eq, Structural)]
pub struct NoteValueResult {
    pub value: NoteValue,
    pub error: i64,
}

/// A point on the continuous semitone scale, in cents; 0 is C0.
#[derive(Clone, Copy, Debug, PartialEq, Eq, Structural)]
pub struct Pitch {
    pub cents: i64,
}

/// Semitone of a note letter within its octave, either case.
pub open spec fn letter_semitone(c: char) -> Option<int> {
    if c == 'c' || c == 'C' {
        Some(0)
    } else if c == 'd' || c == 'D' {
        Some(2)
    } else if c == 'e' || c == 'E' {
        Some(4)
    } else if c == 'f' || c == 'F' {
        Some(5)
    } else if c == 'g' || c == 'G' {
        Some(7)
    } else if c == 'a' || c == 'A' {
        Some(9)
    } else if c == 'b' || c == 'B' {
        Some(11)
    } else {
        None
    }
}

pub open spec fn accidental_offset(a: Accidental) -> int {
    match a {
        Accidental::Flat => -1,
        Accidental::Natural => 0,
        Accidental::Sharp => 1,
    }
}

/// The pitch, in cents, of a note whose letter is valid.
pub open spec fn note_cents(base: int, a: Accidental, octave: int) -> int {
    (base + accidental_offset(a) + octave * 12) * 100
}

/// What building a pitch from a letter, accidental and octave gives.
pub open spec fn from_note_spec(c: char, a: Accidental, octave: int) -> Result<int, ParseError> {
    match letter_semitone(c) {
        Some(base) => Ok(note_cents(base, a, octave)),
        None => Err(ParseError::InvalidNoteLetter),
    }
}

/// Rounds cents to the nearest semitone, halves away from zero.
pub open spec fn round_semitone(c: int) -> int {
    if c >= 0 {
        (c + 50) / 100
    } else {
        -((-c + 50) / 100)
    }
}

/// The chromatic spelling of a semitone within an octave, sharps only.
pub open spec fn chromatic(n: int) -> (char, Accidental) {
    if n == 0 {
        ('C', Accidental::Natural)
    } else if n == 1 {
        ('C', Accidental::Sharp)
    } else if n == 2 {
        ('D', Accidental::Natural)
    } else if n == 3 {
        ('D', Accidental::Sharp)
    } else if n == 4 {
        ('E', Accidental::Natural)
    } else if n == 5 {
        ('F', Accidental::Natural)
    } else if n == 6 {
        ('F', Accidental::Sharp)
    } else if n == 7 {
        ('G', Accidental::Natural)
    } else if n == 8 {
        ('G', Accidental::Sharp)
    } else if n == 9 {
        ('A', Accidental::Natural)
    } else if n == 10 {
        ('A', Accidental::Sharp)
    } else {
        ('B', Accidental::Natural)
    }
}

pub open spec fn is_digit(c: char) -> bool {
    '0' <= c && c <= '9'
}

/// The number that a run of decimal digits spells.
pub open spec fn digits_value(s: Seq<char>) -> int
    decreases s.len(),
{
    if s.len() == 0 {
        0
    } else {
        digits_value(s.drop_last()) * 10 + (s.last() as int - '0' as int)
    }
}

pub open spec fn all_digits(d: Seq<char>) -> bool {
    forall|i: int| 0 <= i < d.len() ==> is_digit(#[trigger] d[i])
}

/// What follows a leading sign, if there is one.
pub open spec fn unsigned_part(s: Seq<char>) -> Seq<char> {
    if s.len() > 0 && (s[0] == '-' || s[0] == '+') {
        s.subrange(1, s.len() as int)
    } else {
        s
    }
}

/// A signed decimal integer that fits an `i32`: an optional `+` or `-`,
/// then at least one digit.
pub open spec fn parse_octave_spec(s: Seq<char>) -> Option<int> {
    let d = unsigned_part(s);
    if d.len() == 0 || !all_digits(d) {
        None
    } else {
        let v = if s.len() > 0 && s[0] == '-' { -digits_value(d) } else { digits_value(d) };
        if i32::MIN <= v <= i32::MAX {
            Some(v)
        } else {
            None
        }
    }
}

/// What parsing a note name gives: a letter, then `#` or `b`, then an
/// octave; a lone letter stands for its natural in octave 4.
pub open spec fn parse_note_spec(s: Seq<char>) -> Result<int, ParseError> {
    if s.len() == 0 {
        Err(ParseError::EmptyInput)
    } else if s.len() == 1 {
        from_note_spec(s[0], Accidental::Natural, 4)
    } else {
        let a = if s[1] == '#' {
            Accidental::Sharp
        } else if s[1] == 'b' {
            Accidental::Flat
        } else {
            Accidental::Natural
        };
        let start: int = if a == Accidental::Natural { 1 } else { 2 };
        match parse_octave_spec(s.subrange(start, s.len() as int)) {
            Some(o) => from_note_spec(s[0], a, o),
            None => if a == Accidental::Natural {
                Err(ParseError::AmbiguousSuffix)
            } else {
                Err(ParseError::MissingOctave)
            },
        }
    }
}

proof fn lemma_digits_prefix(s: Seq<char>, k: int)
    requires
        0 <= k <= s.len(),
        forall|i: int| 0 <= i < s.len() ==> is_digit(#[trigger] s[i]),
    ensures
        digits_value(s.subrange(0, k)) <= digits_value(s),
        0 <= digits_value(s.subrange(0, k)),
    decreases s.len(),
{
    if s.len() == 0 {
        assert(s.subrange(0, k) =~= s);
    } else if k == s.len() {
        assert(s.subrange(0, k) =~= s);
        lemma_digits_prefix(s.drop_last(), 0);
    } else {
        let t = s.drop_last();
        assert(s.subrange(0, k) =~= t.subrange(0, k));
        lemma_digits_prefix(t, k);
        lemma_digits_prefix(t, t.len() as int);
        assert(t.subrange(0, t.len() as int) =~= t);
    }
}

/// Parses the octave that follows a note letter and accidental.
fn parse_octave(s: &str, start: usize) -> (r: Option<i32>)
    requires
        start <= s@.len(),
    ensures
        r matches Some(v) ==> parse_octave_spec(s@.subrange(start as int, s@.len() as int)) == Some(
            v as int,
        ),
        r is None ==> parse_octave_spec(s@.subrange(start as int, s@.len() as int)) is None,
{
    let ghost t = s@.subrange(start as int, s@.len() as int);
    let len = s.unicode_len();
    let mut i: usize = start;
    let mut neg = false;
    if i < len {
        let c = s.get_char(i);
        if c == '-' {
            neg = true;
            i = i + 1;
        } else if c == '+' {
            i = i + 1;
        }
    }
    let digits_start = i;
    let ghost d = s@.subrange(digits_start as int, s@.len() as int);
    assert(d =~= unsigned_part(t));
    if i == len {
        return None;
    }
    let mut v: i64 = 0;
    while i < len
        invariant
            digits_start <= i <= len,
            len == s@.len(),
            d == s@.subrange(digits_start as int, s@.len() as int),
            t == s@.subrange(start as int, s@.len() as int),
            d == unsigned_part(t),
            neg == (t.len() > 0 && t[0] == '-'),
            d.len() > 0,
            forall|j: int| 0 <= j < i - digits_start ==> is_digit(#[trigger] d[j]),
            v == digits_value(d.subrange(0, i - digits_start)),
            0 <= v <= 2147483648,
        decreases len - i,
    {
        let c = s.get_char(i);
        if !('0' <= c && c <= '9') {
            assert(d[i - digits_start] == c);
            assert(!is_digit(d[i - digits_start]));
            assert(parse_octave_spec(t) is None);
            return None;
        }
        let digit = (c as u32 - '0' as u32) as i64;
        proof {
            let p = d.subrange(0, i + 1 - digits_start);
            assert(p.drop_last() =~= d.subrange(0, i - digits_start));
            assert(p.last() == c);
        }
        v = v * 10 + digit;
        i = i + 1;
        assert(v == digits_value(d.subrange(0, i - digits_start)));
        if v > 2147483648 {
            proof {
                if all_digits(d) {
                    lemma_digits_prefix(d, i - digits_start);
                    assert(digits_value(d) > 2147483648);
                }
            }
            assert(parse_octave_spec(t) is None);
            return None;
        }
    }
    assert(d.subrange(0, d.len() as int) =~= d);
    if neg {
        Some((-v) as i32)
    } else if v <= 2147483647 {
        Some(v as i32)
    } else {
        None
    }
}

impl Pitch {
    pub fn new(cents: i64) -> (r: Pitch)
        ensures
            r.cents == cents,
    {
        Pitch { cents }
    }

    /// The pitch of a written note; the letter may be in either case.
    pub fn from_note(note: char, accidental: Accidental, octave: i64) -> (r: Result<Pitch, ParseError>)
        requires
            -MAX_OCTAVE <= octave <= MAX_OCTAVE,
        ensures
            r matches Ok(p) ==> from_note_spec(note, accidental, octave as int) == Ok::<int, ParseError>(p.cents as int),
            r matches Err(e) ==> from_note_spec(note, accidental, octave as int) == Err::<int, ParseError>(e),
    {
        let base: i64 = match note {
            'c' | 'C' => 0,
            'd' | 'D' => 2,
            'e' | 'E' => 4,
            'f' | 'F' => 5,
            'g' | 'G' => 7,
            'a' | 'A' => 9,
            'b' | 'B' => 11,
            _ => return Err(ParseError::InvalidNoteLetter),
        };
        let offset: i64 = match accidental {
            Accidental::Flat => -1,
            Accidental::Natural => 0,
            Accidental::Sharp => 1,
        };
        Ok(Pitch::new((base + offset + octave * 12) * CENTS_PER_SEMITONE))
    }

    /// Parses `<letter>[#|b][octave]`.
    pub fn from_string(string: &str) -> (r: Result<Pitch, ParseError>)
        ensures
            r matches Ok(p) ==> parse_note_spec(string@) == Ok::<int, ParseError>(p.cents as int),
            r matches Err(e) ==> parse_note_spec(string@) == Err::<int, ParseError>(e),
    {
        let len = string.unicode_len();
        if len == 0 {
            return Err(ParseError::EmptyInput);
        }
        let note = string.get_char(0);
        if len == 1 {
            return Pitch::from_note(note, Accidental::Natural, 4);
        }
        let second = string.get_char(1);
        let accidental = if second == '#' {
            Accidental::Sharp
        } else if second == 'b' {
            Accidental::Flat
        } else {
            Accidental::Natural
        };
        let start: usize = if accidental == Accidental::Natural { 1 } else { 2 };
        match parse_octave(string, start) {
            Some(octave) => Pitch::from_note(note, accidental, octave as i64),
            None => if accidental == Accidental::Natural {
                Err(ParseError::AmbiguousSuffix)
            } else {
                Err(ParseError::MissingOctave)
            },
        }
    }

    /// MIDI note 12 is C0.
    pub fn from_midi(midi: u8) -> (r: Pitch)
        ensures
            r.cents == (midi as int - 12) * 100,
    {
        Pitch::new((midi as i64 - 12) * CENTS_PER_SEMITONE)
    }

    /// The MIDI number nearest the pitch (MIDI 12 is C0), rounded after
    /// the shift, not clamped to a byte.
    pub fn midi(&self) -> (r: i64)
        ensures
            r == round_semitone(self.cents as int + 1200),
    {
        let w = self.cents as i128 + 1200;
        let r = if w >= 0 {
            (w + 50) / 100
        } else {
            -((-w + 50) / 100)
        };
        r as i64
    }

    fn rounded_semitone(c: i64) -> (r: i64)
        ensures
            r == round_semitone(c as int),
            -92233720368547759 <= r <= 92233720368547759,
    {
        let w = c as i128;
        let r = if w >= 0 {
            (w + 50) / 100
        } else {
            -((-w + 50) / 100)
        };
        r as i64
    }

    /// The nearest written note, spelled with sharps, and the remainder.
    pub fn to_note_value(&self) -> (r: NoteValueResult)
        ensures
            ({
                let s = round_semitone(self.cents as int);
                &&& r.error == self.cents - s * 100
                &&& (r.value.note, r.value.accidental) == chromatic(s % 12)
                &&& r.value.octave == s / 12
            }),
    {
        let s = Self::rounded_semitone(self.cents);
        let error = self.cents - s * CENTS_PER_SEMITONE;
        let n = s.checked_rem_euclid(12).unwrap();
        let octave = s.checked_div_euclid(12).unwrap();
        let (note, accidental) = if n == 0 {
            ('C', Accidental::Natural)
        } else if n == 1 {
            ('C', Accidental::Sharp)
        } else if n == 2 {
            ('D', Accidental::Natural)
        } else if n == 3 {
            ('D', Accidental::Sharp)
        } else if n == 4 {
            ('E', Accidental::Natural)
        } else if n == 5 {
            ('F', Accidental::Natural)
        } else if n == 6 {
            ('F', Accidental::Sharp)
        } else if n == 7 {
            ('G', Accidental::Natural)
        } else if n == 8 {
            ('G', Accidental::Sharp)
        } else if n == 9 {
            ('A', Accidental::Natural)
        } else if n == 10 {
            ('A', Accidental::Sharp)
        } else {
            ('B', Accidental::Natural)
        };
        NoteValueResult { value: NoteValue { note, accidental, octave }, error }
    }
}

/// A whole number of semitones rounds to itself.
pub proof fn lemma_round_whole_semitone(p: int)
    ensures
        round_semitone(p * 100) == p,
{
    if p >= 0 {
        assert((p * 100 + 50) / 100 == p) by (nonlinear_arith)
            requires p >= 0;
    } else {
        assert((-(p * 100) + 50) / 100 == -p) by (nonlinear_arith)
            requires p < 0;
    }
}

/// Spelling a whole-semitone pitch as a written note and building the
/// pitch of that note gives the pitch back.
pub proof fn lemma_note_name_round_trip(p: int)
    requires
        -12 * MAX_OCTAVE <= p <= 12 * MAX_OCTAVE,
    ensures
        ({
            let s = round_semitone(p * 100);
            let (c, a) = chromatic(s % 12);
            &&& s == p
            &&& -MAX_OCTAVE <= s / 12 <= MAX_OCTAVE
            &&& from_note_spec(c, a, s / 12) == Ok::<int, ParseError>(p * 100)
        }),
{
    lemma_round_whole_semitone(p);
    let n = p % 12;
    let o = p / 12;
    vstd::arithmetic::div_mod::lemma_fundamental_div_mod(p, 12);
    assert(0 <= n < 12);
    assert(-MAX_OCTAVE <= o <= MAX_OCTAVE);
    let (c, a) = chromatic(n);
    assert(letter_semitone(c) is Some && letter_semitone(c).unwrap() + accidental_offset(a) == n);
}

/// The MIDI number of the pitch of a MIDI number is that number.
pub proof fn lemma_midi_round_trip(m: u8)
    ensures
        round_semitone((m as int - 12) * 100 + 1200) == m as int,
{
    assert((m as int - 12) * 100 + 1200 == (m as int) * 100);
    lemma_round_whole_semitone(m as int);
}

} // verus!
