//! Human-readable renderings of pitches and rhythms, for inspection.
use vstd::prelude::*;
use vstd::string::*;
use crate::pitch::{
    all_digits, chromatic, digits_value, from_note_spec, is_digit, letter_semitone, parse_note_spec,
    parse_octave_spec, round_semitone, unsigned_part, Accidental, NoteValue, ParseError, Pitch,
};
use crate::music::{Project, ProjectContent, RhythmPoint, TimePoint, TimeSignature, TimeSignatureUnit};

verus! {

pub open spec fn digit_char(d: int) -> char {
    if d == 0 {
        '0'
    } else if d == 1 {
        '1'
    } else if d == 2 {
        '2'
    } else if d == 3 {
        '3'
    } else if d == 4 {
        '4'
    } else if d == 5 {
        '5'
    } else if d == 6 {
        '6'
    } else if d == 7 {
        '7'
    } else if d == 8 {
        '8'
    } else {
        '9'
    }
}

/// The decimal digits of `n`, without leading zeros.
pub open spec fn decimal(n: nat) -> Seq<char>
    decreases n,
{
    if n < 10 {
        seq![digit_char(n as int)]
    } else {
        decimal(n / 10).push(digit_char((n % 10) as int))
    }
}

/// `n` in decimal, with a `-` before a negative number.
pub open spec fn signed_decimal(n: int) -> Seq<char> {
    if n < 0 {
        seq!['-'] + decimal((-n) as nat)
    } else {
        decimal(n as nat)
    }
}

pub open spec fn accidental_text(a: Accidental) -> Seq<char> {
    match a {
        Accidental::Flat => seq!['b'],
        Accidental::Natural => seq![],
        Accidental::Sharp => seq!['#'],
    }
}

/// A pitch as its nearest note, then its distance from that note in
/// semitones with a sign and two decimals: `C#4[-0.50]`.
pub open spec fn pitch_text(cents: int) -> Seq<char> {
    let s = round_semitone(cents);
    let (c, a) = chromatic(s % 12);
    let e = cents - s * 100;
    let ae = if e < 0 { -e } else { e };
    seq![c] + accidental_text(a) + signed_decimal(s / 12) + seq!['[', if e < 0 { '-' } else { '+' }, '0', '.']
        + seq![digit_char(ae / 10), digit_char(ae % 10)] + seq![']']
}

/// The mark of a rhythm point: a rest, a beat, a split beat, or a group
/// of `n` strokes in braces.
pub open spec fn glyph_text(divisions: int) -> Seq<char> {
    if divisions == 0 {
        seq!['\u{30fb}']
    } else if divisions == 1 {
        seq![':']
    } else if divisions == 2 {
        seq!['\u{22ee}']
    } else {
        seq!['{'] + Seq::new(divisions as nat, |i: int| 'o') + seq!['}']
    }
}

/// The marks of a run of rhythm points, one after another.
pub open spec fn glyphs_text(beat: Seq<RhythmPoint>) -> Seq<char>
    decreases beat.len(),
{
    if beat.len() == 0 {
        seq![]
    } else {
        glyphs_text(beat.drop_last()) + glyph_text(beat.last().divisions() as int)
    }
}

/// A unit as its repetitions followed by the marks of its beat.
pub open spec fn unit_text(u: TimeSignatureUnit) -> Seq<char> {
    decimal(u.repetitions as nat) + glyphs_text(u.beat@)
}

/// Units separated by single spaces.
pub open spec fn units_text(units: Seq<TimeSignatureUnit>) -> Seq<char>
    decreases units.len(),
{
    if units.len() == 0 {
        seq![]
    } else if units.len() == 1 {
        unit_text(units[0])
    } else {
        units_text(units.drop_last()) + seq![' '] + unit_text(units.last())
    }
}

fn digit_str(d: u64) -> (r: &'static str)
    requires
        d < 10,
    ensures
        r@ == seq![digit_char(d as int)],
{
    proof {
        reveal_strlit("0");
        reveal_strlit("1");
        reveal_strlit("2");
        reveal_strlit("3");
        reveal_strlit("4");
        reveal_strlit("5");
        reveal_strlit("6");
        reveal_strlit("7");
        reveal_strlit("8");
        reveal_strlit("9");
    }
    if d == 0 {
        "0"
    } else if d == 1 {
        "1"
    } else if d == 2 {
        "2"
    } else if d == 3 {
        "3"
    } else if d == 4 {
        "4"
    } else if d == 5 {
        "5"
    } else if d == 6 {
        "6"
    } else if d == 7 {
        "7"
    } else if d == 8 {
        "8"
    } else {
        "9"
    }
}

fn append_decimal(s: &mut String, n: u64)
    ensures
        final(s)@ == old(s)@ + decimal(n as nat),
    decreases n,
{
    if n < 10 {
        s.append(digit_str(n));
    } else {
        append_decimal(s, n / 10);
        s.append(digit_str(n % 10));
        assert(final(s)@ =~= old(s)@ + decimal(n as nat));
    }
}

fn append_signed_decimal(s: &mut String, n: i64)
    ensures
        final(s)@ == old(s)@ + signed_decimal(n as int),
{
    proof {
        reveal_strlit("-");
    }
    if n < 0 {
        s.append("-");
        let m = (-(n as i128)) as u64;
        append_decimal(s, m);
        assert(final(s)@ =~= old(s)@ + signed_decimal(n as int));
    } else {
        append_decimal(s, n as u64);
    }
}

impl Accidental {
    /// `b`, nothing, or `#`.
    pub fn symbol(&self) -> (r: &'static str)
        ensures
            r@ == accidental_text(*self),
    {
        proof {
            reveal_strlit("b");
            reveal_strlit("");
            reveal_strlit("#");
        }
        match self {
            Accidental::Flat => "b",
            Accidental::Natural => "",
            Accidental::Sharp => "#",
        }
    }
}

fn letter_str(c: char) -> (r: &'static str)
    requires
        c == 'C' || c == 'D' || c == 'E' || c == 'F' || c == 'G' || c == 'A' || c == 'B' || c == 'c' || c == 'd' || c == 'e' || c == 'f' || c == 'g' || c == 'a' || c == 'b',
    ensures
        r@ == seq![c],
{
    proof {
        reveal_strlit("C");
        reveal_strlit("D");
        reveal_strlit("E");
        reveal_strlit("F");
        reveal_strlit("G");
        reveal_strlit("A");
        reveal_strlit("B");
        reveal_strlit("c");
        reveal_strlit("d");
        reveal_strlit("e");
        reveal_strlit("f");
        reveal_strlit("g");
        reveal_strlit("a");
        reveal_strlit("b");
    }
    if c == 'C' {
        "C"
    } else if c == 'D' {
        "D"
    } else if c == 'E' {
        "E"
    } else if c == 'F' {
        "F"
    } else if c == 'G' {
        "G"
    } else if c == 'A' {
        "A"
    } else if c == 'B' {
        "B"
    } else if c == 'c' {
        "c"
    } else if c == 'd' {
        "d"
    } else if c == 'e' {
        "e"
    } else if c == 'f' {
        "f"
    } else if c == 'g' {
        "g"
    } else if c == 'a' {
        "a"
    } else {
        "b"
    }
}

impl Pitch {
    /// The nearest note and the distance from it, as `C#4[-0.50]`.
    pub fn to_string(&self) -> (r: String)
        ensures
            r@ == pitch_text(self.cents as int),
    {
        let v = self.to_note_value();
        let ghost s = round_semitone(self.cents as int);
        proof {
            vstd::arithmetic::div_mod::lemma_fundamental_div_mod(s, 12);
            assert(-50 <= v.error <= 50);
        }
        let mut out = String::new();
        out.append(letter_str(v.value.note));
        out.append(v.value.accidental.symbol());
        append_signed_decimal(&mut out, v.value.octave);
        proof {
            reveal_strlit("[-0.");
            reveal_strlit("[+0.");
            reveal_strlit("]");
        }
        let e = v.error;
        let ae: u64 = if e < 0 { (-e) as u64 } else { e as u64 };
        if e < 0 {
            out.append("[-0.");
        } else {
            out.append("[+0.");
        }
        out.append(digit_str(ae / 10));
        out.append(digit_str(ae % 10));
        out.append("]");
        assert(out@ =~= pitch_text(self.cents as int));
        out
    }
}

impl RhythmPoint {
    /// The mark of this point.
    pub fn glyph(&self) -> (r: String)
        ensures
            r@ == glyph_text(self.divisions() as int),
    {
        proof {
            reveal_strlit("\u{30fb}");
            reveal_strlit(":");
            reveal_strlit("\u{22ee}");
            reveal_strlit("{");
            reveal_strlit("o");
            reveal_strlit("}");
        }
        let n = self.get_divisions();
        let mut out = String::new();
        if n == 0 {
            out.append("\u{30fb}");
        } else if n == 1 {
            out.append(":");
        } else if n == 2 {
            out.append("\u{22ee}");
        } else {
            out.append("{");
            let mut i: u32 = 0;
            while i < n
                invariant
                    i <= n,
                    out@ == seq!['{'] + Seq::new(i as nat, |j: int| 'o'),
                decreases n - i,
            {
                out.append("o");
                proof {
                    reveal_strlit("o");
                }
                i = i + 1;
                assert(out@ =~= seq!['{'] + Seq::new(i as nat, |j: int| 'o'));
            }
            out.append("}");
        }
        assert(out@ =~= glyph_text(self.divisions() as int));
        out
    }
}

impl TimeSignatureUnit {
    /// The repetitions, then the marks of the beat: `4:`.
    pub fn to_string(&self) -> (r: String)
        ensures
            r@ == unit_text(*self),
    {
        let mut out = String::new();
        append_decimal(&mut out, self.repetitions as u64);
        let mut i: usize = 0;
        while i < self.beat.len()
            invariant
                i <= self.beat@.len(),
                out@ == decimal(self.repetitions as nat) + glyphs_text(self.beat@.subrange(0, i as int)),
            decreases self.beat@.len() - i,
        {
            let g = self.beat[i].glyph();
            out.append(g.as_str());
            proof {
                let p = self.beat@.subrange(0, i + 1);
                assert(p.drop_last() =~= self.beat@.subrange(0, i as int));
            }
            i = i + 1;
            assert(out@ =~= decimal(self.repetitions as nat) + glyphs_text(self.beat@.subrange(0, i as int)));
        }
        assert(self.beat@.subrange(0, i as int) =~= self.beat@);
        out
    }
}

impl TimeSignature {
    /// The units separated by spaces.
    pub fn to_string(&self) -> (r: String)
        ensures
            r@ == units_text(self.units@),
    {
        proof {
            reveal_strlit(" ");
        }
        let mut out = String::new();
        let mut i: usize = 0;
        while i < self.units.len()
            invariant
                i <= self.units@.len(),
                out@ == units_text(self.units@.subrange(0, i as int)),
            decreases self.units@.len() - i,
        {
            proof {
                reveal_strlit(" ");
            }
            if i > 0 {
                out.append(" ");
            }
            let u = self.units[i].to_string();
            out.append(u.as_str());
            proof {
                let p = self.units@.subrange(0, i + 1);
                assert(p.drop_last() =~= self.units@.subrange(0, i as int));
                assert(p.last() == self.units@[i as int]);
                if i == 0 {
                    assert(p.len() == 1 && p[0] == self.units@[0]);
                }
            }
            i = i + 1;
            assert(out@ =~= units_text(self.units@.subrange(0, i as int)));
        }
        assert(self.units@.subrange(0, i as int) =~= self.units@);
        out
    }
}

/// A tempo in thousandths of a beat per minute, as beats per minute: the
/// whole part, then three decimals where there is a fraction.
pub open spec fn tempo_text(t: nat) -> Seq<char> {
    let f = (t % 1000) as int;
    if f == 0 {
        decimal(t / 1000)
    } else {
        decimal(t / 1000) + seq!['.', digit_char(f / 100), digit_char((f / 10) % 10), digit_char(f % 10)]
    }
}

/// The heading of a score: its name, artist, composer if any, and its
/// opening tempo and meter.
pub open spec fn content_text(c: ProjectContent) -> Seq<char> {
    let composer = match c.composer {
        Some(n) => "composed by "@ + n@ + "\n"@,
        None => seq![],
    };
    c.name@ + "\nby "@ + c.artist@ + "\n"@ + composer + "\n"@ + tempo_text(c.tempo@[0].1 as nat)
        + "bpm\n"@ + units_text(c.time_signature@[0].1.units@) + "\n"@
}

impl TimePoint {
    /// The measure and the beat offset in ticks: `3:480`.
    pub fn to_string(&self) -> (r: String)
        ensures
            r@ == decimal(self.measure as nat) + seq![':'] + decimal(self.beat as nat),
    {
        proof {
            reveal_strlit(":");
        }
        let mut out = String::new();
        append_decimal(&mut out, self.measure as u64);
        out.append(":");
        append_decimal(&mut out, self.beat as u64);
        assert(out@ =~= decimal(self.measure as nat) + seq![':'] + decimal(self.beat as nat));
        out
    }
}

fn append_tempo(s: &mut String, t: u32)
    ensures
        final(s)@ == old(s)@ + tempo_text(t as nat),
{
    proof {
        reveal_strlit(".");
    }
    append_decimal(s, (t / 1000) as u64);
    let f = t % 1000;
    if f != 0 {
        s.append(".");
        s.append(digit_str((f / 100) as u64));
        s.append(digit_str(((f / 10) % 10) as u64));
        s.append(digit_str((f % 10) as u64));
    }
    assert(final(s)@ =~= old(s)@ + tempo_text(t as nat));
}

impl ProjectContent {
    /// The heading of the score, as `content_text` lays it out.
    pub fn to_string(&self) -> (r: String)
        requires
            self.wf(),
        ensures
            r@ == content_text(*self),
    {
        let mut out = String::new();
        out.append(self.name.as_str());
        out.append("\nby ");
        out.append(self.artist.as_str());
        out.append("\n");
        match &self.composer {
            Some(n) => {
                out.append("composed by ");
                out.append(n.as_str());
                out.append("\n");
            },
            None => {},
        }
        out.append("\n");
        append_tempo(&mut out, self.tempo[0].1);
        out.append("bpm\n");
        let sig = self.time_signature[0].1.to_string();
        out.append(sig.as_str());
        out.append("\n");
        assert(out@ =~= content_text(*self));
        out
    }
}

/// A written note as its letter, accidental and octave: `C#4`, `Bb-1`.
pub open spec fn note_value_text(v: NoteValue) -> Seq<char> {
    seq![v.note] + accidental_text(v.accidental) + signed_decimal(v.octave as int)
}

impl NoteValue {
    /// The letter, the accidental and the octave, as `C#4`.
    pub fn to_string(&self) -> (r: String)
        requires
            letter_semitone(self.note) is Some,
        ensures
            r@ == note_value_text(*self),
    {
        let mut out = String::new();
        out.append(letter_str(self.note));
        out.append(self.accidental.symbol());
        append_signed_decimal(&mut out, self.octave);
        assert(out@ =~= note_value_text(*self));
        out
    }
}

/// A project as a metadata banner followed by the heading of its content.
pub open spec fn project_text(p: Project) -> Seq<char> {
    "--- metadata ---\nProjectMetadata\n----------------\n"@ + content_text(p.content)
}

impl Project {
    /// The metadata banner, then the heading of the content.
    pub fn to_string(&self) -> (r: String)
        requires
            self.content.wf(),
        ensures
            r@ == project_text(*self),
    {
        let mut out = String::new();
        out.append("--- metadata ---\nProjectMetadata\n----------------\n");
        let c = self.content.to_string();
        out.append(c.as_str());
        assert(out@ =~= project_text(*self));
        out
    }
}

proof fn lemma_digit_char(d: int)
    requires
        0 <= d < 10,
    ensures
        is_digit(digit_char(d)),
        digit_char(d) as int - '0' as int == d,
{
}

/// The decimal text of a number is a run of digits that spells it.
proof fn lemma_decimal(n: nat)
    ensures
        decimal(n).len() > 0,
        all_digits(decimal(n)),
        digits_value(decimal(n)) == n,
    decreases n,
{
    if n < 10 {
        lemma_digit_char(n as int);
        let d = decimal(n);
        assert(d.drop_last() =~= Seq::<char>::empty());
        assert(d.last() == digit_char(n as int));
        assert(digits_value(d) == digits_value(d.drop_last()) * 10 + (d.last() as int - '0' as int));
    } else {
        lemma_decimal(n / 10);
        lemma_digit_char((n % 10) as int);
        let d = decimal(n);
        assert(d.drop_last() =~= decimal(n / 10));
        assert(d.last() == digit_char((n % 10) as int));
        vstd::arithmetic::div_mod::lemma_fundamental_div_mod(n as int, 10);
        assert(digits_value(d) == digits_value(decimal(n / 10)) * 10 + (n % 10));
        assert forall|i: int| 0 <= i < d.len() implies is_digit(#[trigger] d[i]) by {
            if i < d.len() - 1 {
                assert(d[i] == decimal(n / 10)[i]);
            }
        }
    }
}

proof fn lemma_signed_decimal(o: int)
    requires
        i32::MIN <= o <= i32::MAX,
    ensures
        signed_decimal(o).len() > 0,
        signed_decimal(o)[0] == '-' || is_digit(signed_decimal(o)[0]),
        parse_octave_spec(signed_decimal(o)) == Some(o),
{
    let t = signed_decimal(o);
    if o < 0 {
        lemma_decimal((-o) as nat);
        assert(unsigned_part(t) =~= decimal((-o) as nat));
    } else {
        lemma_decimal(o as nat);
        assert(unsigned_part(t) =~= decimal(o as nat));
    }
}

/// Parsing the text of a written note gives the pitch of that note.
pub proof fn lemma_note_text_round_trip(v: NoteValue)
    requires
        letter_semitone(v.note) is Some,
        i32::MIN <= v.octave <= i32::MAX,
    ensures
        parse_note_spec(note_value_text(v)) == from_note_spec(v.note, v.accidental, v.octave as int),
{
    let t = note_value_text(v);
    let o = signed_decimal(v.octave as int);
    lemma_signed_decimal(v.octave as int);
    let start: int = if v.accidental == Accidental::Natural { 1 } else { 2 };
    assert(t.subrange(start, t.len() as int) =~= o);
    assert(t[0] == v.note);
    if v.accidental == Accidental::Natural {
        assert(t[1] == o[0]);
    }
}

} // verus!
