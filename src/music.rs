use vstd::prelude::*;
use vstd::string::*;
use crate::pitch::Pitch;
use std::cmp::Ordering;

verus! {

/// Ticks in one beat: the resolution of every beat offset.
pub const TICKS_PER_BEAT: u32 = 960;

/// The largest velocity, full scale.
pub const MAX_VELOCITY: u32 = 1000;

/// Why a score edit or construction was refused.
#[derive(Clone, Copy, Debug, PartialEq, Eq, Structural)]
pub enum ValidationError {
    EmptyTimedSequence,
    UnorderedTimedSequence,
    InvalidRange,
    InvalidBeatOffset,
}

/// A position in a score: a measure and a beat offset within it, in ticks.
#[derive(Clone, Copy, Debug, PartialEq, Eq, Structural)]
pub struct TimePoint {
    pub measure: u32,
    pub beat: u32,
}

/// Positions are ordered by measure, then by beat offset.
pub open spec fn tp_lt(a: TimePoint, b: TimePoint) -> bool {
    a.measure < b.measure || (a.measure == b.measure && a.beat < b.beat)
}

pub open spec fn tp_le(a: TimePoint, b: TimePoint) -> bool {
    tp_lt(a, b) || a == b
}

/// Anchors strictly ascending.
pub open spec fn curve_sorted<T>(s: Seq<(TimePoint, T)>) -> bool {
    forall|i: int, j: int| 0 <= i < j < s.len() ==> tp_lt(#[trigger] s[i].0, #[trigger] s[j].0)
}

/// Entry `i` is the one in effect at `at`: the last anchor not after `at`,
/// or the first entry where `at` precedes every anchor.
pub open spec fn in_effect<T>(s: Seq<(TimePoint, T)>, at: TimePoint, i: int) -> bool {
    &&& 0 <= i < s.len()
    &&& (tp_le(s[i].0, at) || (i == 0 && tp_lt(at, s[0].0)))
    &&& (i + 1 == s.len() || tp_lt(at, s[i + 1].0))
}

/// Where `at` goes among the anchors: every earlier anchor precedes it, no
/// later one does.
pub open spec fn insertion_point<T>(s: Seq<(TimePoint, T)>, at: TimePoint, k: int) -> bool {
    &&& 0 <= k <= s.len()
    &&& forall|j: int| 0 <= j < k ==> tp_lt(#[trigger] s[j].0, at)
    &&& forall|j: int| k <= j < s.len() ==> tp_le(at, #[trigger] s[j].0)
}

/// The curve after writing `v` at `at`: an entry already anchored there is
/// replaced, otherwise one is inserted in order.
pub open spec fn curve_with<T>(s: Seq<(TimePoint, T)>, at: TimePoint, v: T, k: int) -> Seq<(TimePoint, T)> {
    if k < s.len() && s[k].0 == at {
        s.update(k, (at, v))
    } else {
        s.insert(k, (at, v))
    }
}

/// Measure 0, beat 0.
pub open spec fn timeline_start() -> TimePoint {
    TimePoint { measure: 0, beat: 0 }
}

impl TimePoint {
    /// A position; the beat offset must be a tick count that is not negative.
    pub fn new(measure: u32, beat: i64) -> (r: Result<TimePoint, ValidationError>)
        ensures
            (0 <= beat <= u32::MAX) ==> r == Ok::<TimePoint, ValidationError>(
                TimePoint { measure, beat: beat as u32 },
            ),
            !(0 <= beat <= u32::MAX) ==> r == Err::<TimePoint, ValidationError>(
                ValidationError::InvalidBeatOffset,
            ),
    {
        if beat < 0 || beat > u32::MAX as i64 {
            Err(ValidationError::InvalidBeatOffset)
        } else {
            Ok(TimePoint { measure, beat: beat as u32 })
        }
    }

    /// The opening of the piece.
    pub fn start() -> (r: TimePoint)
        ensures
            r == timeline_start(),
    {
        TimePoint { measure: 0, beat: 0 }
    }

    pub fn compare(&self, other: &TimePoint) -> (r: Ordering)
        ensures
            (r == Ordering::Less) == tp_lt(*self, *other),
            (r == Ordering::Equal) == (*self == *other),
            (r == Ordering::Greater) == tp_lt(*other, *self),
    {
        if self.measure < other.measure {
            Ordering::Less
        } else if self.measure > other.measure {
            Ordering::Greater
        } else if self.beat < other.beat {
            Ordering::Less
        } else if self.beat > other.beat {
            Ordering::Greater
        } else {
            Ordering::Equal
        }
    }

    fn precedes(&self, other: &TimePoint) -> (r: bool)
        ensures
            r == tp_lt(*self, *other),
    {
        self.measure < other.measure || (self.measure == other.measure && self.beat < other.beat)
    }
}

/// The index of the entry in effect at `at`, by binary search.
fn index_in_effect_at<T>(curve: &Vec<(TimePoint, T)>, at: &TimePoint) -> (r: usize)
    requires
        curve@.len() > 0,
        curve_sorted(curve@),
    ensures
        in_effect(curve@, *at, r as int),
{
    let mut lo: usize = 0;
    let mut hi: usize = curve.len();
    while lo + 1 < hi
        invariant
            0 <= lo < hi <= curve@.len(),
            curve_sorted(curve@),
            lo == 0 || tp_le(curve@[lo as int].0, *at),
            hi == curve@.len() || tp_lt(*at, curve@[hi as int].0),
        decreases hi - lo,
    {
        let mid = lo + (hi - lo) / 2;
        if at.precedes(&curve[mid].0) {
            hi = mid;
        } else {
            lo = mid;
        }
    }
    proof {
        if lo == 0 && !tp_le(curve@[0].0, *at) {
            assert(tp_lt(*at, curve@[0].0));
        }
    }
    lo
}

/// The value in effect at `at`: that of the last anchor not after `at`, or
/// the first value where `at` precedes every anchor.
pub fn value_in_effect_at<'a, T>(curve: &'a Vec<(TimePoint, T)>, at: &TimePoint) -> (r: &'a T)
    requires
        curve@.len() > 0,
        curve_sorted(curve@),
    ensures
        exists|i: int| in_effect(curve@, *at, i) && *r == curve@[i].1,
        forall|i: int| in_effect(curve@, *at, i) ==> *r == curve@[i].1,
{
    let i = index_in_effect_at(curve, at);
    proof {
        assert forall|j: int| in_effect(curve@, *at, j) implies j == i by {
            if j < i {
                assert(tp_lt(*at, curve@[j + 1].0));
                if j + 1 < i {
                    assert(tp_lt(curve@[j + 1].0, curve@[i as int].0));
                }
            } else if j > i {
                assert(tp_lt(*at, curve@[i + 1].0));
                if i + 1 < j {
                    assert(tp_lt(curve@[i + 1].0, curve@[j].0));
                }
            }
        }
    }
    &curve[i].1
}

/// Writes `value` at `at`, replacing the entry anchored there or inserting
/// one in order.
fn set_value_at<T>(curve: &mut Vec<(TimePoint, T)>, at: TimePoint, value: T)
    requires
        curve_sorted(old(curve)@),
    ensures
        curve_sorted(final(curve)@),
        exists|k: int|
            insertion_point(old(curve)@, at, k) && final(curve)@ == curve_with(old(curve)@, at, value, k),
{
    let mut k: usize = 0;
    while k < curve.len() && curve[k].0.precedes(&at)
        invariant
            0 <= k <= curve@.len(),
            forall|j: int| 0 <= j < k ==> tp_lt(#[trigger] curve@[j].0, at),
        decreases curve@.len() - k,
    {
        k = k + 1;
    }
    let ghost s = curve@;
    proof {
        if k < s.len() {
            assert forall|j: int| k <= j < s.len() implies tp_le(at, #[trigger] s[j].0) by {
                if j > k {
                    assert(tp_lt(s[k as int].0, s[j].0));
                }
            }
        }
        assert(insertion_point(s, at, k as int));
    }
    if k < curve.len() && curve[k].0 == at {
        let _ = curve.remove(k);
        curve.insert(k, (at, value));
        assert(curve@ =~= s.update(k as int, (at, value)));
    } else {
        curve.insert(k, (at, value));
        assert(curve@ =~= s.insert(k as int, (at, value)));
    }
    proof {
        let f = curve@;
        assert forall|i: int, j: int| 0 <= i < j < f.len() implies tp_lt(#[trigger] f[i].0, #[trigger] f[j].0) by {
            if i < k && j > k {
                if k < s.len() && s[k as int].0 == at {
                } else {
                    assert(f[j] == s[j - 1]);
                }
            } else if j > k && i > k {
                if !(k < s.len() && s[k as int].0 == at) {
                    assert(f[j] == s[j - 1]);
                    assert(f[i] == s[i - 1]);
                }
            }
        }
    }
}

/// Whether a curve's anchors ascend strictly.
fn check_sorted<T>(curve: &Vec<(TimePoint, T)>) -> (r: bool)
    ensures
        r == curve_sorted(curve@),
{
    let mut i: usize = 1;
    if curve.len() == 0 {
        return true;
    }
    while i < curve.len()
        invariant
            1 <= i <= curve@.len(),
            forall|a: int, b: int| 0 <= a < b < i ==> tp_lt(#[trigger] curve@[a].0, #[trigger] curve@[b].0),
        decreases curve@.len() - i,
    {
        if !curve[i - 1].0.precedes(&curve[i].0) {
            return false;
        }
        proof {
            assert forall|a: int, b: int| 0 <= a < b < i + 1 implies tp_lt(#[trigger] curve@[a].0, #[trigger] curve@[b].0) by {
                if b == i && a < i - 1 {
                    assert(tp_lt(curve@[a].0, curve@[i - 1].0));
                }
            }
        }
        i = i + 1;
    }
    true
}

/// A rhythmic mark: 0 is a rest, 1 a beat, 2 a split beat, more an
/// n-way group; it may be tied to the next.
#[derive(Clone, Copy, Debug, PartialEq, Eq, Structural)]
pub struct RhythmPoint {
    divisions: u32,
    connect_next: Option<bool>,
}

impl RhythmPoint {
    pub fn new(divisions: u32) -> (r: RhythmPoint)
        ensures
            r == RhythmPoint::new_spec(divisions),
            r.divisions() == divisions,
            r.connect_next() is None,
    {
        RhythmPoint { divisions, connect_next: None }
    }

    /// The point that `new(divisions)` makes.
    pub closed spec fn new_spec(divisions: u32) -> RhythmPoint {
        RhythmPoint { divisions, connect_next: None }
    }

    pub closed spec fn divisions(&self) -> u32 {
        self.divisions
    }

    pub closed spec fn connect_next(&self) -> Option<bool> {
        self.connect_next
    }

    pub fn get_divisions(&self) -> (r: u32)
        ensures
            r == self.divisions(),
    {
        self.divisions
    }

    pub fn get_connect_next(&self) -> (r: Option<bool>)
        ensures
            r == self.connect_next(),
    {
        self.connect_next
    }
}

/// A group of beats repeated a number of times.
pub struct TimeSignatureUnit {
    pub repetitions: u32,
    pub beat: Vec<RhythmPoint>,
}

impl TimeSignatureUnit {
    pub fn new(repetitions: u32, beat: Vec<RhythmPoint>) -> (r: TimeSignatureUnit)
        requires
            repetitions >= 1,
        ensures
            r.repetitions == repetitions,
            r.beat@ == beat@,
    {
        TimeSignatureUnit { repetitions, beat }
    }
}

/// A meter: one or more units played one after another.
pub struct TimeSignature {
    pub units: Vec<TimeSignatureUnit>,
}

/// Beat slots in one pass over `units`: each rhythm point is one slot,
/// times the repetitions of its unit.
pub open spec fn cycle_beats(units: Seq<TimeSignatureUnit>) -> int
    decreases units.len(),
{
    if units.len() == 0 {
        0
    } else {
        cycle_beats(units.drop_last()) + units.last().repetitions * units.last().beat@.len()
    }
}

proof fn lemma_cycle_beats_prefix(units: Seq<TimeSignatureUnit>, k: int)
    requires
        0 <= k <= units.len(),
    ensures
        0 <= cycle_beats(units.subrange(0, k)) <= cycle_beats(units),
    decreases units.len(),
{
    if units.len() == 0 {
        assert(units.subrange(0, k) =~= units);
    } else if k == units.len() {
        assert(units.subrange(0, k) =~= units);
        lemma_cycle_beats_prefix(units.drop_last(), 0);
        assert(units.drop_last().subrange(0, 0) =~= units.subrange(0, 0));
    } else {
        let t = units.drop_last();
        assert(units.subrange(0, k) =~= t.subrange(0, k));
        lemma_cycle_beats_prefix(t, k);
        lemma_cycle_beats_prefix(t, t.len() as int);
        assert(t.subrange(0, t.len() as int) =~= t);
        assert(units.last().repetitions * units.last().beat@.len() >= 0) by (nonlinear_arith);
    }
}

impl TimeSignature {
    pub fn new(units: Vec<TimeSignatureUnit>) -> (r: TimeSignature)
        requires
            units@.len() > 0,
        ensures
            r.units@ == units@,
    {
        TimeSignature { units }
    }

    /// Beat slots in one cycle of the meter; `None` where that count does
    /// not fit a `u64`.
    pub fn total_beats_per_cycle(&self) -> (r: Option<u64>)
        ensures
            r matches Some(n) ==> n == cycle_beats(self.units@),
            r is None ==> cycle_beats(self.units@) > u64::MAX,
    {
        let mut total: u128 = 0;
        let mut i: usize = 0;
        while i < self.units.len()
            invariant
                0 <= i <= self.units@.len(),
                total == cycle_beats(self.units@.subrange(0, i as int)),
                total <= u64::MAX,
            decreases self.units@.len() - i,
        {
            let unit = &self.units[i];
            let reps = unit.repetitions as u128;
            let slots = unit.beat.len() as u128;
            assert(reps * slots <= 0xffff_ffff * 0xffff_ffff_ffff_ffff) by (nonlinear_arith)
                requires reps <= 0xffff_ffff, slots <= 0xffff_ffff_ffff_ffff;
            proof {
                let p = self.units@.subrange(0, i + 1);
                assert(p.drop_last() =~= self.units@.subrange(0, i as int));
            }
            total = total + reps * slots;
            i = i + 1;
            if total > u64::MAX as u128 {
                proof {
                    lemma_cycle_beats_prefix(self.units@, i as int);
                }
                return None;
            }
        }
        assert(self.units@.subrange(0, i as int) =~= self.units@);
        Some(total as u64)
    }
}

/// A tonal centre: a label and a root on the pitch scale.
pub struct Key {
    pub name: String,
    pub root: Pitch,
}

impl Key {
    pub fn new(name: String, root: Pitch) -> (r: Key)
        ensures
            r.name@ == name@,
            r.root == root,
    {
        Key { name, root }
    }
}

/// The instrument that plays a track.
#[derive(Clone, Copy, Debug, PartialEq, Eq, Structural)]
pub struct Instrument {}

impl Instrument {
    pub fn new() -> (r: Instrument) {
        Instrument {}
    }
}

/// Information about a project beyond its content.
#[derive(Clone, Copy, Debug, PartialEq, Eq, Structural)]
pub struct ProjectMetadata {}

impl ProjectMetadata {
    pub fn new() -> (r: ProjectMetadata) {
        ProjectMetadata {}
    }
}

/// A sample of a note's expression curve: pitch and velocity at a beat
/// offset (in ticks) from the note's start.
#[derive(Clone, Copy, Debug, PartialEq, Eq, Structural)]
pub struct PitchPoint {
    pub pitch: Pitch,
    pub velocity: u32,
    pub rel_beat: u32,
}

impl PitchPoint {
    pub fn new(pitch: Pitch, velocity: u32, rel_beat: u32) -> (r: PitchPoint)
        requires
            velocity <= MAX_VELOCITY,
        ensures
            r == (PitchPoint { pitch, velocity, rel_beat }),
    {
        PitchPoint { pitch, velocity, rel_beat }
    }
}

/// Offsets strictly ascending.
pub open spec fn points_sorted(s: Seq<PitchPoint>) -> bool {
    forall|i: int, j: int| 0 <= i < j < s.len() ==> #[trigger] s[i].rel_beat < #[trigger] s[j].rel_beat
}

/// The straight line through `(x0, y0)` and `(x1, y1)` at `x`, rounded down.
pub open spec fn lerp(y0: int, y1: int, x0: int, x1: int, x: int) -> int {
    y0 + (y1 - y0) * (x - x0) / (x1 - x0)
}

/// The value of a sampled curve at `x`: linear between the two samples
/// around `x`, held at the end samples outside them. `ys[i]` is the value
/// at the offset of `pts[i]`.
pub open spec fn sample_at(pts: Seq<PitchPoint>, ys: Seq<int>, x: int, r: int) -> bool {
    &&& x <= pts[0].rel_beat ==> r == ys[0]
    &&& x >= pts.last().rel_beat ==> r == ys.last()
    &&& forall|i: int|
        0 <= i < pts.len() - 1 && pts[i].rel_beat <= x < #[trigger] pts[i + 1].rel_beat ==> r == lerp(
            ys[i],
            ys[i + 1],
            pts[i].rel_beat as int,
            pts[i + 1].rel_beat as int,
            x,
        )
}

pub open spec fn pitch_values(pts: Seq<PitchPoint>) -> Seq<int> {
    pts.map_values(|p: PitchPoint| p.pitch.cents as int)
}

pub open spec fn velocity_values(pts: Seq<PitchPoint>) -> Seq<int> {
    pts.map_values(|p: PitchPoint| p.velocity as int)
}

/// The bracket of `x`: `r + 1` is a sample after `x`, and `r` the last
/// sample not after it; or `None` where `x` lies outside the samples.
fn bracket(pts: &Vec<PitchPoint>, x: i64) -> (r: Option<usize>)
    requires
        pts@.len() > 0,
        points_sorted(pts@),
    ensures
        r is None ==> x <= pts@[0].rel_beat || x >= pts@.last().rel_beat,
        r matches Some(i) ==> i + 1 < pts@.len() && pts@[i as int].rel_beat <= x < pts@[i + 1].rel_beat
            && pts@[0].rel_beat < x < pts@.last().rel_beat,
{
    let n = pts.len();
    if x <= pts[0].rel_beat as i64 || x >= pts[n - 1].rel_beat as i64 {
        return None;
    }
    let mut i: usize = 0;
    while i + 2 < n && pts[i + 1].rel_beat as i64 <= x
        invariant
            0 <= i < n - 1,
            n == pts@.len(),
            pts@[i as int].rel_beat <= x,
            x < pts@[n - 1].rel_beat,
        decreases n - i,
    {
        i = i + 1;
    }
    Some(i)
}

/// Where `x` lies between `x0` and `x1`, the line from `y0` to `y1` there.
fn interpolate(y0: i64, y1: i64, x0: u32, x1: u32, x: i64) -> (r: i64)
    requires
        x0 <= x < x1,
    ensures
        r == lerp(y0 as int, y1 as int, x0 as int, x1 as int, x as int),
        y0 <= y1 ==> y0 <= r <= y1,
        y1 < y0 ==> y1 <= r <= y0,
{
    let dy = y1 as i128 - y0 as i128;
    let dx = (x - x0 as i64) as i128;
    let span = (x1 - x0) as i128;
    assert(-0x1_0000_0000_0000_0000 * 0x1_0000_0000 <= dy * dx <= 0x1_0000_0000_0000_0000 * 0x1_0000_0000)
        by (nonlinear_arith)
        requires
            -0x1_0000_0000_0000_0000 <= dy <= 0x1_0000_0000_0000_0000,
            0 <= dx <= 0x1_0000_0000;
    let num = dy * dx;
    proof {
        let d = dy as int;
        let t = dx as int;
        let w = span as int;
        if d >= 0 {
            assert(0 <= d * t <= d * w) by (nonlinear_arith)
                requires d >= 0, 0 <= t < w;
            vstd::arithmetic::div_mod::lemma_div_is_ordered(0, d * t, w);
            vstd::arithmetic::div_mod::lemma_div_is_ordered(d * t, d * w, w);
            vstd::arithmetic::div_mod::lemma_div_multiples_vanish(d, w);
            assert(0 <= (d * t) / w <= d);
        } else {
            assert(d * w <= d * t <= 0) by (nonlinear_arith)
                requires d < 0, 0 <= t < w;
            vstd::arithmetic::div_mod::lemma_div_is_ordered(d * w, d * t, w);
            vstd::arithmetic::div_mod::lemma_div_is_ordered(d * t, 0, w);
            vstd::arithmetic::div_mod::lemma_div_multiples_vanish(d, w);
            assert(w * d == d * w) by (nonlinear_arith);
            assert(d <= (d * t) / w <= 0);
        }
    }
    let q = num.checked_div_euclid(span).unwrap();
    (y0 as i128 + q) as i64
}

proof fn lemma_unique_bracket(pts: Seq<PitchPoint>, x: int, i: int, j: int)
    requires
        points_sorted(pts),
        0 <= i < pts.len() - 1,
        0 <= j < pts.len() - 1,
        pts[i].rel_beat <= x < pts[i + 1].rel_beat,
        pts[j].rel_beat <= x < pts[j + 1].rel_beat,
    ensures
        i == j,
{
    if i < j && i + 1 < j {
        assert(pts[i + 1].rel_beat < pts[j].rel_beat);
    }
    if j < i && j + 1 < i {
        assert(pts[j + 1].rel_beat < pts[i].rel_beat);
    }
}

/// What a sampled curve holds at `x`, given the bracket that `bracket`
/// found for it.
proof fn lemma_sample(pts: Seq<PitchPoint>, ys: Seq<int>, x: int, b: Option<usize>, r: int)
    requires
        pts.len() > 0,
        ys.len() == pts.len(),
        points_sorted(pts),
        b is None ==> x <= pts[0].rel_beat || x >= pts.last().rel_beat,
        b is None && x <= pts[0].rel_beat ==> r == ys[0],
        b is None && x > pts[0].rel_beat ==> r == ys.last(),
        b matches Some(k) ==> k + 1 < pts.len() && pts[k as int].rel_beat <= x < pts[k + 1].rel_beat
            && pts[0].rel_beat < x < pts.last().rel_beat && r == lerp(
            ys[k as int],
            ys[k + 1],
            pts[k as int].rel_beat as int,
            pts[k + 1].rel_beat as int,
            x,
        ),
    ensures
        sample_at(pts, ys, x, r),
{
    let n = pts.len() as int;
    if n > 1 {
        assert(pts[0].rel_beat < pts[n - 1].rel_beat);
    }
    assert forall|i: int|
        0 <= i < pts.len() - 1 && pts[i].rel_beat <= x < #[trigger] pts[i + 1].rel_beat implies r == lerp(
        ys[i], ys[i + 1], pts[i].rel_beat as int, pts[i + 1].rel_beat as int, x) by {
        match b {
            Some(k) => {
                lemma_unique_bracket(pts, x, i, k as int);
            },
            None => {
                if i + 1 < n - 1 {
                    assert(pts[i + 1].rel_beat < pts[n - 1].rel_beat);
                }
                if i > 0 {
                    assert(pts[0].rel_beat < pts[i].rel_beat);
                }
                assert(i == 0 && x == pts[0].rel_beat);
                assert((ys[1] - ys[0]) * (x - x) == 0);
            },
        }
    }
}

/// A note from a start position to an end position, with its expression
/// curve.
pub struct Note {
    pub start_measure: u32,
    pub end_measure: u32,
    pub start_beat: u32,
    pub end_beat: u32,
    pub pitch_points: Vec<PitchPoint>,
}

impl Note {
    pub fn new(
        start_measure: u32,
        end_measure: u32,
        start_beat: u32,
        end_beat: u32,
        pitch_points: Vec<PitchPoint>,
    ) -> (r: Note)
        requires
            points_sorted(pitch_points@),
        ensures
            r.start_measure == start_measure,
            r.end_measure == end_measure,
            r.start_beat == start_beat,
            r.end_beat == end_beat,
            r.pitch_points@ == pitch_points@,
    {
        Note { start_measure, end_measure, start_beat, end_beat, pitch_points }
    }

    pub open spec fn start(&self) -> TimePoint {
        TimePoint { measure: self.start_measure, beat: self.start_beat }
    }

    pub open spec fn end(&self) -> TimePoint {
        TimePoint { measure: self.end_measure, beat: self.end_beat }
    }

    /// A note that ends where it starts: a grace note.
    pub fn is_zero_length(&self) -> (r: bool)
        ensures
            r == (self.start() == self.end()),
    {
        self.start_measure == self.end_measure && self.start_beat == self.end_beat
    }

    /// The pitch at `rel_beat` ticks from the start; `None` for a note with
    /// no samples.
    pub fn pitch_at(&self, rel_beat: i64) -> (r: Option<Pitch>)
        requires
            points_sorted(self.pitch_points@),
        ensures
            r is None <==> self.pitch_points@.len() == 0,
            r matches Some(p) ==> sample_at(
                self.pitch_points@,
                pitch_values(self.pitch_points@),
                rel_beat as int,
                p.cents as int,
            ),
    {
        let pts = &self.pitch_points;
        let n = pts.len();
        if n == 0 {
            return None;
        }
        let ghost ys = pitch_values(pts@);
        let b = bracket(pts, rel_beat);
        let c = match b {
            Some(i) => interpolate(pts[i].pitch.cents, pts[i + 1].pitch.cents, pts[i].rel_beat, pts[i + 1].rel_beat, rel_beat),
            None => if rel_beat <= pts[0].rel_beat as i64 {
                pts[0].pitch.cents
            } else {
                pts[n - 1].pitch.cents
            },
        };
        proof {
            lemma_sample(pts@, ys, rel_beat as int, b, c as int);
        }
        Some(Pitch::new(c))
    }

    /// The velocity at `rel_beat` ticks from the start, as `pitch_at`
    /// finds the pitch.
    pub fn velocity_at(&self, rel_beat: i64) -> (r: Option<u32>)
        requires
            points_sorted(self.pitch_points@),
            forall|i: int| 0 <= i < self.pitch_points@.len() ==> #[trigger] self.pitch_points@[i].velocity <= MAX_VELOCITY,
        ensures
            r is None <==> self.pitch_points@.len() == 0,
            r matches Some(v) ==> v <= MAX_VELOCITY && sample_at(
                self.pitch_points@,
                velocity_values(self.pitch_points@),
                rel_beat as int,
                v as int,
            ),
    {
        let pts = &self.pitch_points;
        let n = pts.len();
        if n == 0 {
            return None;
        }
        let ghost ys = velocity_values(pts@);
        let b = bracket(pts, rel_beat);
        let v = match b {
            Some(i) => {
                let w = interpolate(pts[i].velocity as i64, pts[i + 1].velocity as i64, pts[i].rel_beat, pts[i + 1].rel_beat, rel_beat);
                w as u32
            },
            None => if rel_beat <= pts[0].rel_beat as i64 {
                pts[0].velocity
            } else {
                pts[n - 1].velocity
            },
        };
        proof {
            lemma_sample(pts@, ys, rel_beat as int, b, v as int);
        }
        Some(v)
    }
}

/// One instrument's part: its notes and its beat grid.
pub struct Track {
    pub instrument: Instrument,
    pub notes: Vec<Note>,
    pub rhythm_points: Vec<RhythmPoint>,
}

impl Track {
    pub fn new(instrument: Instrument, notes: Vec<Note>, rhythm_points: Vec<RhythmPoint>) -> (r: Track)
        requires
            forall|i: int| 0 <= i < notes@.len() ==> !tp_lt(#[trigger] notes@[i].end(), notes@[i].start()),
        ensures
            r.instrument == instrument,
            r.notes@ == notes@,
            r.rhythm_points@ == rhythm_points@,
    {
        Track { instrument, notes, rhythm_points }
    }

    /// Appends a note; a note that ends before it starts is refused.
    pub fn add_note(&mut self, note: Note) -> (r: Result<(), ValidationError>)
        ensures
            tp_lt(note.end(), note.start()) ==> r == Err::<(), ValidationError>(ValidationError::InvalidRange)
                && final(self).notes@ == old(self).notes@,
            !tp_lt(note.end(), note.start()) ==> r is Ok && final(self).notes@ == old(self).notes@.push(note),
            final(self).instrument == old(self).instrument,
            final(self).rhythm_points@ == old(self).rhythm_points@,
    {
        let start = TimePoint { measure: note.start_measure, beat: note.start_beat };
        let end = TimePoint { measure: note.end_measure, beat: note.end_beat };
        if end.precedes(&start) {
            return Err(ValidationError::InvalidRange);
        }
        self.notes.push(note);
        Ok(())
    }
}

/// The content of a score: its names, its tempo, meter and key along the
/// timeline, and its tracks.
pub struct ProjectContent {
    pub name: String,
    pub artist: String,
    pub composer: Option<String>,
    /// Beats per minute, in thousandths.
    pub tempo: Vec<(TimePoint, u32)>,
    pub time_signature: Vec<(TimePoint, TimeSignature)>,
    pub key: Vec<(TimePoint, Key)>,
    pub tracks: Vec<Track>,
}

impl ProjectContent {
    /// Each of the three curves holds at least one entry, anchors ascending.
    pub open spec fn wf(&self) -> bool {
        &&& self.tempo@.len() > 0 && curve_sorted(self.tempo@)
        &&& self.time_signature@.len() > 0 && curve_sorted(self.time_signature@)
        &&& self.key@.len() > 0 && curve_sorted(self.key@)
    }

    /// Builds content whose curves are not empty and ascend; an empty
    /// curve is refused before an unordered one.
    pub fn new(
        name: String,
        artist: String,
        composer: Option<String>,
        tempo: Vec<(TimePoint, u32)>,
        time_signature: Vec<(TimePoint, TimeSignature)>,
        key: Vec<(TimePoint, Key)>,
        tracks: Vec<Track>,
    ) -> (r: Result<ProjectContent, ValidationError>)
        ensures
            (tempo@.len() == 0 || time_signature@.len() == 0 || key@.len() == 0) ==> r
                == Err::<ProjectContent, ValidationError>(ValidationError::EmptyTimedSequence),
            (tempo@.len() > 0 && time_signature@.len() > 0 && key@.len() > 0 && !(curve_sorted(tempo@)
                && curve_sorted(time_signature@) && curve_sorted(key@))) ==> r
                == Err::<ProjectContent, ValidationError>(ValidationError::UnorderedTimedSequence),
            r matches Ok(c) ==> c.wf() && c.name@ == name@ && c.artist@ == artist@ && c.composer
                == composer && c.tempo@ == tempo@ && c.time_signature@ == time_signature@ && c.key@
                == key@ && c.tracks@ == tracks@,
            (tempo@.len() > 0 && time_signature@.len() > 0 && key@.len() > 0 && curve_sorted(tempo@)
                && curve_sorted(time_signature@) && curve_sorted(key@)) ==> r is Ok,
    {
        if tempo.len() == 0 || time_signature.len() == 0 || key.len() == 0 {
            return Err(ValidationError::EmptyTimedSequence);
        }
        if !check_sorted(&tempo) || !check_sorted(&time_signature) || !check_sorted(&key) {
            return Err(ValidationError::UnorderedTimedSequence);
        }
        Ok(ProjectContent { name, artist, composer, tempo, time_signature, key, tracks })
    }

    pub fn with_name(self, name: String) -> (r: ProjectContent)
        ensures
            r.composer == self.composer,
            r.name@ == name@,
            r.artist@ == self.artist@,
            r.tempo@ == self.tempo@,
            r.time_signature@ == self.time_signature@,
            r.key@ == self.key@,
            r.tracks@ == self.tracks@,
    {
        let mut c = self;
        c.name = name;
        c
    }

    pub fn set_name(&mut self, name: String)
        ensures
            final(self).artist@ == old(self).artist@,
            final(self).composer == old(self).composer,
            final(self).name@ == name@,
            final(self).tempo@ == old(self).tempo@,
            final(self).time_signature@ == old(self).time_signature@,
            final(self).key@ == old(self).key@,
            final(self).tracks@ == old(self).tracks@,
    {
        self.name = name;
    }

    /// Sets the opening tempo, in thousandths of a beat per minute.
    pub fn with_tempo(self, tempo: u32) -> (r: ProjectContent)
        requires
            self.wf(),
        ensures
            r.name@ == self.name@,
            r.artist@ == self.artist@,
            r.composer == self.composer,
            r.wf(),
            exists|k: int| insertion_point(self.tempo@, timeline_start(), k) && r.tempo@ == curve_with(self.tempo@, timeline_start(), tempo, k),
            r.time_signature@ == self.time_signature@,
            r.key@ == self.key@,
            r.tracks@ == self.tracks@,
    {
        let mut c = self;
        c.set_tempo(tempo);
        c
    }

    /// Sets the opening tempo, in thousandths of a beat per minute.
    pub fn set_tempo(&mut self, tempo: u32)
        requires
            old(self).wf(),
        ensures
            final(self).name@ == old(self).name@,
            final(self).artist@ == old(self).artist@,
            final(self).composer == old(self).composer,
            final(self).wf(),
            exists|k: int| insertion_point(old(self).tempo@, timeline_start(), k) && final(self).tempo@ == curve_with(old(self).tempo@, timeline_start(), tempo, k),
            final(self).time_signature@ == old(self).time_signature@,
            final(self).key@ == old(self).key@,
            final(self).tracks@ == old(self).tracks@,
    {
        self.set_tempo_at(TimePoint::start(), tempo);
    }

    pub fn with_time_signature(self, time_signature: TimeSignature) -> (r: ProjectContent)
        requires
            self.wf(),
        ensures
            r.name@ == self.name@,
            r.artist@ == self.artist@,
            r.composer == self.composer,
            r.wf(),
            exists|k: int| insertion_point(self.time_signature@, timeline_start(), k) && r.time_signature@ == curve_with(self.time_signature@, timeline_start(), time_signature, k),
            r.tempo@ == self.tempo@,
            r.key@ == self.key@,
            r.tracks@ == self.tracks@,
    {
        let mut c = self;
        c.set_time_signature(time_signature);
        c
    }

    /// Sets the opening meter.
    pub fn set_time_signature(&mut self, time_signature: TimeSignature)
        requires
            old(self).wf(),
        ensures
            final(self).name@ == old(self).name@,
            final(self).artist@ == old(self).artist@,
            final(self).composer == old(self).composer,
            final(self).wf(),
            exists|k: int| insertion_point(old(self).time_signature@, timeline_start(), k) && final(self).time_signature@ == curve_with(old(self).time_signature@, timeline_start(), time_signature, k),
            final(self).tempo@ == old(self).tempo@,
            final(self).key@ == old(self).key@,
            final(self).tracks@ == old(self).tracks@,
    {
        self.set_time_signature_at(TimePoint::start(), time_signature);
    }

    /// Sets the opening key.
    pub fn with_key(self, key: Key) -> (r: ProjectContent)
        requires
            self.wf(),
        ensures
            r.name@ == self.name@,
            r.artist@ == self.artist@,
            r.composer == self.composer,
            r.wf(),
            exists|k: int| insertion_point(self.key@, timeline_start(), k) && r.key@ == curve_with(self.key@, timeline_start(), key, k),
            r.tempo@ == self.tempo@,
            r.time_signature@ == self.time_signature@,
            r.tracks@ == self.tracks@,
    {
        let mut c = self;
        c.set_key_at(TimePoint::start(), key);
        c
    }

    pub fn with_track(self, track: Track) -> (r: ProjectContent)
        ensures
            r.name@ == self.name@,
            r.artist@ == self.artist@,
            r.composer == self.composer,
            r.tracks@ == self.tracks@.push(track),
            r.tempo@ == self.tempo@,
            r.time_signature@ == self.time_signature@,
            r.key@ == self.key@,
    {
        let mut c = self;
        c.set_track(track);
        c
    }

    /// Appends a track after those already there.
    pub fn set_track(&mut self, track: Track)
        ensures
            final(self).name@ == old(self).name@,
            final(self).artist@ == old(self).artist@,
            final(self).composer == old(self).composer,
            final(self).tracks@ == old(self).tracks@.push(track),
            final(self).tempo@ == old(self).tempo@,
            final(self).time_signature@ == old(self).time_signature@,
            final(self).key@ == old(self).key@,
    {
        self.tracks.push(track);
    }

    /// Writes a tempo at a position: an entry anchored there is replaced,
    /// otherwise one is inserted in order.
    pub fn set_tempo_at(&mut self, at: TimePoint, tempo: u32)
        requires
            old(self).wf(),
        ensures
            final(self).name@ == old(self).name@,
            final(self).artist@ == old(self).artist@,
            final(self).composer == old(self).composer,
            final(self).wf(),
            exists|k: int| insertion_point(old(self).tempo@, at, k) && final(self).tempo@ == curve_with(old(self).tempo@, at, tempo, k),
            final(self).time_signature@ == old(self).time_signature@,
            final(self).key@ == old(self).key@,
            final(self).tracks@ == old(self).tracks@,
    {
        set_value_at(&mut self.tempo, at, tempo);
    }

    /// Writes a meter at a position, as `set_tempo_at` does a tempo.
    pub fn set_time_signature_at(&mut self, at: TimePoint, time_signature: TimeSignature)
        requires
            old(self).wf(),
        ensures
            final(self).name@ == old(self).name@,
            final(self).artist@ == old(self).artist@,
            final(self).composer == old(self).composer,
            final(self).wf(),
            exists|k: int| insertion_point(old(self).time_signature@, at, k) && final(self).time_signature@ == curve_with(old(self).time_signature@, at, time_signature, k),
            final(self).tempo@ == old(self).tempo@,
            final(self).key@ == old(self).key@,
            final(self).tracks@ == old(self).tracks@,
    {
        set_value_at(&mut self.time_signature, at, time_signature);
    }

    /// Writes a key at a position, as `set_tempo_at` does a tempo.
    pub fn set_key_at(&mut self, at: TimePoint, key: Key)
        requires
            old(self).wf(),
        ensures
            final(self).name@ == old(self).name@,
            final(self).artist@ == old(self).artist@,
            final(self).composer == old(self).composer,
            final(self).wf(),
            exists|k: int| insertion_point(old(self).key@, at, k) && final(self).key@ == curve_with(old(self).key@, at, key, k),
            final(self).tempo@ == old(self).tempo@,
            final(self).time_signature@ == old(self).time_signature@,
            final(self).tracks@ == old(self).tracks@,
    {
        set_value_at(&mut self.key, at, key);
    }

    /// The tempo in effect at a position.
    pub fn tempo_at(&self, at: &TimePoint) -> (r: u32)
        requires
            self.wf(),
        ensures
            exists|i: int| in_effect(self.tempo@, *at, i) && r == self.tempo@[i].1,
            forall|i: int| in_effect(self.tempo@, *at, i) ==> r == self.tempo@[i].1,
    {
        *value_in_effect_at(&self.tempo, at)
    }

    /// The meter in effect at a position.
    pub fn time_signature_at(&self, at: &TimePoint) -> (r: &TimeSignature)
        requires
            self.wf(),
        ensures
            exists|i: int| in_effect(self.time_signature@, *at, i) && *r == self.time_signature@[i].1,
            forall|i: int| in_effect(self.time_signature@, *at, i) ==> *r == self.time_signature@[i].1,
    {
        value_in_effect_at(&self.time_signature, at)
    }

    /// The key in effect at a position.
    pub fn key_at(&self, at: &TimePoint) -> (r: &Key)
        requires
            self.wf(),
        ensures
            exists|i: int| in_effect(self.key@, *at, i) && *r == self.key@[i].1,
            forall|i: int| in_effect(self.key@, *at, i) ==> *r == self.key@[i].1,
    {
        value_in_effect_at(&self.key, at)
    }
}

/// A composition: its metadata and its content.
pub struct Project {
    pub metadata: ProjectMetadata,
    pub content: ProjectContent,
}

impl Project {
    pub fn new(metadata: ProjectMetadata, content: ProjectContent) -> (r: Project)
        ensures
            r.metadata == metadata,
            r.content == content,
    {
        Project { metadata, content }
    }
}

/// The opening tempo of fresh content: 120 beats per minute.
pub const DEFAULT_TEMPO: u32 = 120_000;

impl Default for TimeSignatureUnit {
    /// Four rests.
    fn default() -> (r: TimeSignatureUnit)
        ensures
            r.repetitions == 4,
            r.beat@ == seq![RhythmPoint::new_spec(0)],
    {
        TimeSignatureUnit::new(4, vec![RhythmPoint::new(0)])
    }
}

impl Default for TimeSignature {
    /// One unit of four rests.
    fn default() -> (r: TimeSignature)
        ensures
            r.units@.len() == 1,
            r.units@[0].repetitions == 4,
            r.units@[0].beat@ == seq![RhythmPoint::new_spec(0)],
    {
        TimeSignature::new(vec![TimeSignatureUnit::default()])
    }
}

impl Default for Key {
    /// C, rooted at pitch 0.
    fn default() -> (r: Key)
        ensures
            r.name@ == "C"@,
            r.root.cents == 0,
    {
        let mut name = String::new();
        name.append("C");
        assert(name@ =~= "C"@);
        Key::new(name, Pitch::new(0))
    }
}

impl Default for Instrument {
    fn default() -> (r: Instrument) {
        Instrument::new()
    }
}

impl Default for ProjectMetadata {
    fn default() -> (r: ProjectMetadata) {
        ProjectMetadata::new()
    }
}

impl Default for Track {
    /// No notes and no rhythm points.
    fn default() -> (r: Track)
        ensures
            r.notes@.len() == 0,
            r.rhythm_points@.len() == 0,
    {
        Track::new(Instrument::new(), Vec::new(), Vec::new())
    }
}

impl Default for ProjectContent {
    /// An unnamed score at 120 beats per minute, in C, in a meter of four
    /// rests, with no tracks.
    fn default() -> (r: ProjectContent)
        ensures
            r.wf(),
            r.name@ == "Unnamed Score"@,
            r.artist@ == "Unknown Artist"@,
            r.composer is None,
            r.tempo@ == seq![(timeline_start(), DEFAULT_TEMPO)],
            r.time_signature@.len() == 1 && r.time_signature@[0].0 == timeline_start(),
            r.time_signature@[0].1.units@.len() == 1,
            r.time_signature@[0].1.units@[0].repetitions == 4,
            r.time_signature@[0].1.units@[0].beat@ == seq![RhythmPoint::new_spec(0)],
            r.key@.len() == 1 && r.key@[0].0 == timeline_start() && r.key@[0].1.name@ == "C"@,
            r.key@[0].1.root.cents == 0,
            r.tracks@.len() == 0,
    {
        let mut name = String::new();
        name.append("Unnamed Score");
        assert(name@ =~= "Unnamed Score"@);
        let mut artist = String::new();
        artist.append("Unknown Artist");
        assert(artist@ =~= "Unknown Artist"@);
        let tempo = vec![(TimePoint::start(), DEFAULT_TEMPO)];
        let time_signature = vec![(TimePoint::start(), TimeSignature::default())];
        let key = vec![(TimePoint::start(), Key::default())];
        assert(tempo@ =~= seq![(timeline_start(), DEFAULT_TEMPO)]);
        ProjectContent { name, artist, composer: None, tempo, time_signature, key, tracks: Vec::new() }
    }
}

impl Default for Project {
    fn default() -> (r: Project)
        ensures
            r.content.wf(),
            r.content.tempo@ == seq![(timeline_start(), DEFAULT_TEMPO)],
            r.content.tracks@.len() == 0,
    {
        Project::new(ProjectMetadata::new(), ProjectContent::default())
    }
}

} // verus!
