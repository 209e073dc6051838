//! Fret positions, fingering patterns, and the four measurements taken over a
//! sequence of positions.

use crate::tuning::{bass_4_view, TuningView};
use vstd::prelude::*;

verus! {

/// The longest pattern whose measurements are certain to fit in 32 bits:
/// a step moves the hand by at most 255, and 255 * 16_843_009 is `u32::MAX`.
pub const MAX_PATTERN_LEN: usize = 16_843_010;

/// The left-hand zone of a fret: 0 for the open string, otherwise the first
/// fret of the four-fret group the fret lies in (1, 5, 9, ...).
pub open spec fn zone_of(fret: int) -> int {
    if fret <= 0 {
        0
    } else {
        ((fret - 1) / 4) * 4 + 1
    }
}

/// The absolute difference of two numbers.
pub open spec fn distance(a: int, b: int) -> int {
    if a >= b {
        a - b
    } else {
        b - a
    }
}

/// The open pitch of a string on the four-string reference instrument
/// (string 4 sounds 0, string 3 sounds 5, string 2 sounds 10, string 1 sounds
/// 15); 0 for any other string number.
pub open spec fn reference_offset(string: int) -> int {
    if string == 1 {
        15
    } else if string == 2 {
        10
    } else if string == 3 {
        5
    } else {
        0
    }
}

/// One place on the fingerboard.
#[derive(Debug, Clone, Copy, PartialEq, Eq)]
pub struct FretPosition {
    /// String number; 1 is the highest-pitched string.
    pub string: u8,
    /// Fret number; 0 is the open string.
    pub fret: u8,
    /// Suggested finger (1 = index ... 4 = little finger), if any.
    pub finger: Option<u8>,
}

impl FretPosition {
    /// The position on the given string at the given fret, with no finger
    /// named.
    pub fn new(string: u8, fret: u8) -> (r: Self)
        ensures
            r == (FretPosition { string, fret, finger: None }),
    {
        Self { string, fret, finger: None }
    }

    /// The same position, played with the given finger.
    pub fn with_finger(self, finger: u8) -> (r: Self)
        ensures
            r == (FretPosition { string: self.string, fret: self.fret, finger: Some(finger) }),
    {
        Self { string: self.string, fret: self.fret, finger: Some(finger) }
    }

    /// The left-hand zone this position lies in.
    pub fn position(&self) -> (r: u8)
        ensures
            r == zone_of(self.fret as int),
    {
        if self.fret == 0 {
            0
        } else {
            ((self.fret - 1) / 4) * 4 + 1
        }
    }

    /// The pitch this position sounds on the four-string reference
    /// instrument, in semitones above its lowest open string.
    pub fn absolute_pitch(&self) -> (r: u8)
        requires
            reference_offset(self.string as int) + self.fret <= u8::MAX,
        ensures
            r == reference_offset(self.string as int) + self.fret,
    {
        let string_offset: u8 = if self.string == 1 {
            15
        } else if self.string == 2 {
            10
        } else if self.string == 3 {
            5
        } else {
            0
        };
        string_offset + self.fret
    }

    /// The pitch this position sounds under a tuning: the open pitch of its
    /// string plus its fret.
    pub open spec fn pitch_in(self, tuning: TuningView) -> int
        recommends
            1 <= self.string <= tuning.strings.len(),
    {
        tuning.offset_of_string(self.string as int) + self.fret
    }
}

/// How far the hand moves from one position to the next: the fret distance
/// on one string; on a change of string, 1 plus half the fret distance.
pub open spec fn step_movement(prev: FretPosition, next: FretPosition) -> int {
    if prev.string == next.string {
        distance(prev.fret as int, next.fret as int)
    } else {
        1 + distance(prev.fret as int, next.fret as int) / 2
    }
}

/// Whether the hand changes zone between two positions. An open string on
/// either side never counts as a change.
pub open spec fn changes_zone(prev: FretPosition, next: FretPosition) -> bool {
    let a = zone_of(prev.fret as int);
    let b = zone_of(next.fret as int);
    a != b && a != 0 && b != 0
}

/// Whether two positions lie on different strings.
pub open spec fn changes_string(prev: FretPosition, next: FretPosition) -> bool {
    prev.string != next.string
}

/// The cost of each step when measuring movement.
pub open spec fn movement_cost() -> spec_fn(FretPosition, FretPosition) -> int {
    |prev: FretPosition, next: FretPosition| step_movement(prev, next)
}

/// 1 for a step that changes zone, else 0.
pub open spec fn zone_change_cost() -> spec_fn(FretPosition, FretPosition) -> int {
    |prev: FretPosition, next: FretPosition|
        if changes_zone(prev, next) {
            1int
        } else {
            0int
        }
}

/// 1 for a step that changes string, else 0.
pub open spec fn string_change_cost() -> spec_fn(FretPosition, FretPosition) -> int {
    |prev: FretPosition, next: FretPosition|
        if changes_string(prev, next) {
            1int
        } else {
            0int
        }
}

/// The sum of `cost` over the consecutive pairs among the first `n`
/// positions of `s`.
pub open spec fn sum_over_steps(
    s: Seq<FretPosition>,
    cost: spec_fn(FretPosition, FretPosition) -> int,
    n: int,
) -> int
    decreases n,
{
    if n <= 1 {
        0
    } else {
        sum_over_steps(s, cost, n - 1) + cost(s[n - 2], s[n - 1])
    }
}

/// The number of open-string positions among the first `n` positions of `s`.
pub open spec fn open_strings_among(s: Seq<FretPosition>, n: int) -> int
    decreases n,
{
    if n <= 0 {
        0
    } else {
        open_strings_among(s, n - 1) + if s[n - 1].fret == 0 {
            1int
        } else {
            0int
        }
    }
}

/// Total hand movement along a sequence of positions.
pub open spec fn total_movement(s: Seq<FretPosition>) -> int {
    sum_over_steps(s, movement_cost(), s.len() as int)
}

/// Number of steps that change the left-hand zone.
pub open spec fn position_changes(s: Seq<FretPosition>) -> int {
    sum_over_steps(s, zone_change_cost(), s.len() as int)
}

/// Number of positions played on an open string.
pub open spec fn open_string_count(s: Seq<FretPosition>) -> int {
    open_strings_among(s, s.len() as int)
}

/// Number of steps that change string.
pub open spec fn string_changes(s: Seq<FretPosition>) -> int {
    sum_over_steps(s, string_change_cost(), s.len() as int)
}

/// All four measurements of the sequence fit in 32 bits.
pub open spec fn measurable(s: Seq<FretPosition>) -> bool {
    &&& total_movement(s) <= u32::MAX
    &&& position_changes(s) <= u32::MAX
    &&& open_string_count(s) <= u32::MAX
    &&& string_changes(s) <= u32::MAX
}

/// A sum over steps whose costs lie between 0 and `bound` grows with the
/// number of steps and stays within `bound` per step.
pub proof fn lemma_sum_over_steps_bounds(
    s: Seq<FretPosition>,
    cost: spec_fn(FretPosition, FretPosition) -> int,
    bound: int,
    m: int,
    n: int,
)
    requires
        0 <= m <= n <= s.len(),
        forall|a: FretPosition, b: FretPosition| 0 <= #[trigger] cost(a, b) <= bound,
    ensures
        0 <= sum_over_steps(s, cost, m) <= sum_over_steps(s, cost, n),
        sum_over_steps(s, cost, n) <= bound * if n >= 1 {
            n - 1
        } else {
            0
        },
    decreases n,
{
    if n <= 1 {
        assert(sum_over_steps(s, cost, m) == 0);
        assert(bound * 0 == 0);
    } else {
        if m < n {
            lemma_sum_over_steps_bounds(s, cost, bound, m, n - 1);
        } else {
            lemma_sum_over_steps_bounds(s, cost, bound, n - 1, n - 1);
        }
        assert(0 <= cost(s[n - 2], s[n - 1]) <= bound);
        assert(bound * (n - 1) == bound * (n - 2) + bound) by (nonlinear_arith);
    }
}

/// The count of open strings grows with the number of positions looked at
/// and never exceeds it.
pub proof fn lemma_open_strings_bounds(s: Seq<FretPosition>, m: int, n: int)
    requires
        0 <= m <= n <= s.len(),
    ensures
        0 <= open_strings_among(s, m) <= open_strings_among(s, n) <= n,
    decreases n,
{
    if n > 0 {
        if m < n {
            lemma_open_strings_bounds(s, m, n - 1);
        } else {
            lemma_open_strings_bounds(s, n - 1, n - 1);
        }
    }
}

/// None of the four measurements is negative.
pub proof fn lemma_metrics_nonnegative(s: Seq<FretPosition>)
    ensures
        total_movement(s) >= 0,
        position_changes(s) >= 0,
        open_string_count(s) >= 0,
        string_changes(s) >= 0,
{
    let n = s.len() as int;
    lemma_sum_over_steps_bounds(s, movement_cost(), 255, n, n);
    lemma_sum_over_steps_bounds(s, zone_change_cost(), 1, n, n);
    lemma_sum_over_steps_bounds(s, string_change_cost(), 1, n, n);
    lemma_open_strings_bounds(s, n, n);
}

/// The three measurements taken over steps are 0 for a sequence of at most
/// one position.
pub proof fn lemma_step_metrics_zero_when_short(s: Seq<FretPosition>)
    requires
        s.len() <= 1,
    ensures
        total_movement(s) == 0,
        position_changes(s) == 0,
        string_changes(s) == 0,
{
}

/// The open-string count is 0 for a sequence of at most one position, unless
/// that one position is an open string.
pub proof fn lemma_open_string_count_zero_when_short(s: Seq<FretPosition>)
    requires
        s.len() <= 1,
        s.len() == 1 ==> s[0].fret != 0,
    ensures
        open_string_count(s) == 0,
{
    if s.len() == 1 {
        assert(open_strings_among(s, 0) == 0);
    }
}

/// There are no more open-string positions than positions.
pub proof fn lemma_open_string_count_at_most_len(s: Seq<FretPosition>)
    ensures
        open_string_count(s) <= s.len(),
{
    lemma_open_strings_bounds(s, s.len() as int, s.len() as int);
}

/// A sequence with at least one position has fewer string changes, and fewer
/// zone changes, than positions.
pub proof fn lemma_changes_at_most_steps(s: Seq<FretPosition>)
    requires
        s.len() >= 1,
    ensures
        string_changes(s) <= s.len() - 1,
        position_changes(s) <= s.len() - 1,
{
    let n = s.len() as int;
    lemma_sum_over_steps_bounds(s, string_change_cost(), 1, n, n);
    lemma_sum_over_steps_bounds(s, zone_change_cost(), 1, n, n);
}

/// Every pattern of at most [`MAX_PATTERN_LEN`] positions can be measured.
pub proof fn lemma_measurable_up_to_limit(s: Seq<FretPosition>)
    requires
        s.len() <= MAX_PATTERN_LEN,
    ensures
        measurable(s),
{
    let n = s.len() as int;
    lemma_sum_over_steps_bounds(s, movement_cost(), 255, n, n);
    lemma_sum_over_steps_bounds(s, zone_change_cost(), 1, n, n);
    lemma_sum_over_steps_bounds(s, string_change_cost(), 1, n, n);
    lemma_open_strings_bounds(s, n, n);
    if n >= 1 {
        assert(255 * (n - 1) <= u32::MAX) by (nonlinear_arith)
            requires
                1 <= n <= 16_843_010,
        ;
    }
}

/// The zone of the open string is 0; frets 1 to 4 lie in zone 1, frets 5 to 8
/// in zone 5, frets 9 to 12 in zone 9; and in general a fretted position lies
/// in the zone that starts at most three frets below it.
pub proof fn lemma_zone_boundaries(fret: int)
    ensures
        fret == 0 ==> zone_of(fret) == 0,
        1 <= fret <= 4 ==> zone_of(fret) == 1,
        5 <= fret <= 8 ==> zone_of(fret) == 5,
        9 <= fret <= 12 ==> zone_of(fret) == 9,
        fret >= 1 ==> zone_of(fret) <= fret <= zone_of(fret) + 3,
        fret >= 1 ==> zone_of(fret) % 4 == 1,
{
}

/// On strings 1 to 4 the reference instrument is the four-string standard
/// tuning.
pub proof fn lemma_reference_is_bass_4(string: int)
    requires
        1 <= string <= 4,
    ensures
        reference_offset(string) == bass_4_view().offset_of_string(string),
{
}

/// An ordered choice of positions, one per pitch, with the name of the
/// strategy that made it and its score.
#[derive(Debug, Clone, PartialEq, Eq)]
pub struct FingeringPattern {
    pub positions: Vec<FretPosition>,
    /// The score in tenths; lower is better.
    pub score: i64,
    pub algorithm: String,
}

/// What a [`FingeringPattern`] stands for.
pub struct FingeringPatternView {
    pub positions: Seq<FretPosition>,
    pub score: int,
    pub algorithm: Seq<char>,
}

impl View for FingeringPattern {
    type V = FingeringPatternView;

    open spec fn view(&self) -> FingeringPatternView {
        FingeringPatternView {
            positions: self.positions@,
            score: self.score as int,
            algorithm: self.algorithm@,
        }
    }
}

impl FingeringPattern {
    /// A pattern with score 0.
    pub fn new(positions: Vec<FretPosition>, algorithm: String) -> (r: Self)
        ensures
            r@ == (FingeringPatternView {
                positions: positions@,
                score: 0,
                algorithm: algorithm@,
            }),
    {
        Self { positions, score: 0, algorithm }
    }

    /// The same pattern with the given score, in tenths.
    pub fn with_score(self, score: i64) -> (r: Self)
        ensures
            r@ == (FingeringPatternView {
                positions: self@.positions,
                score: score as int,
                algorithm: self@.algorithm,
            }),
    {
        Self { positions: self.positions, score, algorithm: self.algorithm }
    }

    /// Total hand movement along the pattern.
    pub fn total_movement(&self) -> (r: u32)
        requires
            total_movement(self@.positions) <= u32::MAX,
        ensures
            r == total_movement(self@.positions),
    {
        let n = self.positions.len();
        let mut total: u32 = 0;
        let mut i: usize = 0;
        while i + 1 < n
            invariant
                i == 0 || i < n,
                n == self.positions.len(),
                total == sum_over_steps(self.positions@, movement_cost(), i + 1),
                total_movement(self@.positions) <= u32::MAX,
            decreases n - i,
        {
            let prev = self.positions[i];
            let next = self.positions[i + 1];
            let fret_distance: u32 = if prev.fret >= next.fret {
                (prev.fret - next.fret) as u32
            } else {
                (next.fret - prev.fret) as u32
            };
            let step: u32 = if prev.string == next.string {
                fret_distance
            } else {
                1 + fret_distance / 2
            };
            proof {
                assert(step == step_movement(prev, next));
                lemma_sum_over_steps_bounds(
                    self.positions@,
                    movement_cost(),
                    255,
                    i + 2,
                    n as int,
                );
            }
            total = total + step;
            i += 1;
        }
        total
    }

    /// Number of steps that change the left-hand zone.
    pub fn position_changes(&self) -> (r: u32)
        requires
            position_changes(self@.positions) <= u32::MAX,
        ensures
            r == position_changes(self@.positions),
    {
        let n = self.positions.len();
        let mut changes: u32 = 0;
        let mut i: usize = 0;
        while i + 1 < n
            invariant
                i == 0 || i < n,
                n == self.positions.len(),
                changes == sum_over_steps(self.positions@, zone_change_cost(), i + 1),
                position_changes(self@.positions) <= u32::MAX,
            decreases n - i,
        {
            let prev_zone = self.positions[i].position();
            let next_zone = self.positions[i + 1].position();
            proof {
                lemma_sum_over_steps_bounds(
                    self.positions@,
                    zone_change_cost(),
                    1,
                    i + 2,
                    n as int,
                );
            }
            if prev_zone != next_zone && next_zone != 0 && prev_zone != 0 {
                changes = changes + 1;
            }
            i += 1;
        }
        changes
    }

    /// Number of positions played on an open string.
    pub fn open_string_count(&self) -> (r: u32)
        requires
            open_string_count(self@.positions) <= u32::MAX,
        ensures
            r == open_string_count(self@.positions),
    {
        let n = self.positions.len();
        let mut count: u32 = 0;
        let mut i: usize = 0;
        while i < n
            invariant
                i <= n,
                n == self.positions.len(),
                count == open_strings_among(self.positions@, i as int),
                open_string_count(self@.positions) <= u32::MAX,
            decreases n - i,
        {
            proof {
                lemma_open_strings_bounds(self.positions@, i + 1, n as int);
            }
            if self.positions[i].fret == 0 {
                count = count + 1;
            }
            i += 1;
        }
        count
    }

    /// Number of steps that change string.
    pub fn string_changes(&self) -> (r: u32)
        requires
            string_changes(self@.positions) <= u32::MAX,
        ensures
            r == string_changes(self@.positions),
    {
        let n = self.positions.len();
        let mut changes: u32 = 0;
        let mut i: usize = 0;
        while i + 1 < n
            invariant
                i == 0 || i < n,
                n == self.positions.len(),
                changes == sum_over_steps(self.positions@, string_change_cost(), i + 1),
                string_changes(self@.positions) <= u32::MAX,
            decreases n - i,
        {
            proof {
                lemma_sum_over_steps_bounds(
                    self.positions@,
                    string_change_cost(),
                    1,
                    i + 2,
                    n as int,
                );
            }
            if self.positions[i].string != self.positions[i + 1].string {
                changes = changes + 1;
            }
            i += 1;
        }
        changes
    }
}

} // verus!
