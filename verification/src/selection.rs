//! Choosing one position per pitch.
//!
//! A rule ranks the candidates of a pitch by a key of two numbers, compared
//! by the first and then by the second. The candidate with the smallest key
//! is chosen; among candidates with the same key the one on the
//! lowest-pitched string, which comes first among the candidates.
//! Two of the rules look at the position chosen for the pitch before, the
//! other two rank every pitch on its own.

use crate::fretboard::{generate_all_positions, lemma_candidates};
use crate::position::{distance, zone_of, FretPosition};
use crate::tuning::{Tuning, TuningView};
use vstd::prelude::*;

verus! {

/// Why no fingering could be made.
#[derive(Debug, Clone, Copy, PartialEq, Eq)]
pub enum FingeringError {
    /// The pitch at `index` lies outside the range of the instrument. It is
    /// the first such pitch of the sequence.
    NoCandidatePosition { index: usize, pitch: i32 },
}

/// How the candidates of a pitch are ranked.
#[derive(Debug, Clone, Copy, PartialEq, Eq)]
pub enum SelectionRule {
    /// Stay as close as possible to the position before.
    Shortest,
    /// Stay as close as possible to the zone `base_position`.
    PositionStable { base_position: u8 },
    /// Play an open string wherever there is one.
    OpenString,
    /// Change string rather than move along one.
    StringPriority,
}

/// Whether key `a` ranks strictly before key `b`.
pub open spec fn key_less(a: (int, int), b: (int, int)) -> bool {
    a.0 < b.0 || (a.0 == b.0 && a.1 < b.1)
}

impl SelectionRule {
    /// The key of candidate `c`, where `prev` is the position chosen for the
    /// pitch before, if there was one.
    ///
    /// - `Shortest`: for the first pitch the fret, then the string number;
    ///   afterwards the fret distance from `prev` plus twice the string
    ///   distance.
    /// - `PositionStable`: the distance of the candidate's zone from the base
    ///   position, then the fret.
    /// - `OpenString`: an open string before any fretted position, fretted
    ///   positions by fret.
    /// - `StringPriority`: for the first pitch the distance from string 3,
    ///   then the fret; afterwards any candidate on another string than
    ///   `prev` before any on the same string, the former by string distance,
    ///   the latter by twice the fret distance.
    pub open spec fn key(self, prev: Option<FretPosition>, c: FretPosition) -> (int, int) {
        match self {
            SelectionRule::Shortest => match prev {
                None => (c.fret as int, c.string as int),
                Some(p) => (
                    distance(p.fret as int, c.fret as int) + 2 * distance(
                        p.string as int,
                        c.string as int,
                    ),
                    0int,
                ),
            },
            SelectionRule::PositionStable { base_position } => (
                distance(zone_of(c.fret as int), base_position as int),
                c.fret as int,
            ),
            SelectionRule::OpenString => if c.fret == 0 {
                (0int, 0int)
            } else {
                (1int, c.fret as int)
            },
            SelectionRule::StringPriority => match prev {
                None => (distance(c.string as int, 3), c.fret as int),
                Some(p) => if c.string != p.string {
                    (0int, distance(p.string as int, c.string as int))
                } else {
                    (1int, 2 * distance(p.fret as int, c.fret as int))
                },
            },
        }
    }

    /// Whether the candidate at index `i` is the one to choose: no candidate
    /// has a smaller key, and every candidate before it has a larger one.
    pub open spec fn is_best(
        self,
        prev: Option<FretPosition>,
        candidates: Seq<FretPosition>,
        i: int,
    ) -> bool {
        &&& 0 <= i < candidates.len()
        &&& forall|j: int|
            0 <= j < candidates.len() ==> !key_less(
                self.key(prev, #[trigger] candidates[j]),
                self.key(prev, candidates[i]),
            )
        &&& forall|j: int|
            0 <= j < i ==> key_less(
                self.key(prev, candidates[i]),
                self.key(prev, #[trigger] candidates[j]),
            )
    }

    /// The index of the candidate to choose.
    pub open spec fn best_index(
        self,
        prev: Option<FretPosition>,
        candidates: Seq<FretPosition>,
    ) -> int {
        choose|i: int| self.is_best(prev, candidates, i)
    }

    /// The candidate to choose.
    pub open spec fn choice(
        self,
        prev: Option<FretPosition>,
        candidates: Seq<FretPosition>,
    ) -> FretPosition {
        candidates[self.best_index(prev, candidates)]
    }

    /// At most one candidate is the one to choose.
    pub proof fn lemma_best_is_unique(
        self,
        prev: Option<FretPosition>,
        candidates: Seq<FretPosition>,
        i: int,
        j: int,
    )
        requires
            self.is_best(prev, candidates, i),
            self.is_best(prev, candidates, j),
        ensures
            i == j,
    {
        if i < j {
            assert(key_less(self.key(prev, candidates[j]), self.key(prev, candidates[i])));
        } else if j < i {
            assert(key_less(self.key(prev, candidates[i]), self.key(prev, candidates[j])));
        }
    }

    /// Where there is a candidate to choose, `choice` is that candidate.
    pub proof fn lemma_choice(
        self,
        prev: Option<FretPosition>,
        candidates: Seq<FretPosition>,
        i: int,
    )
        requires
            self.is_best(prev, candidates, i),
        ensures
            self.best_index(prev, candidates) == i,
            self.choice(prev, candidates) == candidates[i],
    {
        self.lemma_best_is_unique(prev, candidates, i, self.best_index(prev, candidates));
    }

    /// The key of a candidate.
    pub fn cost(&self, prev: Option<FretPosition>, c: FretPosition) -> (r: (i32, i32))
        ensures
            (r.0 as int, r.1 as int) == self.key(prev, c),
    {
        match *self {
            SelectionRule::Shortest => match prev {
                None => (c.fret as i32, c.string as i32),
                Some(p) => (gap(p.fret, c.fret) + 2 * gap(p.string, c.string), 0),
            },
            SelectionRule::PositionStable { base_position } => (
                gap(c.position(), base_position),
                c.fret as i32,
            ),
            SelectionRule::OpenString => if c.fret == 0 {
                (0, 0)
            } else {
                (1, c.fret as i32)
            },
            SelectionRule::StringPriority => match prev {
                None => (gap(c.string, 3), c.fret as i32),
                Some(p) => if c.string != p.string {
                    (0, gap(p.string, c.string))
                } else {
                    (1, 2 * gap(p.fret, c.fret))
                },
            },
        }
    }

    /// The candidate with the smallest key; of several, the first.
    pub fn select(&self, prev: Option<FretPosition>, candidates: &Vec<FretPosition>) -> (r:
        FretPosition)
        requires
            candidates.len() > 0,
        ensures
            r == self.choice(prev, candidates@),
            self.is_best(prev, candidates@, self.best_index(prev, candidates@)),
    {
        let mut best: usize = 0;
        let mut best_key = self.cost(prev, candidates[0]);
        let mut i: usize = 1;
        while i < candidates.len()
            invariant
                best < i <= candidates.len(),
                (best_key.0 as int, best_key.1 as int) == self.key(prev, candidates@[best as int]),
                forall|j: int|
                    0 <= j < i ==> !key_less(
                        self.key(prev, #[trigger] candidates@[j]),
                        self.key(prev, candidates@[best as int]),
                    ),
                forall|j: int|
                    0 <= j < best ==> key_less(
                        self.key(prev, candidates@[best as int]),
                        self.key(prev, #[trigger] candidates@[j]),
                    ),
            decreases candidates.len() - i,
        {
            let key = self.cost(prev, candidates[i]);
            if key.0 < best_key.0 || (key.0 == best_key.0 && key.1 < best_key.1) {
                best = i;
                best_key = key;
            }
            i += 1;
        }
        proof {
            assert(self.is_best(prev, candidates@, best as int));
            self.lemma_choice(prev, candidates@, best as int);
        }
        candidates[best]
    }
}

/// The absolute difference of two small numbers.
fn gap(a: u8, b: u8) -> (r: i32)
    ensures
        r == distance(a as int, b as int),
{
    if a >= b {
        (a - b) as i32
    } else {
        (b - a) as i32
    }
}

/// Whether the tuning reaches every pitch of the sequence.
pub open spec fn all_reachable(tuning: TuningView, pitches: Seq<i32>) -> bool {
    forall|i: int| 0 <= i < pitches.len() ==> tuning.reaches(#[trigger] pitches[i] as int)
}

/// Whether `e` reports the first pitch of the sequence that the tuning does
/// not reach.
pub open spec fn reports_first_unreachable(
    tuning: TuningView,
    pitches: Seq<i32>,
    e: FingeringError,
) -> bool {
    match e {
        FingeringError::NoCandidatePosition { index, pitch } => {
            &&& index < pitches.len()
            &&& pitch == pitches[index as int]
            &&& !tuning.reaches(pitch as int)
            &&& forall|j: int| 0 <= j < index ==> tuning.reaches(#[trigger] pitches[j] as int)
        },
    }
}

/// The positions a rule chooses for the first `n` pitches: for each pitch in
/// turn its choice among the candidates of the pitch, given the position
/// chosen for the pitch before.
pub open spec fn selection_among(
    tuning: TuningView,
    pitches: Seq<i32>,
    rule: SelectionRule,
    n: int,
) -> Seq<FretPosition>
    decreases n,
{
    if n <= 0 {
        Seq::empty()
    } else {
        let earlier = selection_among(tuning, pitches, rule, n - 1);
        let prev = if n == 1 {
            None
        } else {
            Some(earlier[n - 2])
        };
        earlier.push(rule.choice(prev, tuning.candidates(pitches[n - 1] as int)))
    }
}

/// The positions a rule chooses for a sequence of pitches.
pub open spec fn selection(tuning: TuningView, pitches: Seq<i32>, rule: SelectionRule) -> Seq<
    FretPosition,
> {
    selection_among(tuning, pitches, rule, pitches.len() as int)
}

/// A selection has one position per pitch.
pub proof fn lemma_selection_len(
    tuning: TuningView,
    pitches: Seq<i32>,
    rule: SelectionRule,
    n: int,
)
    requires
        0 <= n,
    ensures
        selection_among(tuning, pitches, rule, n).len() == n,
    decreases n,
{
    if n > 0 {
        lemma_selection_len(tuning, pitches, rule, n - 1);
    }
}

/// Every position of a selection is the best candidate of its pitch, given
/// the position chosen before it, and so is a place where the tuning sounds
/// that pitch.
pub proof fn lemma_selection_is_best(
    tuning: TuningView,
    pitches: Seq<i32>,
    rule: SelectionRule,
    i: int,
)
    requires
        tuning.is_valid(),
        all_reachable(tuning, pitches),
        0 <= i < pitches.len(),
    ensures
        selection(tuning, pitches, rule).len() == pitches.len(),
        ({
            let chosen = selection(tuning, pitches, rule);
            let prev = if i == 0 {
                None
            } else {
                Some(chosen[i - 1])
            };
            let candidates = tuning.candidates(pitches[i] as int);
            &&& rule.is_best(prev, candidates, rule.best_index(prev, candidates))
            &&& chosen[i] == candidates[rule.best_index(prev, candidates)]
            &&& tuning.plays(chosen[i], pitches[i] as int)
        }),
{
    let n = pitches.len() as int;
    lemma_selection_len(tuning, pitches, rule, n);
    lemma_selection_prefix(tuning, pitches, rule, i + 1, n);
    lemma_selection_len(tuning, pitches, rule, i + 1);
    lemma_selection_len(tuning, pitches, rule, i);
    let upto = selection_among(tuning, pitches, rule, i + 1);
    let earlier = selection_among(tuning, pitches, rule, i);
    let chosen = selection(tuning, pitches, rule);
    let prev = if i == 0 {
        None
    } else {
        Some(chosen[i - 1])
    };
    assert(chosen[i] == upto[i]);
    if i > 0 {
        assert(chosen[i - 1] == upto[i - 1]);
        assert(upto[i - 1] == earlier[i - 1]);
    }
    let candidates = tuning.candidates(pitches[i] as int);
    assert(upto[i] == rule.choice(prev, candidates));
    lemma_candidates(tuning, pitches[i] as int);
    assert(tuning.reaches(pitches[i] as int));
    lemma_choice_is_least(rule, prev, candidates);
}

/// The choices for the first `m` pitches do not depend on how many pitches
/// follow.
pub proof fn lemma_selection_prefix(
    tuning: TuningView,
    pitches: Seq<i32>,
    rule: SelectionRule,
    m: int,
    n: int,
)
    requires
        0 <= m <= n,
    ensures
        selection_among(tuning, pitches, rule, m).len() == m,
        selection_among(tuning, pitches, rule, n).len() == n,
        forall|k: int|
            0 <= k < m ==> selection_among(tuning, pitches, rule, n)[k] == selection_among(
                tuning,
                pitches,
                rule,
                m,
            )[k],
    decreases n,
{
    lemma_selection_len(tuning, pitches, rule, m);
    lemma_selection_len(tuning, pitches, rule, n);
    if m < n {
        lemma_selection_prefix(tuning, pitches, rule, m, n - 1);
    }
}

/// Among the first `n` of a non-empty run of candidates one is the best.
proof fn lemma_best_exists(
    rule: SelectionRule,
    prev: Option<FretPosition>,
    candidates: Seq<FretPosition>,
    n: int,
)
    requires
        1 <= n <= candidates.len(),
    ensures
        rule.is_best(prev, candidates.take(n), rule.best_index(prev, candidates.take(n))),
    decreases n,
{
    let first_n = candidates.take(n);
    if n == 1 {
        assert(rule.is_best(prev, first_n, 0));
    } else {
        lemma_best_exists(rule, prev, candidates, n - 1);
        let before = candidates.take(n - 1);
        let b = rule.best_index(prev, before);
        assert(forall|j: int| 0 <= j < n - 1 ==> before[j] == first_n[j]);
        if key_less(rule.key(prev, first_n[n - 1]), rule.key(prev, first_n[b])) {
            assert forall|j: int| 0 <= j < n - 1 implies key_less(
                rule.key(prev, first_n[n - 1]),
                rule.key(prev, #[trigger] first_n[j]),
            ) by {
                assert(!key_less(rule.key(prev, before[j]), rule.key(prev, before[b])));
            }
            assert(rule.is_best(prev, first_n, n - 1));
        } else {
            assert forall|j: int| 0 <= j < n implies !key_less(
                rule.key(prev, #[trigger] first_n[j]),
                rule.key(prev, first_n[b]),
            ) by {
                if j < n - 1 {
                    assert(!key_less(rule.key(prev, before[j]), rule.key(prev, before[b])));
                }
            }
            assert forall|j: int| 0 <= j < b implies key_less(
                rule.key(prev, first_n[b]),
                rule.key(prev, #[trigger] first_n[j]),
            ) by {
                assert(key_less(rule.key(prev, before[b]), rule.key(prev, before[j])));
            }
            assert(rule.is_best(prev, first_n, b));
        }
    }
}

/// Of a non-empty sequence of candidates one is chosen, and none of them has
/// a smaller key than the chosen one.
pub proof fn lemma_choice_is_least(
    rule: SelectionRule,
    prev: Option<FretPosition>,
    candidates: Seq<FretPosition>,
)
    requires
        candidates.len() > 0,
    ensures
        rule.is_best(prev, candidates, rule.best_index(prev, candidates)),
        candidates.contains(rule.choice(prev, candidates)),
        forall|c: FretPosition| #[trigger]
            candidates.contains(c) ==> !key_less(
                rule.key(prev, c),
                rule.key(prev, rule.choice(prev, candidates)),
            ),
{
    lemma_best_exists(rule, prev, candidates, candidates.len() as int);
    assert(candidates.take(candidates.len() as int) =~= candidates);
}

/// The position-stable and the open-string rule do not look at the position
/// chosen before.
pub proof fn lemma_rule_ignores_previous(
    rule: SelectionRule,
    prev: Option<FretPosition>,
    candidates: Seq<FretPosition>,
)
    requires
        rule is PositionStable || rule is OpenString,
        candidates.len() > 0,
    ensures
        rule.choice(prev, candidates) == rule.choice(None, candidates),
{
    lemma_choice_is_least(rule, prev, candidates);
    let i = rule.best_index(prev, candidates);
    assert(rule.is_best(None, candidates, i)) by {
        assert(forall|c: FretPosition| rule.key(prev, c) == rule.key(None, c));
    }
    rule.lemma_choice(None, candidates, i);
}

/// Under the position-stable and the open-string rule every pitch gets the
/// position it would get if it stood alone.
pub proof fn lemma_selection_pitch_by_pitch(
    tuning: TuningView,
    pitches: Seq<i32>,
    rule: SelectionRule,
    i: int,
)
    requires
        tuning.is_valid(),
        all_reachable(tuning, pitches),
        rule is PositionStable || rule is OpenString,
        0 <= i < pitches.len(),
    ensures
        selection(tuning, pitches, rule)[i] == rule.choice(
            None,
            tuning.candidates(pitches[i] as int),
        ),
{
    lemma_selection_is_best(tuning, pitches, rule, i);
    lemma_candidates(tuning, pitches[i] as int);
    if i > 0 {
        lemma_rule_ignores_previous(
            rule,
            Some(selection(tuning, pitches, rule)[i - 1]),
            tuning.candidates(pitches[i] as int),
        );
    }
}

/// The open-string rule chooses an open string where one is among the
/// candidates, and otherwise a candidate of the lowest fret.
pub proof fn lemma_open_string_choice(prev: Option<FretPosition>, candidates: Seq<FretPosition>)
    requires
        candidates.len() > 0,
    ensures
        (exists|c: FretPosition| candidates.contains(c) && c.fret == 0)
            ==> SelectionRule::OpenString.choice(prev, candidates).fret == 0,
        forall|c: FretPosition| #[trigger]
            candidates.contains(c) && c.fret != 0 ==> SelectionRule::OpenString.choice(
                prev,
                candidates,
            ).fret <= c.fret,
{
    let rule = SelectionRule::OpenString;
    lemma_choice_is_least(rule, prev, candidates);
    let chosen = rule.choice(prev, candidates);
    if exists|c: FretPosition| candidates.contains(c) && c.fret == 0 {
        let c = choose|c: FretPosition| candidates.contains(c) && c.fret == 0;
        assert(!key_less(rule.key(prev, c), rule.key(prev, chosen)));
    }
    assert forall|c: FretPosition| #[trigger]
        candidates.contains(c) && c.fret != 0 implies chosen.fret <= c.fret by {
        assert(!key_less(rule.key(prev, c), rule.key(prev, chosen)));
    }
}

/// The shortest rule starts at a candidate of the lowest fret, and from then
/// on chooses a candidate whose fret distance plus twice the string distance
/// from the position before is least.
pub proof fn lemma_shortest_choice(prev: Option<FretPosition>, candidates: Seq<FretPosition>)
    requires
        candidates.len() > 0,
    ensures
        forall|c: FretPosition| #[trigger]
            candidates.contains(c) ==> match prev {
                None => SelectionRule::Shortest.choice(prev, candidates).fret <= c.fret,
                Some(p) => {
                    let chosen = SelectionRule::Shortest.choice(prev, candidates);
                    distance(p.fret as int, chosen.fret as int) + 2 * distance(
                        p.string as int,
                        chosen.string as int,
                    ) <= distance(p.fret as int, c.fret as int) + 2 * distance(
                        p.string as int,
                        c.string as int,
                    )
                },
            },
{
    let rule = SelectionRule::Shortest;
    lemma_choice_is_least(rule, prev, candidates);
    let chosen = rule.choice(prev, candidates);
    assert forall|c: FretPosition| #[trigger] candidates.contains(c) implies match prev {
        None => chosen.fret <= c.fret,
        Some(p) => distance(p.fret as int, chosen.fret as int) + 2 * distance(
            p.string as int,
            chosen.string as int,
        ) <= distance(p.fret as int, c.fret as int) + 2 * distance(
            p.string as int,
            c.string as int,
        ),
    } by {
        assert(!key_less(rule.key(prev, c), rule.key(prev, chosen)));
    }
}

/// The position-stable rule chooses a candidate whose zone is nearest to the
/// base position.
pub proof fn lemma_position_stable_choice(
    base_position: u8,
    prev: Option<FretPosition>,
    candidates: Seq<FretPosition>,
)
    requires
        candidates.len() > 0,
    ensures
        forall|c: FretPosition| #[trigger]
            candidates.contains(c) ==> distance(
                zone_of(
                    SelectionRule::PositionStable { base_position }.choice(
                        prev,
                        candidates,
                    ).fret as int,
                ),
                base_position as int,
            ) <= distance(zone_of(c.fret as int), base_position as int),
{
    let rule = SelectionRule::PositionStable { base_position };
    lemma_choice_is_least(rule, prev, candidates);
    let chosen = rule.choice(prev, candidates);
    assert forall|c: FretPosition| #[trigger] candidates.contains(c) implies distance(
        zone_of(chosen.fret as int),
        base_position as int,
    ) <= distance(zone_of(c.fret as int), base_position as int) by {
        assert(!key_less(rule.key(prev, c), rule.key(prev, chosen)));
    }
}

/// After a first position the string-priority rule changes string wherever
/// a candidate lies on another string, and then to a nearest such string.
pub proof fn lemma_string_priority_choice(prev: FretPosition, candidates: Seq<FretPosition>)
    requires
        candidates.len() > 0,
    ensures
        forall|c: FretPosition| #[trigger]
            candidates.contains(c) && c.string != prev.string ==> {
                let chosen = SelectionRule::StringPriority.choice(Some(prev), candidates);
                &&& chosen.string != prev.string
                &&& distance(prev.string as int, chosen.string as int) <= distance(
                    prev.string as int,
                    c.string as int,
                )
            },
{
    let rule = SelectionRule::StringPriority;
    lemma_choice_is_least(rule, Some(prev), candidates);
    let chosen = rule.choice(Some(prev), candidates);
    assert forall|c: FretPosition| #[trigger]
        candidates.contains(c) && c.string != prev.string implies chosen.string != prev.string
        && distance(prev.string as int, chosen.string as int) <= distance(
        prev.string as int,
        c.string as int,
    ) by {
        assert(!key_less(rule.key(Some(prev), c), rule.key(Some(prev), chosen)));
    }
}

/// One position for each pitch, chosen by the rule; or the first pitch that
/// the tuning cannot sound.
pub fn select_positions(pitches: &[i32], tuning: &Tuning, rule: SelectionRule) -> (r: Result<
    Vec<FretPosition>,
    FingeringError,
>)
    requires
        tuning@.is_valid(),
    ensures
        match r {
            Ok(chosen) => all_reachable(tuning@, pitches@) && chosen@ == selection(
                tuning@,
                pitches@,
                rule,
            ),
            Err(e) => reports_first_unreachable(tuning@, pitches@, e),
        },
{
    let mut selected: Vec<FretPosition> = Vec::new();
    let mut prev: Option<FretPosition> = None;
    let mut i: usize = 0;
    while i < pitches.len()
        invariant
            i <= pitches.len(),
            tuning@.is_valid(),
            selected@ == selection_among(tuning@, pitches@, rule, i as int),
            selected@.len() == i,
            prev == if i == 0 {
                None
            } else {
                Some(selected@[i - 1])
            },
            forall|j: int| 0 <= j < i ==> tuning@.reaches(#[trigger] pitches@[j] as int),
        decreases pitches.len() - i,
    {
        let pitch = pitches[i];
        let candidates = generate_all_positions(pitch, tuning);
        proof {
            lemma_candidates(tuning@, pitch as int);
        }
        if candidates.len() == 0 {
            return Err(FingeringError::NoCandidatePosition { index: i, pitch });
        }
        let best = rule.select(prev, &candidates);
        selected.push(best);
        prev = Some(best);
        i += 1;
    }
    Ok(selected)
}

} // verus!
