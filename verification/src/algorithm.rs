//! The fingering strategies and the entry point that picks one by name.

use crate::position::{
    lemma_measurable_up_to_limit, FingeringPattern, FingeringPatternView, FretPosition,
    MAX_PATTERN_LEN,
};
use crate::scoring::{
    balanced_weights, open_string_weights, position_stable_weights, score, shortest_weights,
    string_priority_weights, AlgorithmWeights,
};
use crate::selection::{
    all_reachable, lemma_selection_len, reports_first_unreachable, select_positions, selection,
    FingeringError, SelectionRule,
};
use crate::text::str_eq;
use crate::tuning::{preset_or_default, Tuning, TuningView};
use vstd::prelude::*;
use vstd::string::*;

verus! {

/// The zone that the position-stable strategy keeps to where the caller
/// names a mode and no zone.
pub const DEFAULT_BASE_POSITION: u8 = 5;

/// The strategies by which a fingering can be made.
#[derive(Debug, Clone, Copy, PartialEq, Eq)]
pub enum FingeringMode {
    /// Least movement from each position to the next.
    Shortest,
    /// Stay near one zone.
    PositionStable,
    /// Change string rather than move along one.
    StringPriority,
    /// Use open strings wherever possible.
    OpenString,
    /// The best of `Shortest`, `PositionStable` and `OpenString` under the
    /// balanced weights.
    Balanced,
}

/// The mode that a name stands for, if it is the name of a mode.
pub open spec fn parse_mode(name: Seq<char>) -> Option<FingeringMode> {
    if name == "shortest"@ {
        Some(FingeringMode::Shortest)
    } else if name == "position"@ || name == "position-stable"@ {
        Some(FingeringMode::PositionStable)
    } else if name == "string"@ || name == "string-priority"@ {
        Some(FingeringMode::StringPriority)
    } else if name == "open"@ || name == "open-string"@ {
        Some(FingeringMode::OpenString)
    } else if name == "balanced"@ {
        Some(FingeringMode::Balanced)
    } else {
        None
    }
}

/// The mode that a name stands for; `Balanced` for any other name.
pub open spec fn mode_or_balanced(name: Seq<char>) -> FingeringMode {
    match parse_mode(name) {
        Some(mode) => mode,
        None => FingeringMode::Balanced,
    }
}

impl FingeringMode {
    /// The name of the mode, which is also the tag of the patterns it makes.
    pub open spec fn name(self) -> Seq<char> {
        match self {
            FingeringMode::Shortest => "shortest"@,
            FingeringMode::PositionStable => "position-stable"@,
            FingeringMode::StringPriority => "string-priority"@,
            FingeringMode::OpenString => "open-string"@,
            FingeringMode::Balanced => "balanced"@,
        }
    }

    /// The weights under which a pattern of the mode is scored.
    pub open spec fn spec_weights(self) -> AlgorithmWeights {
        match self {
            FingeringMode::Shortest => shortest_weights(),
            FingeringMode::PositionStable => position_stable_weights(),
            FingeringMode::StringPriority => string_priority_weights(),
            FingeringMode::OpenString => open_string_weights(),
            FingeringMode::Balanced => balanced_weights(),
        }
    }

    /// The mode of the given name. The names are `shortest`, `position` or
    /// `position-stable`, `string` or `string-priority`, `open` or
    /// `open-string`, and `balanced`; any other name is an error.
    pub fn from_str(s: &str) -> (r: Result<Self, ()>)
        ensures
            r == (match parse_mode(s@) {
                Some(mode) => Ok::<FingeringMode, ()>(mode),
                None => Err(()),
            }),
    {
        if str_eq(s, "shortest") {
            Ok(FingeringMode::Shortest)
        } else if str_eq(s, "position") || str_eq(s, "position-stable") {
            Ok(FingeringMode::PositionStable)
        } else if str_eq(s, "string") || str_eq(s, "string-priority") {
            Ok(FingeringMode::StringPriority)
        } else if str_eq(s, "open") || str_eq(s, "open-string") {
            Ok(FingeringMode::OpenString)
        } else if str_eq(s, "balanced") {
            Ok(FingeringMode::Balanced)
        } else {
            Err(())
        }
    }

    /// The name of the mode.
    pub fn to_str(&self) -> (r: &'static str)
        ensures
            r@ == self.name(),
    {
        match self {
            FingeringMode::Shortest => "shortest",
            FingeringMode::PositionStable => "position-stable",
            FingeringMode::StringPriority => "string-priority",
            FingeringMode::OpenString => "open-string",
            FingeringMode::Balanced => "balanced",
        }
    }

    /// The weights under which a pattern of the mode is scored.
    pub fn weights(&self) -> (r: AlgorithmWeights)
        ensures
            r == self.spec_weights(),
    {
        match self {
            FingeringMode::Shortest => AlgorithmWeights::shortest(),
            FingeringMode::PositionStable => AlgorithmWeights::position_stable(),
            FingeringMode::StringPriority => AlgorithmWeights::string_priority(),
            FingeringMode::OpenString => AlgorithmWeights::open_string(),
            FingeringMode::Balanced => AlgorithmWeights::balanced(),
        }
    }
}

impl std::str::FromStr for FingeringMode {
    type Err = ();

    fn from_str(s: &str) -> (r: Result<Self, ()>)
        ensures
            r == (match parse_mode(s@) {
                Some(mode) => Ok::<FingeringMode, ()>(mode),
                None => Err(()),
            }),
    {
        FingeringMode::from_str(s)
    }
}

/// Every mode is found again by its name.
pub proof fn lemma_mode_name_round_trip(mode: FingeringMode)
    ensures
        parse_mode(mode.name()) == Some(mode),
{
    reveal_mode_names();
}

/// What the names of the modes hold.
proof fn reveal_mode_names()
    ensures
        "shortest"@.len() == 8,
        "position"@.len() == 8,
        "position"@[0] == 'p',
        "shortest"@[0] == 's',
        "position-stable"@.len() == 15,
        "position-stable"@[0] == 'p',
        "string"@.len() == 6,
        "string-priority"@.len() == 15,
        "string-priority"@[0] == 's',
        "open"@.len() == 4,
        "open-string"@.len() == 11,
        "open-string"@[0] == 'o',
        "balanced"@.len() == 8,
        "balanced"@[0] == 'b',
{
    reveal_strlit("shortest");
    reveal_strlit("position");
    reveal_strlit("position-stable");
    reveal_strlit("string");
    reveal_strlit("string-priority");
    reveal_strlit("open");
    reveal_strlit("open-string");
    reveal_strlit("balanced");
}

/// The pattern that holds the given positions, scored under the given
/// weights.
pub open spec fn pattern_of(
    positions: Seq<FretPosition>,
    weights: AlgorithmWeights,
    tag: Seq<char>,
) -> FingeringPatternView {
    FingeringPatternView { positions, score: score(positions, weights), algorithm: tag }
}

/// The pattern of the shortest-path strategy.
pub open spec fn shortest_pattern(tuning: TuningView, pitches: Seq<i32>) -> FingeringPatternView {
    pattern_of(
        selection(tuning, pitches, SelectionRule::Shortest),
        shortest_weights(),
        "shortest"@,
    )
}

/// The pattern of the position-stable strategy.
pub open spec fn position_stable_pattern(
    tuning: TuningView,
    pitches: Seq<i32>,
    base_position: u8,
) -> FingeringPatternView {
    pattern_of(
        selection(tuning, pitches, SelectionRule::PositionStable { base_position }),
        position_stable_weights(),
        "position-stable"@,
    )
}

/// The pattern of the open-string strategy.
pub open spec fn open_string_pattern(
    tuning: TuningView,
    pitches: Seq<i32>,
) -> FingeringPatternView {
    pattern_of(
        selection(tuning, pitches, SelectionRule::OpenString),
        open_string_weights(),
        "open-string"@,
    )
}

/// The pattern of the string-priority strategy.
pub open spec fn string_priority_pattern(
    tuning: TuningView,
    pitches: Seq<i32>,
) -> FingeringPatternView {
    pattern_of(
        selection(tuning, pitches, SelectionRule::StringPriority),
        string_priority_weights(),
        "string-priority"@,
    )
}

/// The positions of the balanced strategy: those of the shortest-path, the
/// position-stable (at the default zone) or the open-string strategy,
/// whichever scores lowest under the balanced weights; of equal scores the
/// one named first.
pub open spec fn balanced_positions(tuning: TuningView, pitches: Seq<i32>) -> Seq<FretPosition> {
    let shortest = selection(tuning, pitches, SelectionRule::Shortest);
    let stable = selection(
        tuning,
        pitches,
        SelectionRule::PositionStable { base_position: DEFAULT_BASE_POSITION },
    );
    let open = selection(tuning, pitches, SelectionRule::OpenString);
    let w = balanced_weights();
    if score(shortest, w) <= score(stable, w) && score(shortest, w) <= score(open, w) {
        shortest
    } else if score(stable, w) <= score(open, w) {
        stable
    } else {
        open
    }
}

/// The pattern of the balanced strategy.
pub open spec fn balanced_pattern(tuning: TuningView, pitches: Seq<i32>) -> FingeringPatternView {
    pattern_of(balanced_positions(tuning, pitches), balanced_weights(), "balanced"@)
}

/// The pattern of a mode.
pub open spec fn fingering(
    tuning: TuningView,
    pitches: Seq<i32>,
    mode: FingeringMode,
) -> FingeringPatternView {
    match mode {
        FingeringMode::Shortest => shortest_pattern(tuning, pitches),
        FingeringMode::PositionStable => position_stable_pattern(
            tuning,
            pitches,
            DEFAULT_BASE_POSITION,
        ),
        FingeringMode::StringPriority => string_priority_pattern(tuning, pitches),
        FingeringMode::OpenString => open_string_pattern(tuning, pitches),
        FingeringMode::Balanced => balanced_pattern(tuning, pitches),
    }
}

/// Whether `r` is what a strategy owes for the pitches: the expected pattern
/// where the tuning reaches every pitch, and otherwise the error that names
/// the first pitch it does not reach.
pub open spec fn is_outcome(
    tuning: TuningView,
    pitches: Seq<i32>,
    expected: FingeringPatternView,
    r: Result<FingeringPattern, FingeringError>,
) -> bool {
    match r {
        Ok(pattern) => all_reachable(tuning, pitches) && pattern@ == expected,
        Err(e) => reports_first_unreachable(tuning, pitches, e),
    }
}

/// The least of three numbers.
pub open spec fn least_of(a: int, b: int, c: int) -> int {
    if a <= b && a <= c {
        a
    } else if b <= c {
        b
    } else {
        c
    }
}

/// The balanced pattern scores, under the balanced weights, the least of
/// what the shortest-path, the position-stable and the open-string patterns
/// score under them; and its positions are those of one of the three.
pub proof fn lemma_balanced_is_optimal(tuning: TuningView, pitches: Seq<i32>)
    ensures
        ({
            let w = balanced_weights();
            let balanced = balanced_pattern(tuning, pitches);
            let shortest = shortest_pattern(tuning, pitches).positions;
            let stable = position_stable_pattern(
                tuning,
                pitches,
                DEFAULT_BASE_POSITION,
            ).positions;
            let open = open_string_pattern(tuning, pitches).positions;
            &&& balanced.score == score(balanced.positions, w)
            &&& balanced.score == least_of(score(shortest, w), score(stable, w), score(open, w))
            &&& least_of(score(shortest, w), score(stable, w), score(open, w)) <= score(
                shortest,
                w,
            )
            &&& least_of(score(shortest, w), score(stable, w), score(open, w)) <= score(stable, w)
            &&& least_of(score(shortest, w), score(stable, w), score(open, w)) <= score(open, w)
            &&& balanced.positions == shortest || balanced.positions == stable
                || balanced.positions == open
        }),
{
}

/// The pattern of a mode has one position per pitch, carries the name of the
/// mode, and is scored under the weights of the mode.
pub proof fn lemma_fingering_shape(tuning: TuningView, pitches: Seq<i32>, mode: FingeringMode)
    ensures
        fingering(tuning, pitches, mode).positions.len() == pitches.len(),
        fingering(tuning, pitches, mode).algorithm == mode.name(),
        fingering(tuning, pitches, mode).score == score(
            fingering(tuning, pitches, mode).positions,
            mode.spec_weights(),
        ),
        pitches.len() == 0 ==> fingering(tuning, pitches, mode).score == 0,
{
    let n = pitches.len() as int;
    lemma_selection_len(tuning, pitches, SelectionRule::Shortest, n);
    lemma_selection_len(
        tuning,
        pitches,
        SelectionRule::PositionStable { base_position: DEFAULT_BASE_POSITION },
        n,
    );
    lemma_selection_len(tuning, pitches, SelectionRule::OpenString, n);
    lemma_selection_len(tuning, pitches, SelectionRule::StringPriority, n);
}

/// The same pitches, tuning and mode name always give the same outcome: two
/// results that both are what the entry point owes do not differ, neither in
/// the positions, nor in the score, nor in the tag, nor in the error.
pub proof fn lemma_fingering_is_determined(
    tuning: TuningView,
    pitches: Seq<i32>,
    mode: Seq<char>,
    first: Result<FingeringPattern, FingeringError>,
    second: Result<FingeringPattern, FingeringError>,
)
    requires
        is_outcome(tuning, pitches, fingering(tuning, pitches, mode_or_balanced(mode)), first),
        is_outcome(tuning, pitches, fingering(tuning, pitches, mode_or_balanced(mode)), second),
    ensures
        match (first, second) {
            (Ok(a), Ok(b)) => a@ == b@,
            (Err(a), Err(b)) => a == b,
            _ => false,
        },
{
    match (first, second) {
        (Ok(a), Ok(b)) => {},
        (Err(a), Err(b)) => {
            let i = a->index as int;
            let j = b->index as int;
            if i < j {
                assert(tuning.reaches(pitches[i] as int));
            } else if j < i {
                assert(tuning.reaches(pitches[j] as int));
            }
        },
        (Ok(a), Err(b)) => {
            assert(tuning.reaches(pitches[b->index as int] as int));
        },
        (Err(a), Ok(b)) => {
            assert(tuning.reaches(pitches[a->index as int] as int));
        },
    }
}

/// A name that is not the name of a mode gives what `balanced` gives.
pub proof fn lemma_unknown_mode_is_balanced(
    tuning: TuningView,
    pitches: Seq<i32>,
    name: Seq<char>,
)
    requires
        parse_mode(name) is None,
    ensures
        fingering(tuning, pitches, mode_or_balanced(name)) == fingering(
            tuning,
            pitches,
            mode_or_balanced("balanced"@),
        ),
{
    lemma_mode_name_round_trip(FingeringMode::Balanced);
}

/// The pattern that holds the given positions under the given tag, scored
/// under the given weights.
fn build_pattern(positions: Vec<FretPosition>, weights: AlgorithmWeights, tag: &str) -> (r:
    FingeringPattern)
    requires
        positions.len() <= MAX_PATTERN_LEN,
    ensures
        r@ == pattern_of(positions@, weights, tag@),
{
    proof {
        lemma_measurable_up_to_limit(positions@);
    }
    let pattern = FingeringPattern::new(positions, String::from_str(tag));
    let score = weights.calculate_score(&pattern);
    pattern.with_score(score)
}

/// One position per pitch by the given rule, as a pattern scored under the
/// given weights.
fn run_rule(
    pitches: &[i32],
    tuning: &Tuning,
    rule: SelectionRule,
    weights: AlgorithmWeights,
    tag: &str,
) -> (r: Result<FingeringPattern, FingeringError>)
    requires
        tuning@.is_valid(),
        pitches.len() <= MAX_PATTERN_LEN,
    ensures
        is_outcome(
            tuning@,
            pitches@,
            pattern_of(selection(tuning@, pitches@, rule), weights, tag@),
            r,
        ),
{
    match select_positions(pitches, tuning, rule) {
        Ok(positions) => {
            proof {
                lemma_selection_len(tuning@, pitches@, rule, pitches@.len() as int);
            }
            Ok(build_pattern(positions, weights, tag))
        },
        Err(e) => Err(e),
    }
}

/// Shortest path: the first pitch is played at its lowest fret; every later
/// pitch where the fret distance plus twice the string distance from the
/// position before is least. Scored under the shortest weights.
pub fn calculate_shortest_path(pitches: &[i32], tuning: &Tuning) -> (r: Result<
    FingeringPattern,
    FingeringError,
>)
    requires
        tuning@.is_valid(),
        pitches.len() <= MAX_PATTERN_LEN,
    ensures
        is_outcome(tuning@, pitches@, shortest_pattern(tuning@, pitches@), r),
{
    run_rule(pitches, tuning, SelectionRule::Shortest, AlgorithmWeights::shortest(), "shortest")
}

/// Position stable: every pitch is played where its zone is nearest to
/// `base_position`, and of such places at the lowest fret. Scored under the
/// position-stable weights.
pub fn calculate_position_stable(pitches: &[i32], tuning: &Tuning, base_position: u8) -> (r:
    Result<FingeringPattern, FingeringError>)
    requires
        tuning@.is_valid(),
        pitches.len() <= MAX_PATTERN_LEN,
    ensures
        is_outcome(
            tuning@,
            pitches@,
            position_stable_pattern(tuning@, pitches@, base_position),
            r,
        ),
{
    run_rule(
        pitches,
        tuning,
        SelectionRule::PositionStable { base_position },
        AlgorithmWeights::position_stable(),
        "position-stable",
    )
}

/// Open string: every pitch is played on an open string where there is one,
/// and else at its lowest fret. Scored under the open-string weights.
pub fn calculate_open_string(pitches: &[i32], tuning: &Tuning) -> (r: Result<
    FingeringPattern,
    FingeringError,
>)
    requires
        tuning@.is_valid(),
        pitches.len() <= MAX_PATTERN_LEN,
    ensures
        is_outcome(tuning@, pitches@, open_string_pattern(tuning@, pitches@), r),
{
    run_rule(
        pitches,
        tuning,
        SelectionRule::OpenString,
        AlgorithmWeights::open_string(),
        "open-string",
    )
}

/// String priority: the first pitch is played nearest to string 3; every
/// later pitch on another string than the one before, the nearest one, where
/// it can be, and else on the same string. Scored under the string-priority
/// weights.
pub fn calculate_string_priority(pitches: &[i32], tuning: &Tuning) -> (r: Result<
    FingeringPattern,
    FingeringError,
>)
    requires
        tuning@.is_valid(),
        pitches.len() <= MAX_PATTERN_LEN,
    ensures
        is_outcome(tuning@, pitches@, string_priority_pattern(tuning@, pitches@), r),
{
    run_rule(
        pitches,
        tuning,
        SelectionRule::StringPriority,
        AlgorithmWeights::string_priority(),
        "string-priority",
    )
}

/// Balanced: the pattern of the shortest-path, the position-stable (at the
/// default zone) or the open-string strategy, whichever scores lowest under
/// the balanced weights, tagged `balanced` and scored under those weights.
pub fn calculate_balanced(pitches: &[i32], tuning: &Tuning) -> (r: Result<
    FingeringPattern,
    FingeringError,
>)
    requires
        tuning@.is_valid(),
        pitches.len() <= MAX_PATTERN_LEN,
    ensures
        is_outcome(tuning@, pitches@, balanced_pattern(tuning@, pitches@), r),
{
    let shortest = match calculate_shortest_path(pitches, tuning) {
        Ok(pattern) => pattern,
        Err(e) => {
            return Err(e);
        },
    };
    let stable = match calculate_position_stable(pitches, tuning, DEFAULT_BASE_POSITION) {
        Ok(pattern) => pattern,
        Err(e) => {
            return Err(e);
        },
    };
    let open = match calculate_open_string(pitches, tuning) {
        Ok(pattern) => pattern,
        Err(e) => {
            return Err(e);
        },
    };
    proof {
        lemma_fingering_shape(tuning@, pitches@, FingeringMode::Shortest);
        lemma_fingering_shape(tuning@, pitches@, FingeringMode::PositionStable);
        lemma_fingering_shape(tuning@, pitches@, FingeringMode::OpenString);
        lemma_measurable_up_to_limit(shortest@.positions);
        lemma_measurable_up_to_limit(stable@.positions);
        lemma_measurable_up_to_limit(open@.positions);
    }
    let weights = AlgorithmWeights::balanced();
    let shortest_score = weights.calculate_score(&shortest);
    let stable_score = weights.calculate_score(&stable);
    let open_score = weights.calculate_score(&open);
    let best = if shortest_score <= stable_score && shortest_score <= open_score {
        shortest
    } else if stable_score <= open_score {
        stable
    } else {
        open
    };
    Ok(build_pattern(best.positions, weights, "balanced"))
}

/// The fingering of a sequence of pitches under a tuning, by the strategy
/// of the given name; by the balanced strategy where the name is not that of
/// a mode.
pub fn calculate_fingering(pitches: &[i32], tuning: &Tuning, mode: &str) -> (r: Result<
    FingeringPattern,
    FingeringError,
>)
    requires
        tuning@.is_valid(),
        pitches.len() <= MAX_PATTERN_LEN,
    ensures
        is_outcome(tuning@, pitches@, fingering(tuning@, pitches@, mode_or_balanced(mode@)), r),
{
    let fingering_mode = match FingeringMode::from_str(mode) {
        Ok(m) => m,
        Err(_) => FingeringMode::Balanced,
    };
    match fingering_mode {
        FingeringMode::Shortest => calculate_shortest_path(pitches, tuning),
        FingeringMode::PositionStable => calculate_position_stable(
            pitches,
            tuning,
            DEFAULT_BASE_POSITION,
        ),
        FingeringMode::StringPriority => calculate_string_priority(pitches, tuning),
        FingeringMode::OpenString => calculate_open_string(pitches, tuning),
        FingeringMode::Balanced => calculate_balanced(pitches, tuning),
    }
}

/// The fingering of a sequence of pitches under the preset tuning of the
/// given name, by the strategy of the given name. A name that is not that of
/// a preset stands for the four-string standard tuning, and a name that is
/// not that of a mode for the balanced strategy.
pub fn calculate_fingering_with_tuning(pitches: &[i32], tuning_name: &str, mode: &str) -> (r:
    Result<FingeringPattern, FingeringError>)
    requires
        pitches.len() <= MAX_PATTERN_LEN,
    ensures
        is_outcome(
            preset_or_default(tuning_name@),
            pitches@,
            fingering(preset_or_default(tuning_name@), pitches@, mode_or_balanced(mode@)),
            r,
        ),
{
    let tuning = Tuning::from_name_or_default(tuning_name);
    calculate_fingering(pitches, &tuning, mode)
}

} // verus!
