//! Weights that reduce the four measurements of a pattern to one score.
//!
//! Weights and scores are fixed-point numbers with one decimal place, held as
//! integers in tenths: a weight of 0.5 is stored as 5, a score of 12.3 as 123.
//! A positive weight penalises, a negative weight rewards; the lower score is
//! the better one.

use crate::position::{
    lemma_metrics_nonnegative, measurable, open_string_count, position_changes, string_changes,
    total_movement, FingeringPattern, FretPosition,
};
use vstd::prelude::*;

verus! {

/// One weight per measurement, each in tenths.
#[derive(Debug, Clone, Copy, PartialEq, Eq)]
pub struct AlgorithmWeights {
    /// Weight of the total hand movement.
    pub movement_weight: i16,
    /// Weight of the number of zone changes.
    pub position_change_weight: i16,
    /// Weight of the number of open strings; negative to favour them.
    pub open_string_weight: i16,
    /// Weight of the number of string changes.
    pub string_change_weight: i16,
}

/// The weighted sum of the four measurements of a sequence, in tenths.
pub open spec fn score(s: Seq<FretPosition>, w: AlgorithmWeights) -> int {
    total_movement(s) * w.movement_weight + position_changes(s) * w.position_change_weight
        + open_string_count(s) * w.open_string_weight + string_changes(s) * w.string_change_weight
}

/// Movement 1.0, zone change 2.0, open string -1.0, string change 0.5.
pub open spec fn balanced_weights() -> AlgorithmWeights {
    AlgorithmWeights {
        movement_weight: 10,
        position_change_weight: 20,
        open_string_weight: (-10) as i16,
        string_change_weight: 5,
    }
}

/// Movement 10.0, zone change 1.0, open string 0.0, string change 0.5.
pub open spec fn shortest_weights() -> AlgorithmWeights {
    AlgorithmWeights {
        movement_weight: 100,
        position_change_weight: 10,
        open_string_weight: 0,
        string_change_weight: 5,
    }
}

/// Movement 1.0, zone change 10.0, open string 0.0, string change 0.5.
pub open spec fn position_stable_weights() -> AlgorithmWeights {
    AlgorithmWeights {
        movement_weight: 10,
        position_change_weight: 100,
        open_string_weight: 0,
        string_change_weight: 5,
    }
}

/// Movement 1.0, zone change 2.0, open string -5.0, string change 0.3.
pub open spec fn open_string_weights() -> AlgorithmWeights {
    AlgorithmWeights {
        movement_weight: 10,
        position_change_weight: 20,
        open_string_weight: (-50) as i16,
        string_change_weight: 3,
    }
}

/// Movement 0.5, zone change 1.0, open string 0.0, string change -1.0.
pub open spec fn string_priority_weights() -> AlgorithmWeights {
    AlgorithmWeights {
        movement_weight: 5,
        position_change_weight: 10,
        open_string_weight: 0,
        string_change_weight: (-10) as i16,
    }
}

/// The score of a sequence without positions is 0 under any weights.
pub proof fn lemma_score_of_empty(s: Seq<FretPosition>, w: AlgorithmWeights)
    requires
        s.len() == 0,
    ensures
        score(s, w) == 0,
{
}

impl Default for AlgorithmWeights {
    /// The balanced weights.
    fn default() -> (r: Self)
        ensures
            r == balanced_weights(),
    {
        Self {
            movement_weight: 10,
            position_change_weight: 20,
            open_string_weight: -10,
            string_change_weight: 5,
        }
    }
}

impl AlgorithmWeights {
    /// Weights that favour the least hand movement.
    pub fn shortest() -> (r: Self)
        ensures
            r == shortest_weights(),
    {
        Self {
            movement_weight: 100,
            position_change_weight: 10,
            open_string_weight: 0,
            string_change_weight: 5,
        }
    }

    /// Weights that favour staying in one zone.
    pub fn position_stable() -> (r: Self)
        ensures
            r == position_stable_weights(),
    {
        Self {
            movement_weight: 10,
            position_change_weight: 100,
            open_string_weight: 0,
            string_change_weight: 5,
        }
    }

    /// Weights that favour open strings.
    pub fn open_string() -> (r: Self)
        ensures
            r == open_string_weights(),
    {
        Self {
            movement_weight: 10,
            position_change_weight: 20,
            open_string_weight: -50,
            string_change_weight: 3,
        }
    }

    /// Weights that favour changing string over moving along one.
    pub fn string_priority() -> (r: Self)
        ensures
            r == string_priority_weights(),
    {
        Self {
            movement_weight: 5,
            position_change_weight: 10,
            open_string_weight: 0,
            string_change_weight: -10,
        }
    }

    /// The default weights.
    pub fn balanced() -> (r: Self)
        ensures
            r == balanced_weights(),
    {
        Self {
            movement_weight: 10,
            position_change_weight: 20,
            open_string_weight: -10,
            string_change_weight: 5,
        }
    }

    /// The score of a pattern under these weights, in tenths; lower is
    /// better.
    pub fn calculate_score(&self, pattern: &FingeringPattern) -> (r: i64)
        requires
            measurable(pattern@.positions),
        ensures
            r == score(pattern@.positions, *self),
    {
        proof {
            lemma_metrics_nonnegative(pattern@.positions);
        }
        let movement = pattern.total_movement() as i64;
        let zone_changes = pattern.position_changes() as i64;
        let open_strings = pattern.open_string_count() as i64;
        let string_changes = pattern.string_changes() as i64;
        let movement_weight = self.movement_weight as i64;
        let position_change_weight = self.position_change_weight as i64;
        let open_string_weight = self.open_string_weight as i64;
        let string_change_weight = self.string_change_weight as i64;
        assert(-0x8000_0000_0000 <= movement * movement_weight <= 0x8000_0000_0000)
            by (nonlinear_arith)
            requires
                0 <= movement <= 0xffff_ffff,
                -0x8000 <= movement_weight <= 0x7fff,
        ;
        assert(-0x8000_0000_0000 <= zone_changes * position_change_weight <= 0x8000_0000_0000)
            by (nonlinear_arith)
            requires
                0 <= zone_changes <= 0xffff_ffff,
                -0x8000 <= position_change_weight <= 0x7fff,
        ;
        assert(-0x8000_0000_0000 <= open_strings * open_string_weight <= 0x8000_0000_0000)
            by (nonlinear_arith)
            requires
                0 <= open_strings <= 0xffff_ffff,
                -0x8000 <= open_string_weight <= 0x7fff,
        ;
        assert(-0x8000_0000_0000 <= string_changes * string_change_weight <= 0x8000_0000_0000)
            by (nonlinear_arith)
            requires
                0 <= string_changes <= 0xffff_ffff,
                -0x8000 <= string_change_weight <= 0x7fff,
        ;
        movement * movement_weight + zone_changes * position_change_weight + open_strings
            * open_string_weight + string_changes * string_change_weight
    }
}

} // verus!
