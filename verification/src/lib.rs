//! Left-hand fingering for fretted string instruments.
//!
//! Given a tuning and a sequence of pitches, the library finds every place on
//! the fingerboard where each pitch can be played, chooses one place per pitch
//! by one of several strategies, and scores the resulting pattern.

pub mod algorithm;
pub mod fretboard;
pub mod position;
pub mod scoring;
pub mod selection;
pub mod text;
pub mod tuning;

pub use algorithm::{
    calculate_balanced, calculate_fingering, calculate_fingering_with_tuning,
    calculate_open_string, calculate_position_stable, calculate_shortest_path,
    calculate_string_priority, FingeringMode, DEFAULT_BASE_POSITION,
};
pub use fretboard::{convert_to_positions, generate_all_positions, FretWithPitch, Position};
pub use position::{FingeringPattern, FretPosition, MAX_PATTERN_LEN};
pub use scoring::AlgorithmWeights;
pub use selection::{select_positions, FingeringError, SelectionRule};
pub use tuning::{StringDef, Tuning, TUNING_LIMIT};
