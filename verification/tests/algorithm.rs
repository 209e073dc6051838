use fingering::{
    calculate_balanced, calculate_fingering, calculate_fingering_with_tuning,
    calculate_open_string, calculate_position_stable, calculate_shortest_path,
    calculate_string_priority, select_positions, AlgorithmWeights, FingeringError, FingeringMode,
    FingeringPattern, FretPosition, SelectionRule, StringDef, Tuning, DEFAULT_BASE_POSITION,
    MAX_PATTERN_LEN,
};

fn places(pattern: &FingeringPattern) -> Vec<(u8, u8)> {
    pattern.positions.iter().map(|p| (p.string, p.fret)).collect()
}

fn positions(places: &[(u8, u8)]) -> Vec<FretPosition> {
    places.iter().map(|&(string, fret)| FretPosition::new(string, fret)).collect()
}

fn custom(offsets: &[i32], max_fret: i32) -> Tuning {
    Tuning {
        name: "custom".to_string(),
        strings: offsets.iter().map(|&o| StringDef::new("X", o)).collect(),
        max_fret,
    }
}

const MODES: [&str; 8] = [
    "shortest",
    "position",
    "position-stable",
    "string",
    "string-priority",
    "open",
    "open-string",
    "balanced",
];

#[test]
fn test_calculate_shortest_path() {
    let pitches = vec![0, 1, 3];
    let pattern = calculate_shortest_path(&pitches, &Tuning::bass_4()).unwrap();

    assert_eq!(pattern.positions.len(), 3);
    assert!(pattern.total_movement() < 10);
}

#[test]
fn test_calculate_open_string() {
    let pitches = vec![5, 7, 5];
    let pattern = calculate_open_string(&pitches, &Tuning::bass_4()).unwrap();

    let open_count = pattern.positions.iter().filter(|p| p.fret == 0).count();
    assert!(open_count >= 1);
}

#[test]
fn test_fingering_mode_from_str() {
    assert_eq!("shortest".parse::<FingeringMode>(), Ok(FingeringMode::Shortest));
    assert_eq!("position".parse::<FingeringMode>(), Ok(FingeringMode::PositionStable));
    assert_eq!("open-string".parse::<FingeringMode>(), Ok(FingeringMode::OpenString));
    assert!("invalid".parse::<FingeringMode>().is_err());
}

#[test]
fn every_alias_names_its_mode() {
    assert_eq!(FingeringMode::from_str("shortest"), Ok(FingeringMode::Shortest));
    assert_eq!(FingeringMode::from_str("position"), Ok(FingeringMode::PositionStable));
    assert_eq!(FingeringMode::from_str("position-stable"), Ok(FingeringMode::PositionStable));
    assert_eq!(FingeringMode::from_str("string"), Ok(FingeringMode::StringPriority));
    assert_eq!(FingeringMode::from_str("string-priority"), Ok(FingeringMode::StringPriority));
    assert_eq!(FingeringMode::from_str("open"), Ok(FingeringMode::OpenString));
    assert_eq!(FingeringMode::from_str("open-string"), Ok(FingeringMode::OpenString));
    assert_eq!(FingeringMode::from_str("balanced"), Ok(FingeringMode::Balanced));
}

#[test]
fn no_other_name_is_a_mode() {
    for name in ["", "xyz", "Shortest", "shortest ", "open_string", "position-", "balance", "default"] {
        assert_eq!(FingeringMode::from_str(name), Err(()), "{name}");
        assert_eq!(name.parse::<FingeringMode>(), Err(()), "{name}");
    }
}

#[test]
fn every_mode_is_found_again_by_its_name() {
    for mode in [
        FingeringMode::Shortest,
        FingeringMode::PositionStable,
        FingeringMode::StringPriority,
        FingeringMode::OpenString,
        FingeringMode::Balanced,
    ] {
        assert_eq!(FingeringMode::from_str(mode.to_str()), Ok(mode));
    }
    assert_eq!(FingeringMode::Shortest.to_str(), "shortest");
    assert_eq!(FingeringMode::PositionStable.to_str(), "position-stable");
    assert_eq!(FingeringMode::StringPriority.to_str(), "string-priority");
    assert_eq!(FingeringMode::OpenString.to_str(), "open-string");
    assert_eq!(FingeringMode::Balanced.to_str(), "balanced");
}

#[test]
fn scenario_shortest_on_three_low_pitches() {
    let pattern = calculate_fingering(&[0, 1, 3], &Tuning::bass_4(), "shortest").unwrap();
    assert_eq!(places(&pattern), vec![(4, 0), (4, 1), (4, 3)]);
    assert_eq!(pattern.algorithm, "shortest");
    for (position, pitch) in pattern.positions.iter().zip([0, 1, 3]) {
        assert_eq!(position.absolute_pitch(), pitch);
    }
    assert_eq!(pattern.total_movement(), 3);
    assert!(pattern.total_movement() < 10);
    assert_eq!(pattern.score, 300);
}

#[test]
fn scenario_open_string_uses_an_open_string() {
    let pattern = calculate_fingering(&[5, 7, 5], &Tuning::bass_4(), "open-string").unwrap();
    assert!(pattern.positions.iter().any(|p| p.fret == 0));
    assert_eq!(places(&pattern), vec![(3, 0), (3, 2), (3, 0)]);
    assert_eq!(pattern.algorithm, "open-string");
    assert_eq!(pattern.open_string_count(), 2);
    assert_eq!(pattern.score, -60);
}

#[test]
fn scenario_unknown_mode_is_balanced() {
    let tuning = Tuning::bass_4();
    for pitches in [vec![], vec![8], vec![0, 1, 3], vec![5, 7, 5], vec![7, 9, 11, 12, 14], vec![0, 40]] {
        let named = calculate_fingering(&pitches, &tuning, "balanced");
        assert_eq!(calculate_fingering(&pitches, &tuning, "xyz"), named);
        assert_eq!(calculate_fingering(&pitches, &tuning, ""), named);
        assert_eq!(calculate_fingering(&pitches, &tuning, "Balanced"), named);
        assert_eq!(calculate_balanced(&pitches, &tuning), named);
    }
    let pattern = calculate_fingering(&[7, 9, 11, 12, 14], &tuning, "xyz").unwrap();
    assert_eq!(pattern.algorithm, "balanced");
}

#[test]
fn each_alias_runs_its_strategy() {
    let tuning = Tuning::bass_4();
    let pitches = [7, 9, 11, 12, 14];
    assert_eq!(
        calculate_fingering(&pitches, &tuning, "shortest"),
        calculate_shortest_path(&pitches, &tuning)
    );
    for name in ["position", "position-stable"] {
        assert_eq!(
            calculate_fingering(&pitches, &tuning, name),
            calculate_position_stable(&pitches, &tuning, 5)
        );
    }
    for name in ["string", "string-priority"] {
        assert_eq!(
            calculate_fingering(&pitches, &tuning, name),
            calculate_string_priority(&pitches, &tuning)
        );
    }
    for name in ["open", "open-string"] {
        assert_eq!(
            calculate_fingering(&pitches, &tuning, name),
            calculate_open_string(&pitches, &tuning)
        );
    }
    assert_eq!(
        calculate_fingering(&pitches, &tuning, "balanced"),
        calculate_balanced(&pitches, &tuning)
    );
    assert_eq!(DEFAULT_BASE_POSITION, 5);
}

#[test]
fn shortest_exact() {
    let t = Tuning::bass_4();
    let p = calculate_shortest_path(&[0, 12, 24, 36], &t).unwrap();
    assert_eq!(places(&p), vec![(4, 0), (2, 2), (1, 9), (1, 21)]);
    assert_eq!(p.score, 1830);
    assert_eq!(p.algorithm, "shortest");

    let p = calculate_shortest_path(&[7, 9, 11, 12, 14], &t).unwrap();
    assert_eq!(places(&p), vec![(3, 2), (3, 4), (3, 6), (3, 7), (3, 9)]);
    assert_eq!(p.score, 720);

    let p = calculate_shortest_path(&[15, 3, 15], &t).unwrap();
    assert_eq!(places(&p), vec![(1, 0), (4, 3), (2, 5)]);
    assert_eq!(p.score, 420);

    let p = calculate_shortest_path(&[5, 10, 15, 20], &t).unwrap();
    assert_eq!(places(&p), vec![(3, 0), (2, 0), (1, 0), (1, 5)]);
    assert_eq!(p.score, 710);
}

#[test]
fn shortest_starts_at_the_lowest_fret() {
    let t = Tuning::bass_4();
    assert_eq!(places(&calculate_shortest_path(&[15], &t).unwrap()), vec![(1, 0)]);
    assert_eq!(places(&calculate_shortest_path(&[8], &t).unwrap()), vec![(3, 3)]);
    assert_eq!(places(&calculate_shortest_path(&[24], &t).unwrap()), vec![(1, 9)]);
}

#[test]
fn shortest_depends_on_the_position_before() {
    let t = Tuning::bass_4();
    // After string 1 open, pitch 15 again stays there; after string 4 fret 3
    // the nearest place is string 2 fret 5.
    assert_eq!(places(&calculate_shortest_path(&[15, 15], &t).unwrap()), vec![(1, 0), (1, 0)]);
    assert_eq!(places(&calculate_shortest_path(&[3, 15], &t).unwrap()), vec![(4, 3), (2, 5)]);
}

#[test]
fn position_stable_exact() {
    let t = Tuning::bass_4();
    let p = calculate_position_stable(&[0, 12, 24, 36], &t, 5).unwrap();
    assert_eq!(places(&p), vec![(4, 0), (3, 7), (1, 9), (1, 21)]);
    assert_eq!(p.score, 390);
    assert_eq!(p.algorithm, "position-stable");

    let p = calculate_position_stable(&[7, 9, 11, 12, 14], &t, 5).unwrap();
    assert_eq!(places(&p), vec![(4, 7), (3, 4), (3, 6), (3, 7), (2, 4)]);
    assert_eq!(p.score, 380);

    let p = calculate_position_stable(&[5, 10, 15, 20], &t, 5).unwrap();
    assert_eq!(places(&p), vec![(4, 5), (3, 5), (2, 5), (1, 5)]);
    assert_eq!(p.score, 45);
}

#[test]
fn position_stable_follows_the_base_position() {
    let t = Tuning::bass_4();
    // Pitch 15 lies at frets 15, 10, 5 and 0, in zones 13, 9, 5 and 0.
    assert_eq!(places(&calculate_position_stable(&[15], &t, 0).unwrap()), vec![(1, 0)]);
    assert_eq!(places(&calculate_position_stable(&[15], &t, 5).unwrap()), vec![(2, 5)]);
    assert_eq!(places(&calculate_position_stable(&[15], &t, 9).unwrap()), vec![(3, 10)]);
    assert_eq!(places(&calculate_position_stable(&[15], &t, 13).unwrap()), vec![(4, 15)]);
    assert_eq!(places(&calculate_position_stable(&[15], &t, 255).unwrap()), vec![(4, 15)]);
    // Halfway between zones 5 and 9 the lower fret wins.
    assert_eq!(places(&calculate_position_stable(&[15], &t, 7).unwrap()), vec![(2, 5)]);
}

#[test]
fn position_stable_does_not_depend_on_the_position_before() {
    let t = Tuning::bass_4();
    let alone = places(&calculate_position_stable(&[15], &t, 5).unwrap());
    for before in [0, 10, 24, 39] {
        let pair = places(&calculate_position_stable(&[before, 15], &t, 5).unwrap());
        assert_eq!(pair[1], alone[0]);
    }
}

#[test]
fn open_string_exact() {
    let t = Tuning::bass_4();
    let p = calculate_open_string(&[7, 9, 11, 12, 14], &t).unwrap();
    assert_eq!(places(&p), vec![(3, 2), (3, 4), (2, 1), (2, 2), (2, 4)]);
    assert_eq!(p.score, 73);
    assert_eq!(p.algorithm, "open-string");

    let p = calculate_open_string(&[15, 3, 15], &t).unwrap();
    assert_eq!(places(&p), vec![(1, 0), (4, 3), (1, 0)]);
    assert_eq!(p.score, -54);

    let p = calculate_open_string(&[10, 10, 10], &t).unwrap();
    assert_eq!(places(&p), vec![(2, 0), (2, 0), (2, 0)]);
    assert_eq!(p.score, -150);
}

#[test]
fn string_priority_exact() {
    let t = Tuning::bass_4();
    let p = calculate_string_priority(&[0, 12, 24, 36], &t).unwrap();
    assert_eq!(places(&p), vec![(4, 0), (3, 7), (4, 24), (1, 21)]);
    assert_eq!(p.score, 55);
    assert_eq!(p.algorithm, "string-priority");

    let p = calculate_string_priority(&[7, 9, 11, 12, 14], &t).unwrap();
    assert_eq!(places(&p), vec![(3, 2), (4, 9), (3, 6), (4, 12), (3, 9)]);
    assert_eq!(p.score, 50);

    let p = calculate_string_priority(&[5, 7, 5], &t).unwrap();
    assert_eq!(places(&p), vec![(3, 0), (4, 7), (3, 0)]);
    assert_eq!(p.score, 20);
}

#[test]
fn string_priority_starts_near_string_three() {
    let t = Tuning::bass_4();
    assert_eq!(places(&calculate_string_priority(&[15], &t).unwrap()), vec![(3, 10)]);
    assert_eq!(places(&calculate_string_priority(&[24], &t).unwrap()), vec![(3, 19)]);
    assert_eq!(places(&calculate_string_priority(&[0], &t).unwrap()), vec![(4, 0)]);
    assert_eq!(places(&calculate_string_priority(&[39], &t).unwrap()), vec![(1, 24)]);
    // Strings 4 and 2 are equally near; the lower fret wins.
    let candidates = positions(&[(4, 10), (2, 0)]);
    assert_eq!(SelectionRule::StringPriority.select(None, &candidates), FretPosition::new(2, 0));
}

#[test]
fn string_priority_changes_string_where_it_can() {
    let t = Tuning::bass_4();
    // The same pitch again: another string is taken although the position
    // before could be kept.
    assert_eq!(places(&calculate_string_priority(&[5, 5], &t).unwrap()), vec![(3, 0), (4, 5)]);
    // Strings 4 and 2 are both one string away from string 3; the
    // lower-pitched string, which comes first, is taken.
    assert_eq!(
        places(&calculate_string_priority(&[10, 10, 10], &t).unwrap()),
        vec![(3, 5), (4, 10), (3, 5)]
    );
}

#[test]
fn string_priority_stays_where_no_other_string_sounds_the_pitch() {
    let t = Tuning::bass_4();
    assert_eq!(
        places(&calculate_string_priority(&[0, 1, 4], &t).unwrap()),
        vec![(4, 0), (4, 1), (4, 4)]
    );
    assert_eq!(
        places(&calculate_string_priority(&[39, 37], &t).unwrap()),
        vec![(1, 24), (1, 22)]
    );
}

#[test]
fn balanced_exact() {
    let t = Tuning::bass_4();
    let p = calculate_balanced(&[7, 9, 11, 12, 14], &t).unwrap();
    assert_eq!(places(&p), vec![(3, 2), (3, 4), (2, 1), (2, 2), (2, 4)]);
    assert_eq!(p.score, 75);
    assert_eq!(p.algorithm, "balanced");

    let p = calculate_balanced(&[5, 10, 15, 20], &t).unwrap();
    assert_eq!(places(&p), vec![(4, 5), (3, 5), (2, 5), (1, 5)]);
    assert_eq!(p.score, 45);

    let p = calculate_balanced(&[15, 3, 15], &t).unwrap();
    assert_eq!(places(&p), vec![(1, 0), (4, 3), (1, 0)]);
    assert_eq!(p.score, 30);

    let p = calculate_balanced(&[10, 10, 10], &t).unwrap();
    assert_eq!(places(&p), vec![(2, 0), (2, 0), (2, 0)]);
    assert_eq!(p.score, -30);
}

#[test]
fn balanced_scores_the_least_of_the_three() {
    let w = AlgorithmWeights::balanced();
    for tuning in [Tuning::bass_4(), Tuning::bass_5(), Tuning::bass_6(), Tuning::bass_drop_d()] {
        for pitches in [
            vec![],
            vec![8],
            vec![0, 1, 3],
            vec![5, 7, 5],
            vec![0, 12, 24, 36],
            vec![7, 9, 11, 12, 14],
            vec![15, 3, 15],
            vec![5, 10, 15, 20],
            vec![20, 21, 19],
            vec![39, 0, 39, 0],
        ] {
            let balanced = calculate_balanced(&pitches, &tuning).unwrap();
            let shortest = calculate_shortest_path(&pitches, &tuning).unwrap();
            let stable = calculate_position_stable(&pitches, &tuning, 5).unwrap();
            let open = calculate_open_string(&pitches, &tuning).unwrap();
            let scores = [
                w.calculate_score(&shortest),
                w.calculate_score(&stable),
                w.calculate_score(&open),
            ];
            let least = *scores.iter().min().unwrap();
            assert_eq!(w.calculate_score(&balanced), least);
            assert_eq!(balanced.score, least);
            assert_eq!(balanced.algorithm, "balanced");
            // Of equal scores the first of the three is taken.
            let first = scores.iter().position(|&s| s == least).unwrap();
            let taken = [&shortest, &stable, &open][first];
            assert_eq!(balanced.positions, taken.positions);
        }
    }
}

#[test]
fn balanced_does_not_look_at_string_priority() {
    // Under the balanced weights string priority would score 175 here, less
    // than each of the three that are compared.
    let t = Tuning::bass_4();
    let pitches = [0, 12, 24, 36];
    let by_string = calculate_string_priority(&pitches, &t).unwrap();
    assert_eq!(AlgorithmWeights::balanced().calculate_score(&by_string), 175);
    let balanced = calculate_balanced(&pitches, &t).unwrap();
    assert_eq!(balanced.score, 220);
    assert_eq!(places(&balanced), vec![(4, 0), (2, 2), (1, 9), (1, 21)]);
}

#[test]
fn the_same_input_gives_the_same_output() {
    let tuning = Tuning::bass_5();
    for mode in MODES.iter().chain(["xyz"].iter()) {
        for pitches in [vec![], vec![0, 1, 3], vec![7, 9, 11, 12, 14], vec![-5, 44], vec![20, 21, 19]] {
            let first = calculate_fingering(&pitches, &tuning, mode);
            let second = calculate_fingering(&pitches, &Tuning::bass_5(), mode);
            assert_eq!(first, second);
        }
    }
}

#[test]
fn no_pitches_give_an_empty_pattern_with_score_zero() {
    for tuning in [Tuning::bass_4(), Tuning::bass_6(), custom(&[], 0)] {
        for mode in MODES {
            let pattern = calculate_fingering(&[], &tuning, mode).unwrap();
            assert!(pattern.positions.is_empty());
            assert_eq!(pattern.score, 0);
            assert_eq!(pattern.algorithm, FingeringMode::from_str(mode).unwrap().to_str());
        }
        assert_eq!(calculate_position_stable(&[], &tuning, 9).unwrap().score, 0);
    }
}

#[test]
fn a_pitch_out_of_range_is_an_error() {
    let t = Tuning::bass_4();
    for mode in MODES.iter().chain(["xyz"].iter()) {
        assert_eq!(
            calculate_fingering(&[0, 40], &t, mode),
            Err(FingeringError::NoCandidatePosition { index: 1, pitch: 40 })
        );
        assert_eq!(
            calculate_fingering(&[-1], &t, mode),
            Err(FingeringError::NoCandidatePosition { index: 0, pitch: -1 })
        );
    }
    assert_eq!(
        calculate_position_stable(&[3, 4, 100, 5], &t, 1),
        Err(FingeringError::NoCandidatePosition { index: 2, pitch: 100 })
    );
}

#[test]
fn the_error_names_the_first_pitch_out_of_range() {
    let t = Tuning::bass_4();
    assert_eq!(
        calculate_shortest_path(&[0, 41, 3, -7, 40], &t),
        Err(FingeringError::NoCandidatePosition { index: 1, pitch: 41 })
    );
    assert_eq!(
        calculate_balanced(&[-7, 41], &t),
        Err(FingeringError::NoCandidatePosition { index: 0, pitch: -7 })
    );
    assert_eq!(
        calculate_open_string(&[0], &custom(&[], 24)),
        Err(FingeringError::NoCandidatePosition { index: 0, pitch: 0 })
    );
}

#[test]
fn what_is_out_of_range_depends_on_the_tuning() {
    let pitches = [-2, 5, 44];
    assert_eq!(
        calculate_string_priority(&pitches, &Tuning::bass_4()),
        Err(FingeringError::NoCandidatePosition { index: 0, pitch: -2 })
    );
    assert_eq!(
        calculate_string_priority(&pitches, &Tuning::bass_5()),
        Err(FingeringError::NoCandidatePosition { index: 2, pitch: 44 })
    );
    assert_eq!(
        calculate_string_priority(&pitches, &Tuning::bass_drop_d()),
        Err(FingeringError::NoCandidatePosition { index: 2, pitch: 44 })
    );
    let p = calculate_string_priority(&pitches, &Tuning::bass_6()).unwrap();
    assert_eq!(places(&p), vec![(6, 3), (5, 5), (1, 24)]);
}

#[test]
fn strategies_under_other_tunings() {
    let p = calculate_shortest_path(&[-5, 0, 5], &Tuning::bass_5()).unwrap();
    assert_eq!(places(&p), vec![(5, 0), (4, 0), (3, 0)]);
    let p = calculate_position_stable(&[-5, 0, 5], &Tuning::bass_5(), 5).unwrap();
    assert_eq!(places(&p), vec![(5, 0), (5, 5), (4, 5)]);
    let p = calculate_string_priority(&[-5, 0, 5], &Tuning::bass_6()).unwrap();
    assert_eq!(places(&p), vec![(6, 0), (5, 0), (6, 10)]);
    let p = calculate_open_string(&[-2, 5, 44], &Tuning::bass_6()).unwrap();
    assert_eq!(places(&p), vec![(6, 3), (4, 0), (1, 24)]);
    let p = calculate_balanced(&[20, 21, 19], &Tuning::bass_6()).unwrap();
    assert_eq!(places(&p), vec![(1, 0), (1, 1), (2, 4)]);
    let p = calculate_string_priority(&[20, 21, 19], &Tuning::bass_drop_d()).unwrap();
    assert_eq!(places(&p), vec![(3, 15), (4, 23), (3, 14)]);
}

#[test]
fn every_chosen_position_sounds_its_pitch() {
    let tuning = Tuning::bass_6();
    let n = tuning.strings.len();
    let pitches: Vec<i32> = (-5..=44).chain((-5..=44).rev()).collect();
    for mode in MODES {
        let pattern = calculate_fingering(&pitches, &tuning, mode).unwrap();
        assert_eq!(pattern.positions.len(), pitches.len());
        for (position, &pitch) in pattern.positions.iter().zip(&pitches) {
            assert!(1 <= position.string && position.string as usize <= n);
            assert!(position.fret <= 24);
            assert_eq!(position.finger, None);
            let offset = tuning.strings[n - position.string as usize].offset;
            assert_eq!(offset + position.fret as i32, pitch);
        }
    }
}

#[test]
fn the_score_is_that_of_the_weights_of_the_mode() {
    let tuning = Tuning::bass_4();
    let pitches = [7, 9, 11, 12, 14, 0, 39, 5];
    for mode in MODES {
        let pattern = calculate_fingering(&pitches, &tuning, mode).unwrap();
        let weights = FingeringMode::from_str(mode).unwrap().weights();
        assert_eq!(pattern.score, weights.calculate_score(&pattern));
    }
}

#[test]
fn rule_keys() {
    let prev = Some(FretPosition::new(3, 5));
    let c = FretPosition::new(1, 2);
    assert_eq!(SelectionRule::Shortest.cost(None, c), (2, 1));
    assert_eq!(SelectionRule::Shortest.cost(prev, c), (3 + 2 * 2, 0));
    assert_eq!(SelectionRule::PositionStable { base_position: 5 }.cost(None, c), (4, 2));
    assert_eq!(SelectionRule::PositionStable { base_position: 5 }.cost(prev, c), (4, 2));
    assert_eq!(SelectionRule::PositionStable { base_position: 0 }.cost(prev, c), (1, 2));
    assert_eq!(SelectionRule::OpenString.cost(prev, c), (1, 2));
    assert_eq!(SelectionRule::OpenString.cost(prev, FretPosition::new(1, 0)), (0, 0));
    assert_eq!(SelectionRule::StringPriority.cost(None, c), (2, 2));
    assert_eq!(SelectionRule::StringPriority.cost(prev, c), (0, 2));
    assert_eq!(SelectionRule::StringPriority.cost(prev, FretPosition::new(3, 9)), (1, 8));
    assert_eq!(SelectionRule::StringPriority.cost(prev, FretPosition::new(3, 5)), (1, 0));
}

#[test]
fn rule_keys_at_the_limits() {
    let low = FretPosition::new(1, 0);
    let high = FretPosition::new(255, 255);
    assert_eq!(SelectionRule::Shortest.cost(Some(low), high), (255 + 2 * 254, 0));
    assert_eq!(SelectionRule::Shortest.cost(Some(high), low), (255 + 2 * 254, 0));
    assert_eq!(SelectionRule::Shortest.cost(None, high), (255, 255));
    assert_eq!(SelectionRule::StringPriority.cost(None, high), (252, 255));
    assert_eq!(SelectionRule::StringPriority.cost(Some(low), FretPosition::new(1, 255)), (1, 510));
    assert_eq!(SelectionRule::PositionStable { base_position: 0 }.cost(None, high), (253, 255));
    assert_eq!(SelectionRule::PositionStable { base_position: 255 }.cost(None, low), (255, 0));
}

#[test]
fn select_takes_the_first_of_equal_keys() {
    let candidates = positions(&[(4, 10), (3, 5), (2, 0)]);
    let prev = Some(FretPosition::new(3, 5));
    assert_eq!(SelectionRule::StringPriority.select(prev, &candidates), FretPosition::new(4, 10));
    let reversed = positions(&[(2, 0), (3, 5), (4, 10)]);
    assert_eq!(SelectionRule::StringPriority.select(prev, &reversed), FretPosition::new(2, 0));
    // Fret distance 2 on the same string, or a string away at the same fret.
    let candidates = positions(&[(3, 7), (2, 5), (4, 5)]);
    assert_eq!(SelectionRule::Shortest.select(prev, &candidates), FretPosition::new(3, 7));
    let candidates = positions(&[(2, 5), (4, 5), (3, 7)]);
    assert_eq!(SelectionRule::Shortest.select(prev, &candidates), FretPosition::new(2, 5));
}

#[test]
fn select_takes_the_smallest_key() {
    let candidates = positions(&[(4, 15), (3, 10), (2, 5), (1, 0)]);
    assert_eq!(SelectionRule::Shortest.select(None, &candidates), FretPosition::new(1, 0));
    assert_eq!(SelectionRule::OpenString.select(None, &candidates), FretPosition::new(1, 0));
    assert_eq!(SelectionRule::StringPriority.select(None, &candidates), FretPosition::new(3, 10));
    assert_eq!(
        SelectionRule::PositionStable { base_position: 13 }.select(None, &candidates),
        FretPosition::new(4, 15)
    );
    assert_eq!(
        SelectionRule::OpenString.select(None, &positions(&[(4, 15), (3, 10), (2, 5)])),
        FretPosition::new(2, 5)
    );
    assert_eq!(
        SelectionRule::OpenString.select(None, &positions(&[(2, 5)])),
        FretPosition::new(2, 5)
    );
}

#[test]
fn select_positions_by_each_rule() {
    let t = Tuning::bass_4();
    let pitches = [15, 3, 15];
    assert_eq!(
        select_positions(&pitches, &t, SelectionRule::Shortest),
        Ok(positions(&[(1, 0), (4, 3), (2, 5)]))
    );
    assert_eq!(
        select_positions(&pitches, &t, SelectionRule::PositionStable { base_position: 5 }),
        Ok(positions(&[(2, 5), (4, 3), (2, 5)]))
    );
    assert_eq!(
        select_positions(&pitches, &t, SelectionRule::PositionStable { base_position: 9 }),
        Ok(positions(&[(3, 10), (4, 3), (3, 10)]))
    );
    assert_eq!(
        select_positions(&pitches, &t, SelectionRule::OpenString),
        Ok(positions(&[(1, 0), (4, 3), (1, 0)]))
    );
    assert_eq!(
        select_positions(&pitches, &t, SelectionRule::StringPriority),
        Ok(positions(&[(3, 10), (4, 3), (3, 10)]))
    );
    assert_eq!(select_positions(&[], &t, SelectionRule::Shortest), Ok(vec![]));
    assert_eq!(
        select_positions(&[15, 3, 150], &t, SelectionRule::OpenString),
        Err(FingeringError::NoCandidatePosition { index: 2, pitch: 150 })
    );
}

#[test]
fn a_long_sequence_within_the_limit() {
    assert_eq!(MAX_PATTERN_LEN, 16_843_010);
    let pitches: Vec<i32> = (0..20_000).map(|i| (i * 7) % 40).collect();
    let t = Tuning::bass_4();
    let pattern = calculate_fingering(&pitches, &t, "balanced").unwrap();
    assert_eq!(pattern.positions.len(), 20_000);
    assert_eq!(pattern.score, AlgorithmWeights::balanced().calculate_score(&pattern));
}

#[test]
fn a_preset_by_name_gives_what_the_preset_gives() {
    let pitches = [-5, 0, 7, 20, 12, 3];
    for name in ["bass_5", "bass_6"] {
        let tuning = Tuning::from_name(name).unwrap();
        for mode in MODES {
            assert_eq!(
                calculate_fingering_with_tuning(&pitches, name, mode),
                calculate_fingering(&pitches, &tuning, mode)
            );
        }
    }
    let p = calculate_fingering_with_tuning(&[-5, 0, 5], "bass_5", "shortest").unwrap();
    assert_eq!(places(&p), vec![(5, 0), (4, 0), (3, 0)]);
    assert_eq!(
        calculate_fingering_with_tuning(&[-5, 0, 5], "bass_drop_d", "shortest"),
        Err(FingeringError::NoCandidatePosition { index: 0, pitch: -5 })
    );
}

#[test]
fn an_unknown_tuning_name_stands_for_four_strings() {
    let four = Tuning::bass_4();
    for pitches in [vec![], vec![0, 1, 3], vec![7, 9, 11, 12, 14], vec![-2, 5]] {
        for mode in MODES.iter().chain(["xyz"].iter()) {
            let expected = calculate_fingering(&pitches, &four, mode);
            assert_eq!(calculate_fingering_with_tuning(&pitches, "banjo", mode), expected);
            assert_eq!(calculate_fingering_with_tuning(&pitches, "", mode), expected);
            assert_eq!(calculate_fingering_with_tuning(&pitches, "bass_4", mode), expected);
        }
    }
    // Under the five-string preset pitch -2 can be played.
    assert!(calculate_fingering_with_tuning(&[-2, 5], "bass_5", "open").is_ok());
    assert_eq!(
        calculate_fingering_with_tuning(&[-2, 5], "bass_7", "open"),
        Err(FingeringError::NoCandidatePosition { index: 0, pitch: -2 })
    );
}
