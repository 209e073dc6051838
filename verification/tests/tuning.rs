use fingering::{StringDef, Tuning, TUNING_LIMIT};

fn offsets(tuning: &Tuning) -> Vec<i32> {
    tuning.strings.iter().map(|s| s.offset).collect()
}

fn notes(tuning: &Tuning) -> Vec<&str> {
    tuning.strings.iter().map(|s| s.open_note.as_str()).collect()
}

fn custom(offsets: &[i32], max_fret: i32) -> Tuning {
    Tuning {
        name: "custom".to_string(),
        strings: offsets.iter().map(|&o| StringDef::new("X", o)).collect(),
        max_fret,
    }
}

#[test]
fn tuning_test_tuning_presets() {
    let bass4 = Tuning::bass_4();
    assert_eq!(bass4.strings.len(), 4);
    assert_eq!(bass4.strings[0].offset, 0);

    let bass5 = Tuning::bass_5();
    assert_eq!(bass5.strings.len(), 5);
    assert_eq!(bass5.strings[0].offset, -5);

    let bass6 = Tuning::bass_6();
    assert_eq!(bass6.strings.len(), 6);

    let drop_d = Tuning::bass_drop_d();
    assert_eq!(drop_d.strings[0].offset, -2);
    assert_eq!(drop_d.strings[0].open_note, "D");
}

#[test]
fn tuning_test_tuning_from_name() {
    assert!(Tuning::from_name("bass_4").is_some());
    assert!(Tuning::from_name("bass_5").is_some());
    assert!(Tuning::from_name("bass_6").is_some());
    assert!(Tuning::from_name("bass_drop_d").is_some());
    assert!(Tuning::from_name("unknown").is_none());
}

#[test]
fn positions_test_tuning_presets() {
    let bass4 = Tuning::bass_4();
    assert_eq!(bass4.strings.len(), 4);
    assert_eq!(bass4.strings[0].offset, 0);

    let bass5 = Tuning::bass_5();
    assert_eq!(bass5.strings.len(), 5);
    assert_eq!(bass5.strings[0].offset, -5);

    let bass6 = Tuning::bass_6();
    assert_eq!(bass6.strings.len(), 6);

    let drop_d = Tuning::bass_drop_d();
    assert_eq!(drop_d.strings[0].offset, -2);
    assert_eq!(drop_d.strings[0].open_note, "D");
}

#[test]
fn positions_test_tuning_from_name() {
    assert!(Tuning::from_name("bass_4").is_some());
    assert!(Tuning::from_name("bass_5").is_some());
    assert!(Tuning::from_name("bass_6").is_some());
    assert!(Tuning::from_name("bass_drop_d").is_some());
    assert!(Tuning::from_name("unknown").is_none());
}

#[test]
fn string_def_new_holds_what_it_was_given() {
    let s = StringDef::new("A", 5);
    assert_eq!(s.open_note, "A");
    assert_eq!(s.offset, 5);
}

#[test]
fn presets_in_full() {
    let t = Tuning::bass_4();
    assert_eq!(t.name, "bass_4");
    assert_eq!(offsets(&t), vec![0, 5, 10, 15]);
    assert_eq!(notes(&t), vec!["E", "A", "D", "G"]);
    assert_eq!(t.max_fret, 24);

    let t = Tuning::bass_5();
    assert_eq!(t.name, "bass_5");
    assert_eq!(offsets(&t), vec![-5, 0, 5, 10, 15]);
    assert_eq!(notes(&t), vec!["B", "E", "A", "D", "G"]);
    assert_eq!(t.max_fret, 24);

    let t = Tuning::bass_6();
    assert_eq!(t.name, "bass_6");
    assert_eq!(offsets(&t), vec![-5, 0, 5, 10, 15, 20]);
    assert_eq!(notes(&t), vec!["B", "E", "A", "D", "G", "C"]);
    assert_eq!(t.max_fret, 24);

    let t = Tuning::bass_drop_d();
    assert_eq!(t.name, "bass_drop_d");
    assert_eq!(offsets(&t), vec![-2, 5, 10, 15]);
    assert_eq!(notes(&t), vec!["D", "A", "D", "G"]);
    assert_eq!(t.max_fret, 24);
}

#[test]
fn from_name_gives_the_preset_of_that_name() {
    for name in ["bass_4", "bass_5", "bass_6", "bass_drop_d"] {
        let t = Tuning::from_name(name).unwrap();
        assert_eq!(t.name, name);
    }
    assert_eq!(offsets(&Tuning::from_name("bass_5").unwrap()), vec![-5, 0, 5, 10, 15]);
    assert_eq!(offsets(&Tuning::from_name("bass_drop_d").unwrap()), vec![-2, 5, 10, 15]);
}

#[test]
fn from_name_knows_no_other_name() {
    for name in ["", "bass", "bass_4 ", " bass_4", "BASS_4", "bass_7", "bass_drop", "bass_drop_dd", "bass-4"] {
        assert!(Tuning::from_name(name).is_none(), "{name}");
    }
}

#[test]
fn an_unknown_name_falls_back_to_four_strings() {
    let t = Tuning::from_name_or_default("ukulele");
    assert_eq!(t.name, "bass_4");
    assert_eq!(offsets(&t), vec![0, 5, 10, 15]);
    assert_eq!(t.max_fret, 24);
    assert_eq!(Tuning::from_name_or_default("").name, "bass_4");
}

#[test]
fn a_known_name_does_not_fall_back() {
    assert_eq!(Tuning::from_name_or_default("bass_6").name, "bass_6");
    assert_eq!(offsets(&Tuning::from_name_or_default("bass_5")), vec![-5, 0, 5, 10, 15]);
    assert_eq!(offsets(&Tuning::from_name_or_default("bass_drop_d")), vec![-2, 5, 10, 15]);
}

#[test]
fn presets_are_valid() {
    assert!(Tuning::bass_4().is_valid());
    assert!(Tuning::bass_5().is_valid());
    assert!(Tuning::bass_6().is_valid());
    assert!(Tuning::bass_drop_d().is_valid());
}

#[test]
fn offsets_must_rise_strictly() {
    assert!(custom(&[0, 5, 10], 24).is_valid());
    assert!(custom(&[-7, -6, 1000], 24).is_valid());
    assert!(!custom(&[0, 0], 24).is_valid());
    assert!(!custom(&[0, 5, 5], 24).is_valid());
    assert!(!custom(&[5, 0], 24).is_valid());
    assert!(!custom(&[0, 5, 10, 9], 24).is_valid());
    assert!(!custom(&[0, 5, 4, 10], 24).is_valid());
    assert!(custom(&[i32::MIN, 0, i32::MAX], 24).is_valid());
}

#[test]
fn a_tuning_of_one_or_no_string_is_valid() {
    assert!(custom(&[], 24).is_valid());
    assert!(custom(&[3], 0).is_valid());
}

#[test]
fn the_fret_ceiling_has_limits() {
    assert_eq!(TUNING_LIMIT, 255);
    assert!(custom(&[0, 5], 0).is_valid());
    assert!(custom(&[0, 5], 255).is_valid());
    assert!(!custom(&[0, 5], 256).is_valid());
    assert!(!custom(&[0, 5], -1).is_valid());
    assert!(!custom(&[], i32::MIN).is_valid());
}

#[test]
fn the_number_of_strings_has_a_limit() {
    let many: Vec<i32> = (0..255).collect();
    assert!(custom(&many, 24).is_valid());
    let too_many: Vec<i32> = (0..256).collect();
    assert!(!custom(&too_many, 24).is_valid());
}

#[test]
fn the_names_of_the_presets() {
    let names = Tuning::preset_names();
    assert_eq!(names, vec!["bass_4", "bass_5", "bass_6", "bass_drop_d"]);
    for name in names {
        assert_eq!(Tuning::from_name(name).unwrap().name, name);
    }
}
