//! Tunings: the open pitch of every string and the highest playable fret.

use crate::text::str_eq;
use vstd::prelude::*;
use vstd::string::*;

verus! {

/// The largest number of strings a tuning may have, and the highest fret it
/// may allow. A position stores its string and its fret in one byte each.
pub const TUNING_LIMIT: i32 = 255;

/// One string of an instrument.
#[derive(Clone, Debug)]
pub struct StringDef {
    /// Name of the note the open string sounds.
    pub open_note: String,
    /// Pitch of the open string, in semitones above the reference zero.
    pub offset: i32,
}

/// An instrument: its strings from the lowest-pitched to the highest, and
/// the highest fret that can be played.
#[derive(Clone, Debug)]
pub struct Tuning {
    pub name: String,
    pub strings: Vec<StringDef>,
    pub max_fret: i32,
}

/// What a [`StringDef`] stands for.
pub struct StringDefView {
    pub open_note: Seq<char>,
    pub offset: int,
}

/// What a [`Tuning`] stands for.
pub struct TuningView {
    pub name: Seq<char>,
    pub strings: Seq<StringDefView>,
    pub max_fret: int,
}

impl View for StringDef {
    type V = StringDefView;

    open spec fn view(&self) -> StringDefView {
        StringDefView { open_note: self.open_note@, offset: self.offset as int }
    }
}

impl View for Tuning {
    type V = TuningView;

    open spec fn view(&self) -> TuningView {
        TuningView {
            name: self.name@,
            strings: self.strings@.map_values(|s: StringDef| s@),
            max_fret: self.max_fret as int,
        }
    }
}

impl TuningView {
    /// Every string is tuned strictly higher than the one before it, and the
    /// number of strings and the fret ceiling are within [`TUNING_LIMIT`].
    pub open spec fn is_valid(self) -> bool {
        &&& self.strings.len() <= TUNING_LIMIT
        &&& 0 <= self.max_fret <= TUNING_LIMIT
        &&& forall|i: int, j: int|
            0 <= i < j < self.strings.len() ==> (#[trigger] self.strings[i]).offset < (
            #[trigger] self.strings[j]).offset
    }

    /// The open pitch of the string with the given number. String 1 is the
    /// highest-pitched string, hence the last entry of `strings`.
    pub open spec fn offset_of_string(self, string: int) -> int
        recommends
            1 <= string <= self.strings.len(),
    {
        self.strings[self.strings.len() - string].offset
    }
}

/// The four preset tunings, by name.
pub open spec fn preset(name: Seq<char>) -> Option<TuningView> {
    if name == "bass_4"@ {
        Some(bass_4_view())
    } else if name == "bass_5"@ {
        Some(bass_5_view())
    } else if name == "bass_6"@ {
        Some(bass_6_view())
    } else if name == "bass_drop_d"@ {
        Some(bass_drop_d_view())
    } else {
        None
    }
}

/// The preset that a name stands for; four-string standard tuning for a name
/// that is not the name of a preset.
pub open spec fn preset_or_default(name: Seq<char>) -> TuningView {
    match preset(name) {
        Some(t) => t,
        None => bass_4_view(),
    }
}

/// The string with the given open note and open pitch.
pub open spec fn string_view(open_note: Seq<char>, offset: int) -> StringDefView {
    StringDefView { open_note, offset }
}

/// Four strings, E-A-D-G.
pub open spec fn bass_4_view() -> TuningView {
    TuningView {
        name: "bass_4"@,
        strings: seq![
            string_view("E"@, 0),
            string_view("A"@, 5),
            string_view("D"@, 10),
            string_view("G"@, 15),
        ],
        max_fret: 24,
    }
}

/// Five strings, B-E-A-D-G.
pub open spec fn bass_5_view() -> TuningView {
    TuningView {
        name: "bass_5"@,
        strings: seq![
            string_view("B"@, -5),
            string_view("E"@, 0),
            string_view("A"@, 5),
            string_view("D"@, 10),
            string_view("G"@, 15),
        ],
        max_fret: 24,
    }
}

/// Six strings, B-E-A-D-G-C.
pub open spec fn bass_6_view() -> TuningView {
    TuningView {
        name: "bass_6"@,
        strings: seq![
            string_view("B"@, -5),
            string_view("E"@, 0),
            string_view("A"@, 5),
            string_view("D"@, 10),
            string_view("G"@, 15),
            string_view("C"@, 20),
        ],
        max_fret: 24,
    }
}

/// Four strings with the lowest dropped to D: D-A-D-G.
pub open spec fn bass_drop_d_view() -> TuningView {
    TuningView {
        name: "bass_drop_d"@,
        strings: seq![
            string_view("D"@, -2),
            string_view("A"@, 5),
            string_view("D"@, 10),
            string_view("G"@, 15),
        ],
        max_fret: 24,
    }
}

impl StringDef {
    /// The string with the given open note and open pitch.
    pub fn new(open_note: &str, offset: i32) -> (r: Self)
        ensures
            r@ == string_view(open_note@, offset as int),
    {
        StringDef { open_note: String::from_str(open_note), offset }
    }
}

impl Tuning {
    /// Four-string standard tuning (E-A-D-G).
    pub fn bass_4() -> (r: Self)
        ensures
            r@ == bass_4_view(),
            r@.is_valid(),
    {
        let r = Tuning {
            name: String::from_str("bass_4"),
            strings: vec![
                StringDef::new("E", 0),
                StringDef::new("A", 5),
                StringDef::new("D", 10),
                StringDef::new("G", 15),
            ],
            max_fret: 24,
        };
        assert(r@.strings =~= bass_4_view().strings);
        r
    }

    /// Five-string standard tuning (B-E-A-D-G).
    pub fn bass_5() -> (r: Self)
        ensures
            r@ == bass_5_view(),
            r@.is_valid(),
    {
        let r = Tuning {
            name: String::from_str("bass_5"),
            strings: vec![
                StringDef::new("B", -5),
                StringDef::new("E", 0),
                StringDef::new("A", 5),
                StringDef::new("D", 10),
                StringDef::new("G", 15),
            ],
            max_fret: 24,
        };
        assert(r@.strings =~= bass_5_view().strings);
        r
    }

    /// Six-string standard tuning (B-E-A-D-G-C).
    pub fn bass_6() -> (r: Self)
        ensures
            r@ == bass_6_view(),
            r@.is_valid(),
    {
        let r = Tuning {
            name: String::from_str("bass_6"),
            strings: vec![
                StringDef::new("B", -5),
                StringDef::new("E", 0),
                StringDef::new("A", 5),
                StringDef::new("D", 10),
                StringDef::new("G", 15),
                StringDef::new("C", 20),
            ],
            max_fret: 24,
        };
        assert(r@.strings =~= bass_6_view().strings);
        r
    }

    /// Drop-D tuning (D-A-D-G).
    pub fn bass_drop_d() -> (r: Self)
        ensures
            r@ == bass_drop_d_view(),
            r@.is_valid(),
    {
        let r = Tuning {
            name: String::from_str("bass_drop_d"),
            strings: vec![
                StringDef::new("D", -2),
                StringDef::new("A", 5),
                StringDef::new("D", 10),
                StringDef::new("G", 15),
            ],
            max_fret: 24,
        };
        assert(r@.strings =~= bass_drop_d_view().strings);
        r
    }

    /// The preset of the given name, if there is one.
    pub fn from_name(name: &str) -> (r: Option<Self>)
        ensures
            match r {
                Some(t) => preset(name@) == Some(t@) && t@.is_valid(),
                None => preset(name@) is None,
            },
    {
        if str_eq(name, "bass_4") {
            Some(Self::bass_4())
        } else if str_eq(name, "bass_5") {
            Some(Self::bass_5())
        } else if str_eq(name, "bass_6") {
            Some(Self::bass_6())
        } else if str_eq(name, "bass_drop_d") {
            Some(Self::bass_drop_d())
        } else {
            None
        }
    }

    /// The preset of the given name; four-string standard tuning where the
    /// name is not that of a preset.
    pub fn from_name_or_default(name: &str) -> (r: Self)
        ensures
            r@ == preset_or_default(name@),
            r@.is_valid(),
    {
        match Self::from_name(name) {
            Some(t) => t,
            None => Self::bass_4(),
        }
    }

    /// The names of the presets.
    pub fn preset_names() -> (r: Vec<&'static str>)
        ensures
            r@.len() == 4,
            r@[0]@ == "bass_4"@,
            r@[1]@ == "bass_5"@,
            r@[2]@ == "bass_6"@,
            r@[3]@ == "bass_drop_d"@,
            forall|name: Seq<char>|
                preset(name) is Some <==> exists|i: int| 0 <= i < 4 && (#[trigger] r@[i])@ == name,
    {
        let names = vec!["bass_4", "bass_5", "bass_6", "bass_drop_d"];
        assert forall|name: Seq<char>| preset(name) is Some implies exists|i: int|
            0 <= i < 4 && (#[trigger] names@[i])@ == name by {
            if name == "bass_4"@ {
                assert(names@[0]@ == name);
            } else if name == "bass_5"@ {
                assert(names@[1]@ == name);
            } else if name == "bass_6"@ {
                assert(names@[2]@ == name);
            } else {
                assert(names@[3]@ == name);
            }
        }
        names
    }

    /// Whether the tuning is well formed.
    pub fn is_valid(&self) -> (r: bool)
        ensures
            r == self@.is_valid(),
    {
        let n = self.strings.len();
        if n > TUNING_LIMIT as usize || self.max_fret < 0 || self.max_fret > TUNING_LIMIT {
            return false;
        }
        let mut k: usize = 1;
        while k < n
            invariant
                1 <= k,
                n == self.strings.len(),
                forall|i: int, j: int|
                    0 <= i < j < k && j < n ==> (#[trigger] self@.strings[i]).offset < (
                    #[trigger] self@.strings[j]).offset,
            decreases n - k,
        {
            if self.strings[k - 1].offset >= self.strings[k].offset {
                assert(!(self@.strings[k - 1].offset < self@.strings[k as int].offset));
                return false;
            }
            assert forall|i: int, j: int| 0 <= i < j < k + 1 && j < n implies (
            #[trigger] self@.strings[i]).offset < (#[trigger] self@.strings[j]).offset by {
                if j == k && i < k - 1 {
                    assert(self@.strings[i].offset < self@.strings[k - 1].offset);
                }
            }
            k += 1;
        }
        true
    }
}

} // verus!
