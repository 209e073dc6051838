//! Where on the fingerboard a pitch can be played.

use crate::position::FretPosition;
use crate::tuning::{Tuning, TuningView};
use vstd::prelude::*;

verus! {

impl TuningView {
    /// Whether the string at index `i` (0 is the lowest-pitched string) can
    /// sound the pitch: the pitch is neither below the open string nor above
    /// its highest fret.
    pub open spec fn sounds(self, i: int, pitch: int) -> bool {
        &&& 0 <= i < self.strings.len()
        &&& self.strings[i].offset <= pitch <= self.strings[i].offset + self.max_fret
    }

    /// The position at which the string at index `i` sounds the pitch.
    pub open spec fn position_at(self, i: int, pitch: int) -> FretPosition {
        FretPosition {
            string: (self.strings.len() - i) as u8,
            fret: (pitch - self.strings[i].offset) as u8,
            finger: None,
        }
    }

    /// The positions of the pitch on the `n` lowest-pitched strings, the
    /// lowest-pitched string first.
    pub open spec fn candidates_among(self, pitch: int, n: int) -> Seq<FretPosition>
        decreases n,
    {
        if n <= 0 {
            Seq::empty()
        } else if self.sounds(n - 1, pitch) {
            self.candidates_among(pitch, n - 1).push(self.position_at(n - 1, pitch))
        } else {
            self.candidates_among(pitch, n - 1)
        }
    }

    /// Every position at which the pitch can be played, the lowest-pitched
    /// string first.
    pub open spec fn candidates(self, pitch: int) -> Seq<FretPosition> {
        self.candidates_among(pitch, self.strings.len() as int)
    }

    /// Whether some string can sound the pitch.
    pub open spec fn reaches(self, pitch: int) -> bool {
        exists|i: int| self.sounds(i, pitch)
    }

    /// Whether `c` is a place where the tuning sounds the pitch: a string
    /// of the instrument, a fret up to the ceiling, no finger named, and the
    /// open pitch of the string plus the fret is the pitch.
    pub open spec fn plays(self, c: FretPosition, pitch: int) -> bool {
        &&& 1 <= c.string <= self.strings.len()
        &&& c.fret <= self.max_fret
        &&& c.finger is None
        &&& c.pitch_in(self) == pitch
    }
}

/// What holds of the candidates found on the `n` lowest-pitched strings.
proof fn lemma_candidates_among(tuning: TuningView, pitch: int, n: int)
    requires
        tuning.is_valid(),
        0 <= n <= tuning.strings.len(),
    ensures
        tuning.candidates_among(pitch, n).len() <= n,
        forall|k: int|
            0 <= k < tuning.candidates_among(pitch, n).len() ==> {
                let c = #[trigger] tuning.candidates_among(pitch, n)[k];
                tuning.plays(c, pitch) && c.string > tuning.strings.len() - n
            },
        forall|i: int|
            0 <= i < n && tuning.sounds(i, pitch) ==> tuning.candidates_among(pitch, n).contains(
                #[trigger] tuning.position_at(i, pitch),
            ),
        forall|j: int, k: int|
            0 <= j < k < tuning.candidates_among(pitch, n).len() ==> (
            #[trigger] tuning.candidates_among(pitch, n)[j]).string > (
            #[trigger] tuning.candidates_among(pitch, n)[k]).string,
    decreases n,
{
    if n > 0 {
        lemma_candidates_among(tuning, pitch, n - 1);
        let before = tuning.candidates_among(pitch, n - 1);
        let now = tuning.candidates_among(pitch, n);
        if tuning.sounds(n - 1, pitch) {
            let c = tuning.position_at(n - 1, pitch);
            assert(now == before.push(c));
            assert(tuning.plays(c, pitch));
            assert(now[before.len() as int] == c);
            assert forall|i: int| 0 <= i < n && tuning.sounds(i, pitch) implies now.contains(
                #[trigger] tuning.position_at(i, pitch),
            ) by {
                if i < n - 1 {
                    let k = choose|k: int|
                        0 <= k < before.len() && before[k] == tuning.position_at(i, pitch);
                    assert(now[k] == tuning.position_at(i, pitch));
                }
            }
        }
    }
}

/// A pitch that the tuning reaches has at least one candidate, and one it
/// does not reach has none. Every candidate lies on a string of the
/// instrument, at a fret up to the ceiling, where the open pitch of the
/// string plus the fret is the pitch; every such place is a candidate; and
/// the candidates run from the lowest-pitched string to the highest, so no
/// string occurs twice.
pub proof fn lemma_candidates(tuning: TuningView, pitch: int)
    requires
        tuning.is_valid(),
    ensures
        tuning.reaches(pitch) <==> tuning.candidates(pitch).len() > 0,
        tuning.candidates(pitch).len() <= tuning.strings.len(),
        forall|c: FretPosition|
            tuning.candidates(pitch).contains(c) <==> #[trigger] tuning.plays(c, pitch),
        forall|j: int, k: int|
            0 <= j < k < tuning.candidates(pitch).len() ==> (
            #[trigger] tuning.candidates(pitch)[j]).string > (#[trigger] tuning.candidates(
                pitch,
            )[k]).string,
        tuning.candidates(pitch).no_duplicates(),
{
    let n = tuning.strings.len() as int;
    let found = tuning.candidates(pitch);
    lemma_candidates_among(tuning, pitch, n);
    assert forall|j: int, k: int|
        0 <= j < found.len() && 0 <= k < found.len() && j != k implies found[j] != found[k] by {
        if j < k {
            assert(found[j].string > found[k].string);
        } else {
            assert(found[k].string > found[j].string);
        }
    }
    assert forall|c: FretPosition| #[trigger] tuning.plays(c, pitch) implies found.contains(c) by {
        let i = n - c.string;
        assert(tuning.sounds(i, pitch));
        assert(tuning.position_at(i, pitch) == c);
    }
    if tuning.reaches(pitch) {
        let i = choose|i: int| tuning.sounds(i, pitch);
        assert(found.contains(tuning.position_at(i, pitch)));
    }
    if found.len() > 0 {
        let c = found[0];
        assert(tuning.plays(c, pitch));
        assert(tuning.sounds(n - c.string, pitch));
    }
}

/// Every position at which a tuning sounds a pitch, the lowest-pitched
/// string first. The result is empty where the pitch lies outside the range
/// of the instrument.
pub fn generate_all_positions(pitch: i32, tuning: &Tuning) -> (r: Vec<FretPosition>)
    requires
        tuning@.is_valid(),
    ensures
        r@ == tuning@.candidates(pitch as int),
        r@.len() > 0 <==> tuning@.reaches(pitch as int),
        forall|c: FretPosition| r@.contains(c) <==> #[trigger] tuning@.plays(c, pitch as int),
        r@.no_duplicates(),
{
    proof {
        lemma_candidates(tuning@, pitch as int);
    }
    let n = tuning.strings.len();
    let mut positions: Vec<FretPosition> = Vec::new();
    let mut i: usize = 0;
    while i < n
        invariant
            i <= n,
            n == tuning.strings.len(),
            tuning@.is_valid(),
            positions@ == tuning@.candidates_among(pitch as int, i as int),
        decreases n - i,
    {
        let offset = tuning.strings[i].offset as i64;
        let fret = pitch as i64 - offset;
        assert(tuning@.strings[i as int].offset == offset);
        if 0 <= fret && fret <= tuning.max_fret as i64 {
            positions.push(FretPosition::new((n - i) as u8, fret as u8));
        }
        i += 1;
    }
    positions
}

/// A pitch to be placed on the fingerboard, with the labels it carries.
#[derive(Clone, Debug)]
pub struct FretWithPitch {
    /// The interval the pitch forms with the root of its chord or scale.
    pub interval: String,
    /// The pitch, in semitones above the reference zero.
    pub fret: i32,
    /// The name of the note.
    pub pitch: String,
}

/// What a [`FretWithPitch`] stands for.
pub struct FretWithPitchView {
    pub interval: Seq<char>,
    pub fret: int,
    pub pitch: Seq<char>,
}

impl View for FretWithPitch {
    type V = FretWithPitchView;

    open spec fn view(&self) -> FretWithPitchView {
        FretWithPitchView { interval: self.interval@, fret: self.fret as int, pitch: self.pitch@ }
    }
}

/// A position on the fingerboard with the name of its note and of its
/// interval.
#[derive(Clone, Debug)]
pub struct Position {
    string: i32,
    fret: i32,
    pitch: String,
    interval: String,
}

/// What a [`Position`] stands for.
pub struct PositionView {
    pub string: int,
    pub fret: int,
    pub pitch: Seq<char>,
    pub interval: Seq<char>,
}

impl View for Position {
    type V = PositionView;

    closed spec fn view(&self) -> PositionView {
        PositionView {
            string: self.string as int,
            fret: self.fret as int,
            pitch: self.pitch@,
            interval: self.interval@,
        }
    }
}

impl Position {
    /// String number; 1 is the highest-pitched string.
    pub fn string(&self) -> (r: i32)
        ensures
            r == self@.string,
    {
        self.string
    }

    /// Fret number; 0 is the open string.
    pub fn fret(&self) -> (r: i32)
        ensures
            r == self@.fret,
    {
        self.fret
    }

    /// The name of the note.
    pub fn pitch(&self) -> (r: String)
        ensures
            r@ == self@.pitch,
    {
        self.pitch.clone()
    }

    /// The name of the interval.
    pub fn interval(&self) -> (r: String)
        ensures
            r@ == self@.interval,
    {
        self.interval.clone()
    }
}

/// A candidate position with the labels of the pitch it sounds.
pub open spec fn labelled(c: FretPosition, source: FretWithPitchView) -> PositionView {
    PositionView {
        string: c.string as int,
        fret: c.fret as int,
        pitch: source.pitch,
        interval: source.interval,
    }
}

/// The first `n` candidates of a pitch, each with the labels of the pitch.
pub open spec fn labelled_candidates(
    tuning: TuningView,
    source: FretWithPitchView,
    n: int,
) -> Seq<PositionView> {
    Seq::new(n as nat, |k: int| labelled(tuning.candidates(source.fret)[k], source))
}

/// The labelled positions of the first `n` pitches: those of the first
/// pitch, then those of the second, and so on.
pub open spec fn labelled_positions(
    tuning: TuningView,
    frets: Seq<FretWithPitchView>,
    n: int,
) -> Seq<PositionView>
    decreases n,
{
    if n <= 0 {
        Seq::empty()
    } else {
        labelled_positions(tuning, frets, n - 1) + labelled_candidates(
            tuning,
            frets[n - 1],
            tuning.candidates(frets[n - 1].fret).len() as int,
        )
    }
}

/// Every position of every given pitch under a tuning, each carrying the
/// labels of its pitch: pitch by pitch in the order given, and for each pitch
/// from the lowest-pitched string to the highest.
pub fn convert_to_positions(frets: &[FretWithPitch], tuning: &Tuning) -> (r: Vec<Position>)
    requires
        tuning@.is_valid(),
    ensures
        r@.map_values(|p: Position| p@) == labelled_positions(
            tuning@,
            frets@.map_values(|f: FretWithPitch| f@),
            frets@.len() as int,
        ),
{
    let ghost sources = frets@.map_values(|f: FretWithPitch| f@);
    let mut positions: Vec<Position> = Vec::new();
    let mut i: usize = 0;
    while i < frets.len()
        invariant
            i <= frets.len(),
            tuning@.is_valid(),
            sources == frets@.map_values(|f: FretWithPitch| f@),
            positions@.map_values(|p: Position| p@) == labelled_positions(
                tuning@,
                sources,
                i as int,
            ),
        decreases frets.len() - i,
    {
        let source = &frets[i];
        let candidates = generate_all_positions(source.fret, tuning);
        let ghost before = positions@.map_values(|p: Position| p@);
        assert(sources[i as int] == source@);
        let mut k: usize = 0;
        while k < candidates.len()
            invariant
                k <= candidates.len(),
                candidates@ == tuning@.candidates(source@.fret),
                positions@.map_values(|p: Position| p@) == before + labelled_candidates(
                    tuning@,
                    source@,
                    k as int,
                ),
            decreases candidates.len() - k,
        {
            let c = candidates[k];
            let ghost so_far = positions@.map_values(|p: Position| p@);
            let position = Position {
                string: c.string as i32,
                fret: c.fret as i32,
                pitch: source.pitch.clone(),
                interval: source.interval.clone(),
            };
            assert(position@ == labelled(c, source@));
            positions.push(position);
            assert(positions@.map_values(|p: Position| p@) =~= so_far.push(position@));
            assert(so_far.push(position@) =~= before + labelled_candidates(
                tuning@,
                source@,
                k as int + 1,
            ));
            k += 1;
        }
        i += 1;
    }
    positions
}

} // verus!
