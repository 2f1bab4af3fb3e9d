//! Scale modes: how each mode bends or drops the degrees of a major scale.

use vstd::prelude::*;
use crate::pitch::{as_bytes, fits_bytes, lemma_fits_first_eight, pitches, Outcome};
use crate::text::same_text;

verus! {

/// The scale modes that have a name.
#[derive(Clone, Copy, Debug, PartialEq, Eq, Structural)]
pub enum Mode {
    /// The major scale. Written `major` or `ionian`.
    Major,
    /// The natural minor scale. Written `minor`, `natural_minor` or `aeolian`.
    NaturalMinor,
    /// Natural minor with the seventh left major. Written `harmonic_minor`.
    HarmonicMinor,
    /// Major with a minor third. Written `melodic_minor`.
    MelodicMinor,
    /// Minor third and minor seventh. Written `dorian`.
    Dorian,
    /// Natural minor with a minor second. Written `phrygian`.
    Phrygian,
    /// Major with a raised fourth. Written `lydian`.
    Lydian,
    /// Major with a minor seventh. Written `mixolydian`.
    Mixolydian,
    /// Phrygian with a flattened fifth. Written `locrian`.
    Locrian,
    /// Major without its third and seventh degrees. Written `pentatonic` or `major_pentatonic`.
    MajorPentatonic,
    /// The pentatonic with its second and fifth degree raised. Written `minor_pentatonic`.
    MinorPentatonic,
}

/// The mode that a name stands for, if it stands for one. Names are case
/// sensitive.
pub open spec fn mode_named(name: Seq<char>) -> Option<Mode> {
    if name == "major"@ || name == "ionian"@ {
        Some(Mode::Major)
    } else if name == "minor"@ || name == "natural_minor"@ || name == "aeolian"@ {
        Some(Mode::NaturalMinor)
    } else if name == "harmonic_minor"@ {
        Some(Mode::HarmonicMinor)
    } else if name == "melodic_minor"@ {
        Some(Mode::MelodicMinor)
    } else if name == "dorian"@ {
        Some(Mode::Dorian)
    } else if name == "phrygian"@ {
        Some(Mode::Phrygian)
    } else if name == "lydian"@ {
        Some(Mode::Lydian)
    } else if name == "mixolydian"@ {
        Some(Mode::Mixolydian)
    } else if name == "locrian"@ {
        Some(Mode::Locrian)
    } else if name == "pentatonic"@ || name == "major_pentatonic"@ {
        Some(Mode::MajorPentatonic)
    } else if name == "minor_pentatonic"@ {
        Some(Mode::MinorPentatonic)
    } else {
        None
    }
}

/// The mode used for a name: the one it stands for, or major where it stands
/// for none.
pub open spec fn mode_or_major(name: Seq<char>) -> Mode {
    match mode_named(name) {
        Some(m) => m,
        None => Mode::Major,
    }
}

/// The pitches of the scale in mode `m` on the eight-degree major scale `t`,
/// in ascending degree order.
///
/// The pentatonic modes have six notes, the others eight: they drop the
/// third and the seventh degree. The minor pentatonic also raises the second
/// and the fifth degree of the eight by a semitone.
pub open spec fn scale_pitches(t: Seq<int>, m: Mode) -> Seq<int> {
    let root = t[0];
    let second = t[1];
    let third = t[2];
    let fourth = t[3];
    let fifth = t[4];
    let sixth = t[5];
    let seventh = t[6];
    let octave = t[7];
    match m {
        Mode::Major => seq![root, second, third, fourth, fifth, sixth, seventh, octave],
        Mode::NaturalMinor => seq![
            root,
            second,
            third - 1,
            fourth,
            fifth,
            sixth - 1,
            seventh - 1,
            octave,
        ],
        Mode::HarmonicMinor => seq![
            root,
            second,
            third - 1,
            fourth,
            fifth,
            sixth - 1,
            seventh,
            octave,
        ],
        Mode::MelodicMinor => seq![root, second, third - 1, fourth, fifth, sixth, seventh, octave],
        Mode::Dorian => seq![root, second, third - 1, fourth, fifth, sixth, seventh - 1, octave],
        Mode::Phrygian => seq![
            root,
            second - 1,
            third - 1,
            fourth,
            fifth,
            sixth - 1,
            seventh - 1,
            octave,
        ],
        Mode::Lydian => seq![root, second, third, fourth + 1, fifth, sixth, seventh, octave],
        Mode::Mixolydian => seq![root, second, third, fourth, fifth, sixth, seventh - 1, octave],
        Mode::Locrian => seq![
            root,
            second - 1,
            third - 1,
            fourth,
            fifth - 1,
            sixth - 1,
            seventh - 1,
            octave,
        ],
        Mode::MajorPentatonic => seq![root, second, fourth, fifth, sixth, octave],
        Mode::MinorPentatonic => seq![root, second + 1, fourth, fifth + 1, sixth, octave],
    }
}

impl Mode {
    /// Looks a mode up by its name.
    pub fn from_name(name: &str) -> (found: Option<Mode>)
        ensures
            found == mode_named(name@),
    {
        if same_text(name, "major") || same_text(name, "ionian") {
            Some(Mode::Major)
        } else if same_text(name, "minor")
            || same_text(name, "natural_minor")
            || same_text(name, "aeolian")
        {
            Some(Mode::NaturalMinor)
        } else if same_text(name, "harmonic_minor") {
            Some(Mode::HarmonicMinor)
        } else if same_text(name, "melodic_minor") {
            Some(Mode::MelodicMinor)
        } else if same_text(name, "dorian") {
            Some(Mode::Dorian)
        } else if same_text(name, "phrygian") {
            Some(Mode::Phrygian)
        } else if same_text(name, "lydian") {
            Some(Mode::Lydian)
        } else if same_text(name, "mixolydian") {
            Some(Mode::Mixolydian)
        } else if same_text(name, "locrian") {
            Some(Mode::Locrian)
        } else if same_text(name, "pentatonic") || same_text(name, "major_pentatonic") {
            Some(Mode::MajorPentatonic)
        } else if same_text(name, "minor_pentatonic") {
            Some(Mode::MinorPentatonic)
        } else {
            None
        }
    }

    /// Builds the scale of this mode from a transposed major scale.
    ///
    /// Works on a copy: bends the degrees that the mode bends, in place, while
    /// all eight still stand where their numbers say. A pentatonic mode then
    /// takes out the seventh and the third degree, the higher one first so
    /// that the lower keeps its place.
    pub fn apply(self, transposed: &Vec<u8>) -> (notes: Vec<u8>)
        requires
            transposed@.len() == 8,
            fits_bytes(scale_pitches(pitches(transposed@), self)),
        ensures
            notes@ == as_bytes(scale_pitches(pitches(transposed@), self)),
    {
        proof {
            lemma_fits_first_eight(scale_pitches(pitches(transposed@), self));
        }
        let mut ret: Vec<u8> = transposed.clone();
        match self {
            Mode::Major => {
            },
            Mode::NaturalMinor => {
                ret[2] -= 1;
                ret[5] -= 1;
                ret[6] -= 1;
            },
            Mode::HarmonicMinor => {
                ret[2] -= 1;
                ret[5] -= 1;
            },
            Mode::MelodicMinor => {
                ret[2] -= 1;
            },
            Mode::Dorian => {
                ret[2] -= 1;
                ret[6] -= 1;
            },
            Mode::Phrygian => {
                ret[1] -= 1;
                ret[2] -= 1;
                ret[5] -= 1;
                ret[6] -= 1;
            },
            Mode::Lydian => {
                ret[3] += 1;
            },
            Mode::Mixolydian => {
                ret[6] -= 1;
            },
            Mode::Locrian => {
                ret[1] -= 1;
                ret[2] -= 1;
                ret[4] -= 1;
                ret[5] -= 1;
                ret[6] -= 1;
            },
            Mode::MajorPentatonic => {
                ret.remove(6);
                ret.remove(2);
            },
            Mode::MinorPentatonic => {
                ret[1] += 1;
                ret[4] += 1;
                ret.remove(6);
                ret.remove(2);
            },
        }
        ret
    }
}

/// Builds the scale that `mapping` names from a transposed major scale. A
/// name that stands for no mode gives the major scale, that is the input
/// unchanged, and the outcome says that the name was not recognized.
pub fn map_scale(transposed: &Vec<u8>, mapping: &str) -> (out: Outcome)
    requires
        transposed@.len() == 8,
        fits_bytes(scale_pitches(pitches(transposed@), mode_or_major(mapping@))),
    ensures
        out.notes@ == as_bytes(scale_pitches(pitches(transposed@), mode_or_major(mapping@))),
        out.recognized == mode_named(mapping@).is_some(),
{
    match Mode::from_name(mapping) {
        Some(mode) => Outcome { notes: mode.apply(transposed), recognized: true },
        None => Outcome { notes: Mode::Major.apply(transposed), recognized: false },
    }
}

} // verus!
