//! Chord qualities: which degrees of a scale a chord keeps, and how it bends
//! them.

use vstd::prelude::*;
use crate::pitch::{as_bytes, fits_bytes, lemma_fits_first_eight, pitches, Outcome};
use crate::text::same_text;

verus! {

/// The chord qualities that have a name.
#[derive(Clone, Copy, Debug, PartialEq, Eq, Structural)]
pub enum Quality {
    /// Major triad. Written `maj`.
    Major,
    /// Minor triad. Written `m` or `min`.
    Minor,
    /// Dominant seventh. Written `7`.
    Dominant7,
    /// Minor seventh. Written `m7`.
    Minor7,
    /// Major seventh. Written `maj7`.
    Major7,
    /// Minor triad with a major seventh. Written `minM7` or `mM7`.
    MinorMajor7,
    /// Major sixth. Written `6`.
    Sixth,
    /// Minor sixth. Written `m6`.
    Minor6,
    /// Major triad with the ninth. Written `6/9`.
    SixNine,
    /// Root and fifth only. Written `5`.
    Power,
    /// Dominant ninth. Written `9`.
    Ninth,
    /// Minor ninth. Written `m9`.
    Minor9,
    /// Major ninth. Written `maj9`.
    Major9,
    /// Dominant eleventh. Written `11`.
    Eleventh,
    /// Minor eleventh. Written `m11`.
    Minor11,
    /// Major eleventh. Written `maj11`.
    Major11,
    /// Dominant thirteenth. Written `13`.
    Thirteenth,
    /// Minor thirteenth. Written `m13`.
    Minor13,
    /// Major thirteenth. Written `maj13`.
    Major13,
    /// Written as an added second; sounds as the plain major triad. Written `add2`.
    Add2,
    /// Major triad with an added ninth. Written `add9`.
    Add9,
    /// Dominant seventh with a flattened fifth. Written `7b5`.
    SevenFlat5,
    /// Dominant seventh with a sharpened fifth. Written `7s5`.
    SevenSharp5,
    /// Second in place of the third. Written `sus2`.
    Sus2,
    /// Fourth in place of the third. Written `sus4`.
    Sus4,
    /// Diminished triad. Written `dim`.
    Diminished,
    /// Diminished seventh; the sixth serves as the doubly flattened seventh. Written `dim7`.
    Diminished7,
    /// Minor seventh with a flattened fifth. Written `m7b5`.
    HalfDiminished,
    /// Augmented triad. Written `aug`.
    Augmented,
    /// Augmented triad with a minor seventh. Written `aug7`.
    Augmented7,
}

/// The quality that a name stands for, if it stands for one. Names are case
/// sensitive.
pub open spec fn quality_named(name: Seq<char>) -> Option<Quality> {
    if name == "maj"@ {
        Some(Quality::Major)
    } else if name == "m"@ || name == "min"@ {
        Some(Quality::Minor)
    } else if name == "7"@ {
        Some(Quality::Dominant7)
    } else if name == "m7"@ {
        Some(Quality::Minor7)
    } else if name == "maj7"@ {
        Some(Quality::Major7)
    } else if name == "minM7"@ || name == "mM7"@ {
        Some(Quality::MinorMajor7)
    } else if name == "6"@ {
        Some(Quality::Sixth)
    } else if name == "m6"@ {
        Some(Quality::Minor6)
    } else if name == "6/9"@ {
        Some(Quality::SixNine)
    } else if name == "5"@ {
        Some(Quality::Power)
    } else if name == "9"@ {
        Some(Quality::Ninth)
    } else if name == "m9"@ {
        Some(Quality::Minor9)
    } else if name == "maj9"@ {
        Some(Quality::Major9)
    } else if name == "11"@ {
        Some(Quality::Eleventh)
    } else if name == "m11"@ {
        Some(Quality::Minor11)
    } else if name == "maj11"@ {
        Some(Quality::Major11)
    } else if name == "13"@ {
        Some(Quality::Thirteenth)
    } else if name == "m13"@ {
        Some(Quality::Minor13)
    } else if name == "maj13"@ {
        Some(Quality::Major13)
    } else if name == "add2"@ {
        Some(Quality::Add2)
    } else if name == "add9"@ {
        Some(Quality::Add9)
    } else if name == "7b5"@ {
        Some(Quality::SevenFlat5)
    } else if name == "7s5"@ {
        Some(Quality::SevenSharp5)
    } else if name == "sus2"@ {
        Some(Quality::Sus2)
    } else if name == "sus4"@ {
        Some(Quality::Sus4)
    } else if name == "dim"@ {
        Some(Quality::Diminished)
    } else if name == "dim7"@ {
        Some(Quality::Diminished7)
    } else if name == "m7b5"@ {
        Some(Quality::HalfDiminished)
    } else if name == "aug"@ {
        Some(Quality::Augmented)
    } else if name == "aug7"@ {
        Some(Quality::Augmented7)
    } else {
        None
    }
}

/// The quality used for a name: the one it stands for, or the major triad
/// where it stands for none.
pub open spec fn quality_or_major(name: Seq<char>) -> Quality {
    match quality_named(name) {
        Some(q) => q,
        None => Quality::Major,
    }
}

/// The pitches of the chord of quality `q` built on the eight-degree scale
/// `t`, lowest degree first.
///
/// The octave is never part of a chord. A degree raised by twelve is the
/// same degree an octave up: the second becomes the ninth, the fourth the
/// eleventh, the sixth the thirteenth. It keeps its place in the list.
pub open spec fn chord_pitches(t: Seq<int>, q: Quality) -> Seq<int> {
    let root = t[0];
    let second = t[1];
    let third = t[2];
    let fourth = t[3];
    let fifth = t[4];
    let sixth = t[5];
    let seventh = t[6];
    match q {
        Quality::Major => seq![root, third, fifth],
        Quality::Minor => seq![root, third - 1, fifth],
        Quality::Dominant7 => seq![root, third, fifth, seventh - 1],
        Quality::Minor7 => seq![root, third - 1, fifth, seventh - 1],
        Quality::Major7 => seq![root, third, fifth, seventh],
        Quality::MinorMajor7 => seq![root, third - 1, fifth, seventh],
        Quality::Sixth => seq![root, third, fifth, sixth],
        Quality::Minor6 => seq![root, third - 1, fifth, sixth],
        Quality::SixNine => seq![root, second + 12, third, fifth],
        Quality::Power => seq![root, fifth],
        Quality::Ninth => seq![root, second + 12, third, fifth, seventh - 1],
        Quality::Minor9 => seq![root, second + 12, third - 1, fifth, seventh - 1],
        Quality::Major9 => seq![root, second + 12, third, fifth, seventh],
        Quality::Eleventh => seq![root, second + 12, third, fourth + 12, fifth, seventh - 1],
        Quality::Minor11 => seq![root, second + 12, third - 1, fourth + 12, fifth, seventh - 1],
        Quality::Major11 => seq![root, second + 12, third, fourth + 12, fifth, seventh],
        Quality::Thirteenth => seq![root, second + 12, third, fourth + 12, fifth, sixth + 12, seventh - 1],
        Quality::Minor13 => seq![root, second + 12, third - 1, fourth + 12, fifth, sixth + 12, seventh - 1],
        Quality::Major13 => seq![root, second + 12, third, fourth + 12, fifth, sixth + 12, seventh],
        Quality::Add2 => seq![root, third, fifth],
        Quality::Add9 => seq![root, second + 12, third, fifth],
        Quality::SevenFlat5 => seq![root, third, fifth - 1, seventh - 1],
        Quality::SevenSharp5 => seq![root, third, fifth + 1, seventh - 1],
        Quality::Sus2 => seq![root, second, fifth],
        Quality::Sus4 => seq![root, fourth, fifth],
        Quality::Diminished => seq![root, third - 1, fifth - 1],
        Quality::Diminished7 => seq![root, third - 1, fifth - 1, sixth],
        Quality::HalfDiminished => seq![root, third - 1, fifth - 1, seventh - 1],
        Quality::Augmented => seq![root, third, fifth + 1],
        Quality::Augmented7 => seq![root, third, fifth + 1, seventh - 1],
    }
}

impl Quality {
    /// Looks a quality up by its name.
    pub fn from_name(name: &str) -> (found: Option<Quality>)
        ensures
            found == quality_named(name@),
    {
        if same_text(name, "maj") {
            Some(Quality::Major)
        } else if same_text(name, "m") || same_text(name, "min") {
            Some(Quality::Minor)
        } else if same_text(name, "7") {
            Some(Quality::Dominant7)
        } else if same_text(name, "m7") {
            Some(Quality::Minor7)
        } else if same_text(name, "maj7") {
            Some(Quality::Major7)
        } else if same_text(name, "minM7") || same_text(name, "mM7") {
            Some(Quality::MinorMajor7)
        } else if same_text(name, "6") {
            Some(Quality::Sixth)
        } else if same_text(name, "m6") {
            Some(Quality::Minor6)
        } else if same_text(name, "6/9") {
            Some(Quality::SixNine)
        } else if same_text(name, "5") {
            Some(Quality::Power)
        } else if same_text(name, "9") {
            Some(Quality::Ninth)
        } else if same_text(name, "m9") {
            Some(Quality::Minor9)
        } else if same_text(name, "maj9") {
            Some(Quality::Major9)
        } else if same_text(name, "11") {
            Some(Quality::Eleventh)
        } else if same_text(name, "m11") {
            Some(Quality::Minor11)
        } else if same_text(name, "maj11") {
            Some(Quality::Major11)
        } else if same_text(name, "13") {
            Some(Quality::Thirteenth)
        } else if same_text(name, "m13") {
            Some(Quality::Minor13)
        } else if same_text(name, "maj13") {
            Some(Quality::Major13)
        } else if same_text(name, "add2") {
            Some(Quality::Add2)
        } else if same_text(name, "add9") {
            Some(Quality::Add9)
        } else if same_text(name, "7b5") {
            Some(Quality::SevenFlat5)
        } else if same_text(name, "7s5") {
            Some(Quality::SevenSharp5)
        } else if same_text(name, "sus2") {
            Some(Quality::Sus2)
        } else if same_text(name, "sus4") {
            Some(Quality::Sus4)
        } else if same_text(name, "dim") {
            Some(Quality::Diminished)
        } else if same_text(name, "dim7") {
            Some(Quality::Diminished7)
        } else if same_text(name, "m7b5") {
            Some(Quality::HalfDiminished)
        } else if same_text(name, "aug") {
            Some(Quality::Augmented)
        } else if same_text(name, "aug7") {
            Some(Quality::Augmented7)
        } else {
            None
        }
    }

    /// Builds the chord of this quality from a transposed scale.
    ///
    /// Works on a copy of the scale: bends the degrees that the quality
    /// bends, then takes out the degrees it does not use, the highest first,
    /// so that a removal never moves a degree that is still to be removed.
    pub fn apply(self, transposed: &Vec<u8>) -> (notes: Vec<u8>)
        requires
            transposed@.len() == 8,
            fits_bytes(chord_pitches(pitches(transposed@), self)),
        ensures
            notes@ == as_bytes(chord_pitches(pitches(transposed@), self)),
    {
        proof {
            lemma_fits_first_eight(chord_pitches(pitches(transposed@), self));
        }
        let mut ret: Vec<u8> = transposed.clone();
        ret.remove(7);
        match self {
            Quality::Major => {
                ret.remove(6);
                ret.remove(5);
                ret.remove(3);
                ret.remove(1);
            },
            Quality::Minor => {
                ret[2] -= 1;
                ret.remove(6);
                ret.remove(5);
                ret.remove(3);
                ret.remove(1);
            },
            Quality::Dominant7 => {
                ret[6] -= 1;
                ret.remove(5);
                ret.remove(3);
                ret.remove(1);
            },
            Quality::Minor7 => {
                ret[2] -= 1;
                ret[6] -= 1;
                ret.remove(5);
                ret.remove(3);
                ret.remove(1);
            },
            Quality::Major7 => {
                ret.remove(5);
                ret.remove(3);
                ret.remove(1);
            },
            Quality::MinorMajor7 => {
                ret[2] -= 1;
                ret.remove(5);
                ret.remove(3);
                ret.remove(1);
            },
            Quality::Sixth => {
                ret.remove(6);
                ret.remove(3);
                ret.remove(1);
            },
            Quality::Minor6 => {
                ret[2] -= 1;
                ret.remove(6);
                ret.remove(3);
                ret.remove(1);
            },
            Quality::SixNine => {
                ret[1] += 12;
                ret.remove(6);
                ret.remove(5);
                ret.remove(3);
            },
            Quality::Power => {
                ret.remove(6);
                ret.remove(5);
                ret.remove(3);
                ret.remove(2);
                ret.remove(1);
            },
            Quality::Ninth => {
                ret[1] += 12;
                ret[6] -= 1;
                ret.remove(5);
                ret.remove(3);
            },
            Quality::Minor9 => {
                ret[1] += 12;
                ret[2] -= 1;
                ret[6] -= 1;
                ret.remove(5);
                ret.remove(3);
            },
            Quality::Major9 => {
                ret[1] += 12;
                ret.remove(5);
                ret.remove(3);
            },
            Quality::Eleventh => {
                ret[1] += 12;
                ret[3] += 12;
                ret[6] -= 1;
                ret.remove(5);
            },
            Quality::Minor11 => {
                ret[1] += 12;
                ret[2] -= 1;
                ret[3] += 12;
                ret[6] -= 1;
                ret.remove(5);
            },
            Quality::Major11 => {
                ret[1] += 12;
                ret[3] += 12;
                ret.remove(5);
            },
            Quality::Thirteenth => {
                ret[1] += 12;
                ret[3] += 12;
                ret[5] += 12;
                ret[6] -= 1;
            },
            Quality::Minor13 => {
                ret[1] += 12;
                ret[2] -= 1;
                ret[3] += 12;
                ret[5] += 12;
                ret[6] -= 1;
            },
            Quality::Major13 => {
                ret[1] += 12;
                ret[3] += 12;
                ret[5] += 12;
            },
            Quality::Add2 => {
                ret.remove(6);
                ret.remove(5);
                ret.remove(3);
                ret.remove(1);
            },
            Quality::Add9 => {
                ret[1] += 12;
                ret.remove(6);
                ret.remove(5);
                ret.remove(3);
            },
            Quality::SevenFlat5 => {
                ret[4] -= 1;
                ret[6] -= 1;
                ret.remove(5);
                ret.remove(3);
                ret.remove(1);
            },
            Quality::SevenSharp5 => {
                ret[4] += 1;
                ret[6] -= 1;
                ret.remove(5);
                ret.remove(3);
                ret.remove(1);
            },
            Quality::Sus2 => {
                ret.remove(6);
                ret.remove(5);
                ret.remove(3);
                ret.remove(2);
            },
            Quality::Sus4 => {
                ret.remove(6);
                ret.remove(5);
                ret.remove(2);
                ret.remove(1);
            },
            Quality::Diminished => {
                ret[2] -= 1;
                ret[4] -= 1;
                ret.remove(6);
                ret.remove(5);
                ret.remove(3);
                ret.remove(1);
            },
            Quality::Diminished7 => {
                ret[2] -= 1;
                ret[4] -= 1;
                ret.remove(6);
                ret.remove(3);
                ret.remove(1);
            },
            Quality::HalfDiminished => {
                ret[2] -= 1;
                ret[4] -= 1;
                ret[6] -= 1;
                ret.remove(5);
                ret.remove(3);
                ret.remove(1);
            },
            Quality::Augmented => {
                ret[4] += 1;
                ret.remove(6);
                ret.remove(5);
                ret.remove(3);
                ret.remove(1);
            },
            Quality::Augmented7 => {
                ret[4] += 1;
                ret[6] -= 1;
                ret.remove(5);
                ret.remove(3);
                ret.remove(1);
            },
        }
        ret
    }
}

/// Builds the chord that `mapping` names from a transposed scale. A name
/// that stands for no quality gives the major triad, and the outcome says
/// that the name was not recognized.
pub fn map_chord(transposed: &Vec<u8>, mapping: &str) -> (out: Outcome)
    requires
        transposed@.len() == 8,
        fits_bytes(chord_pitches(pitches(transposed@), quality_or_major(mapping@))),
    ensures
        out.notes@ == as_bytes(chord_pitches(pitches(transposed@), quality_or_major(mapping@))),
        out.recognized == quality_named(mapping@).is_some(),
{
    match Quality::from_name(mapping) {
        Some(quality) => Outcome { notes: quality.apply(transposed), recognized: true },
        None => Outcome { notes: Quality::Major.apply(transposed), recognized: false },
    }
}

} // verus!
