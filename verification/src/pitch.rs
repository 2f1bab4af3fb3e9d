//! Pitches as mathematical integers, and their link to the bytes that hold
//! them.

use vstd::prelude::*;
use crate::text::same_text;

verus! {

/// The pitches that a list of note bytes stands for.
pub open spec fn pitches(notes: Seq<u8>) -> Seq<int> {
    Seq::new(notes.len(), |i: int| notes[i] as int)
}

/// Whether every pitch can be held in one byte.
pub open spec fn fits_bytes(p: Seq<int>) -> bool {
    forall|i: int| 0 <= i < p.len() ==> 0 <= #[trigger] p[i] <= 255
}

/// The note bytes that hold the given pitches; meaningful where
/// [`fits_bytes`] holds.
pub open spec fn as_bytes(p: Seq<int>) -> Seq<u8> {
    Seq::new(p.len(), |i: int| p[i] as u8)
}

/// A note list together with the fact whether the name that asked for it was
/// a known one. Where it was not, the notes are those of the default.
#[derive(Debug, PartialEq, Eq)]
pub struct Outcome {
    pub notes: Vec<u8>,
    pub recognized: bool,
}

/// The twelve pitch classes. A sharp is written with a trailing `s`, so
/// `Cs` is C sharp.
#[derive(Clone, Copy, Debug, PartialEq, Eq, Structural)]
pub enum Note {
    C,
    Cs,
    D,
    Ds,
    E,
    F,
    Fs,
    G,
    Gs,
    A,
    As,
    B,
}

/// The pitch class that a name stands for, if it stands for one. Names are
/// case sensitive.
pub open spec fn note_named(name: Seq<char>) -> Option<Note> {
    if name == "C"@ {
        Some(Note::C)
    } else if name == "Cs"@ {
        Some(Note::Cs)
    } else if name == "D"@ {
        Some(Note::D)
    } else if name == "Ds"@ {
        Some(Note::Ds)
    } else if name == "E"@ {
        Some(Note::E)
    } else if name == "F"@ {
        Some(Note::F)
    } else if name == "Fs"@ {
        Some(Note::Fs)
    } else if name == "G"@ {
        Some(Note::G)
    } else if name == "Gs"@ {
        Some(Note::Gs)
    } else if name == "A"@ {
        Some(Note::A)
    } else if name == "As"@ {
        Some(Note::As)
    } else if name == "B"@ {
        Some(Note::B)
    } else {
        None
    }
}

/// The number of semitones that a root name raises a scale by: the offset of
/// the pitch class it stands for, or none where it stands for no pitch class.
pub open spec fn root_offset(name: Seq<char>) -> int {
    match note_named(name) {
        Some(n) => n.offset(),
        None => 0,
    }
}

/// The scale `t` with every degree raised by `by` semitones.
pub open spec fn transposed(t: Seq<int>, by: int) -> Seq<int> {
    Seq::new(t.len(), |i: int| t[i] + by)
}

/// The pitches of the template: a major scale from note 36 up to its octave
/// at 48, in steps of whole, whole, half, whole, whole, whole, half.
pub open spec fn template_pitches() -> Seq<int> {
    seq![36, 38, 40, 41, 43, 45, 47, 48]
}

impl Note {
    /// The distance from C in semitones, from 0 for C to 11 for B.
    pub open spec fn offset(self) -> int {
        match self {
            Note::C => 0,
            Note::Cs => 1,
            Note::D => 2,
            Note::Ds => 3,
            Note::E => 4,
            Note::F => 5,
            Note::Fs => 6,
            Note::G => 7,
            Note::Gs => 8,
            Note::A => 9,
            Note::As => 10,
            Note::B => 11,
        }
    }

    /// The distance from C in semitones.
    pub fn semitone(self) -> (s: u8)
        ensures
            s == self.offset(),
            s <= 11,
    {
        match self {
            Note::C => 0,
            Note::Cs => 1,
            Note::D => 2,
            Note::Ds => 3,
            Note::E => 4,
            Note::F => 5,
            Note::Fs => 6,
            Note::G => 7,
            Note::Gs => 8,
            Note::A => 9,
            Note::As => 10,
            Note::B => 11,
        }
    }

    /// Looks a pitch class up by its name.
    pub fn from_name(name: &str) -> (found: Option<Note>)
        ensures
            found == note_named(name@),
    {
        if same_text(name, "C") {
            Some(Note::C)
        } else if same_text(name, "Cs") {
            Some(Note::Cs)
        } else if same_text(name, "D") {
            Some(Note::D)
        } else if same_text(name, "Ds") {
            Some(Note::Ds)
        } else if same_text(name, "E") {
            Some(Note::E)
        } else if same_text(name, "F") {
            Some(Note::F)
        } else if same_text(name, "Fs") {
            Some(Note::Fs)
        } else if same_text(name, "G") {
            Some(Note::G)
        } else if same_text(name, "Gs") {
            Some(Note::Gs)
        } else if same_text(name, "A") {
            Some(Note::A)
        } else if same_text(name, "As") {
            Some(Note::As)
        } else if same_text(name, "B") {
            Some(Note::B)
        } else {
            None
        }
    }
}

/// The template scale that every request starts from.
pub fn template_scale() -> (template: Vec<u8>)
    ensures
        template@ == as_bytes(template_pitches()),
{
    let template: Vec<u8> = vec![36, 38, 40, 41, 43, 45, 47, 48];
    assert(template@ =~= as_bytes(template_pitches()));
    template
}

/// Raises every degree of `template` by the offset of the root that `root`
/// names, keeping count and order. A name that stands for no pitch class
/// leaves the template as it is, and the outcome says that the name was not
/// recognized.
pub fn transpose_scale(template: &Vec<u8>, root: &str) -> (out: Outcome)
    requires
        fits_bytes(transposed(pitches(template@), root_offset(root@))),
    ensures
        out.notes@ == as_bytes(transposed(pitches(template@), root_offset(root@))),
        out.recognized == note_named(root@).is_some(),
{
    let found = Note::from_name(root);
    let by: u8 = match found {
        Some(note) => note.semitone(),
        None => 0,
    };
    let ghost want = transposed(pitches(template@), root_offset(root@));
    let mut notes: Vec<u8> = Vec::new();
    let mut i: usize = 0;
    while i < template.len()
        invariant
            i <= template@.len(),
            by == root_offset(root@),
            want == transposed(pitches(template@), by as int),
            fits_bytes(want),
            notes@.len() == i,
            forall|k: int| 0 <= k < i ==> notes@[k] == want[k] as u8,
        decreases template@.len() - i,
    {
        assert(want[i as int] == template@[i as int] + by);
        notes.push(template[i] + by);
        i += 1;
    }
    assert(notes@ =~= as_bytes(want));
    Outcome { notes, recognized: found.is_some() }
}

/// Spells out [`fits_bytes`] for the first eight positions.
pub proof fn lemma_fits_first_eight(p: Seq<int>)
    requires
        fits_bytes(p),
    ensures
        p.len() > 0 ==> 0 <= p[0] <= 255,
        p.len() > 1 ==> 0 <= p[1] <= 255,
        p.len() > 2 ==> 0 <= p[2] <= 255,
        p.len() > 3 ==> 0 <= p[3] <= 255,
        p.len() > 4 ==> 0 <= p[4] <= 255,
        p.len() > 5 ==> 0 <= p[5] <= 255,
        p.len() > 6 ==> 0 <= p[6] <= 255,
        p.len() > 7 ==> 0 <= p[7] <= 255,
{
}

} // verus!
