//! What holds across the pitch functions: how transposition and the major
//! mode combine, what an unknown name gives, and which scales are safe to
//! map.

use vstd::prelude::*;
use crate::chord::{chord_pitches, quality_named, quality_or_major, Quality};
use crate::pitch::{as_bytes, fits_bytes, note_named, pitches, root_offset, transposed};
use crate::scale::{mode_named, mode_or_major, scale_pitches, Mode};

verus! {

/// Pitches that fit in bytes come back unchanged from the bytes that hold
/// them.
pub proof fn lemma_bytes_hold_pitches(p: Seq<int>)
    requires
        fits_bytes(p),
    ensures
        pitches(as_bytes(p)) == p,
{
    assert(pitches(as_bytes(p)) =~= p);
}

/// Note bytes always fit in bytes, and come back unchanged from their
/// pitches.
pub proof fn lemma_pitches_fit(notes: Seq<u8>)
    ensures
        fits_bytes(pitches(notes)),
        as_bytes(pitches(notes)) == notes,
{
    assert(as_bytes(pitches(notes)) =~= notes);
}

/// The offset of a root is that of the pitch class it names, between 0 and
/// 11, and 0 for the root C.
pub proof fn lemma_root_offset_range(root: Seq<char>)
    ensures
        0 <= root_offset(root) <= 11,
        root_offset("C"@) == 0,
{
}

/// Transposing a template and then taking the major mode raises every degree
/// by exactly the offset of the root, and so changes nothing for the root C.
pub proof fn lemma_transpose_then_major(template: Seq<u8>, root: Seq<char>)
    requires
        template.len() == 8,
        fits_bytes(transposed(pitches(template), root_offset(root))),
    ensures
        ({
            let moved = as_bytes(transposed(pitches(template), root_offset(root)));
            let scale = as_bytes(scale_pitches(pitches(moved), mode_or_major("major"@)));
            &&& scale.len() == 8
            &&& forall|i: int| 0 <= i < 8 ==> scale[i] == template[i] + root_offset(root)
            &&& root == "C"@ ==> scale == template
        }),
{
    let by = root_offset(root);
    let moved = as_bytes(transposed(pitches(template), by));
    let scale = as_bytes(scale_pitches(pitches(moved), Mode::Major));
    lemma_bytes_hold_pitches(transposed(pitches(template), by));
    assert forall|i: int| 0 <= i < 8 implies scale[i] == template[i] + by by {
        assert(transposed(pitches(template), by)[i] == template[i] + by);
    }
    if root == "C"@ {
        assert(scale =~= template);
    }
}

/// A root name that stands for no pitch class transposes as the root C does.
pub proof fn lemma_unknown_root_is_c(t: Seq<int>, root: Seq<char>)
    requires
        note_named(root).is_none(),
    ensures
        transposed(t, root_offset(root)) == transposed(t, root_offset("C"@)),
        transposed(t, root_offset(root)) == t,
{
    assert(transposed(t, 0) =~= t);
}

/// A mode name that stands for no mode gives what the name `major` gives:
/// the scale unchanged. Any eight note bytes can be mapped so.
pub proof fn lemma_unknown_mode_is_major(t: Seq<int>, name: Seq<char>)
    requires
        t.len() == 8,
        mode_named(name).is_none(),
    ensures
        scale_pitches(t, mode_or_major(name)) == scale_pitches(t, mode_or_major("major"@)),
        scale_pitches(t, mode_or_major(name)) == t,
        fits_bytes(t) ==> fits_bytes(scale_pitches(t, mode_or_major(name))),
{
    assert(scale_pitches(t, Mode::Major) =~= t);
}

/// A quality name that stands for no quality gives what the name `maj`
/// gives: root, third and fifth. Any eight note bytes can be mapped so.
pub proof fn lemma_unknown_quality_is_major(t: Seq<int>, name: Seq<char>)
    requires
        t.len() == 8,
        quality_named(name).is_none(),
    ensures
        chord_pitches(t, quality_or_major(name)) == chord_pitches(t, quality_or_major("maj"@)),
        chord_pitches(t, quality_or_major(name)) == seq![t[0], t[2], t[4]],
        fits_bytes(t) ==> fits_bytes(chord_pitches(t, quality_or_major(name))),
{
}

/// Every scale starts on the root and ends on the octave, and every chord
/// starts on the root: no mode and no quality bends or drops the first
/// degree, and a chord never holds the octave in its place.
pub proof fn lemma_first_degree_stays(t: Seq<int>, m: Mode, q: Quality)
    requires
        t.len() == 8,
    ensures
        scale_pitches(t, m)[0] == t[0],
        scale_pitches(t, m).last() == t[7],
        chord_pitches(t, q)[0] == t[0],
{
}

/// Every mode can be applied to a scale whose degrees lie between 1 and 254:
/// no degree moves by more than a semitone.
pub proof fn lemma_scale_fits(t: Seq<int>, m: Mode)
    requires
        t.len() == 8,
        forall|i: int| 0 <= i < 8 ==> 1 <= #[trigger] t[i] <= 254,
    ensures
        fits_bytes(scale_pitches(t, m)),
        6 <= scale_pitches(t, m).len() <= 8,
{
    assert(1 <= t[0] <= 254 && 1 <= t[1] <= 254 && 1 <= t[2] <= 254 && 1 <= t[3] <= 254);
    assert(1 <= t[4] <= 254 && 1 <= t[5] <= 254 && 1 <= t[6] <= 254 && 1 <= t[7] <= 254);
}

/// Every quality can be applied to a scale whose degrees lie between 1 and
/// 243: no degree sinks by more than a semitone or rises by more than an
/// octave.
pub proof fn lemma_chord_fits(t: Seq<int>, q: Quality)
    requires
        t.len() == 8,
        forall|i: int| 0 <= i < 8 ==> 1 <= #[trigger] t[i] <= 243,
    ensures
        fits_bytes(chord_pitches(t, q)),
        2 <= chord_pitches(t, q).len() <= 7,
{
    assert(1 <= t[0] <= 243 && 1 <= t[1] <= 243 && 1 <= t[2] <= 243 && 1 <= t[3] <= 243);
    assert(1 <= t[4] <= 243 && 1 <= t[5] <= 243 && 1 <= t[6] <= 243 && 1 <= t[7] <= 243);
}

} // verus!
