//! A whole request: from a root name, a mapping name and a shape to the
//! bytes of the file.

use vstd::prelude::*;
use crate::chord::{chord_pitches, map_chord, quality_named, quality_or_major};
use crate::laws::{lemma_bytes_hold_pitches, lemma_chord_fits, lemma_scale_fits};
use crate::pitch::{
    as_bytes, note_named, root_offset, template_pitches, template_scale, transpose_scale,
    transposed,
};
use crate::scale::{map_scale, mode_named, mode_or_major, scale_pitches};
use crate::track::{
    add_midi_header, chord_events, create_chord_track, create_scale_track, header_bytes,
    lemma_chord_track_length, lemma_scale_track_length, scale_events, track_chunk,
};

verus! {

/// Whether the notes are played one after the other or all at once.
#[derive(Clone, Copy, Debug, PartialEq, Eq, Structural)]
pub enum Shape {
    Scale,
    Chord,
}

/// The bytes of a file, and whether its two names were known ones.
#[derive(Debug, PartialEq, Eq)]
pub struct Generated {
    pub bytes: Vec<u8>,
    pub root_recognized: bool,
    pub mapping_recognized: bool,
}

/// The pitches that a request asks for: the template transposed to the
/// root, then mapped as a scale or as a chord.
pub open spec fn request_pitches(shape: Shape, root: Seq<char>, mapping: Seq<char>) -> Seq<int> {
    let moved = transposed(template_pitches(), root_offset(root));
    match shape {
        Shape::Scale => scale_pitches(moved, mode_or_major(mapping)),
        Shape::Chord => chord_pitches(moved, quality_or_major(mapping)),
    }
}

/// The file that a request asks for: the header chunk, then the track chunk
/// that plays the requested pitches in the requested shape.
pub open spec fn request_file(shape: Shape, root: Seq<char>, mapping: Seq<char>) -> Seq<u8> {
    let notes = as_bytes(request_pitches(shape, root, mapping));
    match shape {
        Shape::Scale => header_bytes() + track_chunk(scale_events(notes)),
        Shape::Chord => header_bytes() + track_chunk(chord_events(notes)),
    }
}

/// Whether `mapping` is a known name for the shape: that of a mode for a
/// scale, that of a quality for a chord.
pub open spec fn mapping_known(shape: Shape, mapping: Seq<char>) -> bool {
    match shape {
        Shape::Scale => mode_named(mapping).is_some(),
        Shape::Chord => quality_named(mapping).is_some(),
    }
}

/// Builds the file for a request. Every pair of names gives a file: an
/// unknown root counts as C, an unknown mapping as major.
pub fn generate(shape: Shape, root: &str, mapping: &str) -> (file: Generated)
    ensures
        file.bytes@ == request_file(shape, root@, mapping@),
        file.root_recognized == note_named(root@).is_some(),
        file.mapping_recognized == mapping_known(shape, mapping@),
{
    let template = template_scale();
    let ghost moved = transposed(template_pitches(), root_offset(root@));
    proof {
        lemma_bytes_hold_pitches(template_pitches());
        assert forall|i: int| 0 <= i < 8 implies 36 <= #[trigger] moved[i] <= 59 by {
            assert(36 <= template_pitches()[i] <= 48);
        }
        lemma_bytes_hold_pitches(moved);
    }
    let scale = transpose_scale(&template, root);
    let mut bytes: Vec<u8> = Vec::new();
    add_midi_header(&mut bytes);
    assert(bytes@ =~= header_bytes());
    match shape {
        Shape::Scale => {
            proof {
                lemma_scale_fits(moved, mode_or_major(mapping@));
            }
            let mapped = map_scale(&scale.notes, mapping);
            proof {
                lemma_scale_track_length(mapped.notes@);
            }
            create_scale_track(&mut bytes, mapped.notes);
            Generated {
                bytes,
                root_recognized: scale.recognized,
                mapping_recognized: mapped.recognized,
            }
        },
        Shape::Chord => {
            proof {
                lemma_chord_fits(moved, quality_or_major(mapping@));
            }
            let mapped = map_chord(&scale.notes, mapping);
            proof {
                lemma_chord_track_length(mapped.notes@);
            }
            create_chord_track(&mut bytes, mapped.notes);
            Generated {
                bytes,
                root_recognized: scale.recognized,
                mapping_recognized: mapped.recognized,
            }
        },
    }
}

} // verus!
