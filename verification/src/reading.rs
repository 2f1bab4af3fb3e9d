//! Reading a track chunk back into the notes it plays.

use vstd::prelude::*;
use crate::event::{all_encodable, events_bytes, TrackEvent};
use crate::track::{
    chord_events, lemma_track_chunk_round_trip, parse_track, read_track, scale_events,
    track_chunk, ATTACK, HOLD,
};

verus! {

/// The notes that `evs` would play if they were the events of a scale: the
/// note of every second event.
pub open spec fn scale_candidate(evs: Seq<TrackEvent>) -> Seq<u8> {
    Seq::new(((evs.len() - 1) / 2) as nat, |i: int| evs[2 * i].note())
}

/// The notes that `evs` would play if they were the events of a chord: the
/// notes of the first half.
pub open spec fn chord_candidate(evs: Seq<TrackEvent>) -> Seq<u8> {
    Seq::new(((evs.len() - 1) / 2) as nat, |i: int| evs[i].note())
}

/// The notes of the scale whose events are exactly `evs`, if there is such
/// a scale.
pub open spec fn scale_notes(evs: Seq<TrackEvent>) -> Option<Seq<u8>> {
    if evs.len() > 0 && scale_events(scale_candidate(evs)) == evs {
        Some(scale_candidate(evs))
    } else {
        None
    }
}

/// The notes of the chord whose events are exactly `evs`, if there is such
/// a chord.
pub open spec fn chord_notes(evs: Seq<TrackEvent>) -> Option<Seq<u8>> {
    if evs.len() > 0 && chord_events(chord_candidate(evs)) == evs {
        Some(chord_candidate(evs))
    } else {
        None
    }
}

/// The notes of the scale that the track chunk `chunk` plays.
pub open spec fn scale_track_notes(chunk: Seq<u8>) -> Option<Seq<u8>> {
    match parse_track(chunk) {
        Some(evs) => scale_notes(evs),
        None => None,
    }
}

/// The notes of the chord that the track chunk `chunk` plays.
pub open spec fn chord_track_notes(chunk: Seq<u8>) -> Option<Seq<u8>> {
    match parse_track(chunk) {
        Some(evs) => chord_notes(evs),
        None => None,
    }
}

/// Takes the notes out of the events of a scale. Gives nothing where the
/// events are not those of a scale, with the fixed velocities and the fixed
/// hold.
pub fn scale_notes_of(evs: &Vec<TrackEvent>) -> (got: Option<Vec<u8>>)
    ensures
        match got {
            Some(notes) => scale_notes(evs@) == Some(notes@),
            None => scale_notes(evs@).is_none(),
        },
{
    let len = evs.len();
    if len % 2 == 0 {
        return None;
    }
    let count = (len - 1) / 2;
    let ghost want = scale_events(scale_candidate(evs@));
    let mut notes: Vec<u8> = Vec::new();
    let mut i: usize = 0;
    while i < count
        invariant
            len == evs@.len(),
            len == 2 * count + 1,
            i <= count,
            want == scale_events(scale_candidate(evs@)),
            notes@.len() == i,
            forall|k: int| 0 <= k < i ==> notes@[k] == scale_candidate(evs@)[k],
            forall|k: int| 0 <= k < 2 * i ==> evs@[k] == want[k],
        decreases count - i,
    {
        let note = evs[2 * i].pitch();
        let on = TrackEvent::NoteOn { delta: 0, note, velocity: ATTACK };
        let off = TrackEvent::NoteOff { delta: HOLD, note, velocity: 0 };
        assert(scale_candidate(evs@)[i as int] == note);
        assert(want[2 * i] == on);
        assert(want[2 * i + 1] == off);
        if evs[2 * i] != on || evs[2 * i + 1] != off {
            return None;
        }
        notes.push(note);
        i += 1;
    }
    let end = TrackEvent::EndOfTrack { delta: 0 };
    assert(want[len - 1] == end);
    if evs[len - 1] != end {
        return None;
    }
    assert(evs@ =~= want);
    assert(notes@ =~= scale_candidate(evs@));
    Some(notes)
}

/// Takes the notes out of the events of a chord. Gives nothing where the
/// events are not those of a chord, with the fixed velocities and the fixed
/// hold.
pub fn chord_notes_of(evs: &Vec<TrackEvent>) -> (got: Option<Vec<u8>>)
    ensures
        match got {
            Some(notes) => chord_notes(evs@) == Some(notes@),
            None => chord_notes(evs@).is_none(),
        },
{
    let len = evs.len();
    if len % 2 == 0 {
        return None;
    }
    let count = (len - 1) / 2;
    let ghost want = chord_events(chord_candidate(evs@));
    let mut notes: Vec<u8> = Vec::new();
    let mut i: usize = 0;
    while i < count
        invariant
            len == evs@.len(),
            len == 2 * count + 1,
            i <= count,
            want == chord_events(chord_candidate(evs@)),
            notes@.len() == i,
            forall|k: int| 0 <= k < i ==> notes@[k] == chord_candidate(evs@)[k],
            forall|k: int| 0 <= k < i ==> evs@[k] == want[k],
            forall|k: int| count <= k < count + i ==> evs@[k] == want[k],
        decreases count - i,
    {
        let note = evs[i].pitch();
        let delta: u32 = if i == 0 { HOLD } else { 0 };
        let on = TrackEvent::NoteOn { delta: 0, note, velocity: ATTACK };
        let off = TrackEvent::NoteOff { delta, note, velocity: 0 };
        assert(chord_candidate(evs@)[i as int] == note);
        assert(want[i as int] == on);
        assert(want[count + i] == off);
        if evs[i] != on || evs[count + i] != off {
            return None;
        }
        notes.push(note);
        i += 1;
    }
    let end = TrackEvent::EndOfTrack { delta: 0 };
    assert(want[len - 1] == end);
    if evs[len - 1] != end {
        return None;
    }
    assert(evs@ =~= want);
    assert(notes@ =~= chord_candidate(evs@));
    Some(notes)
}

/// Reads `chunk` as the track chunk of a scale and gives its notes.
pub fn read_scale_track(chunk: &Vec<u8>) -> (got: Option<Vec<u8>>)
    ensures
        match got {
            Some(notes) => scale_track_notes(chunk@) == Some(notes@),
            None => scale_track_notes(chunk@).is_none(),
        },
{
    match read_track(chunk) {
        Some(evs) => scale_notes_of(&evs),
        None => None,
    }
}

/// Reads `chunk` as the track chunk of a chord and gives its notes.
pub fn read_chord_track(chunk: &Vec<u8>) -> (got: Option<Vec<u8>>)
    ensures
        match got {
            Some(notes) => chord_track_notes(chunk@) == Some(notes@),
            None => chord_track_notes(chunk@).is_none(),
        },
{
    match read_track(chunk) {
        Some(evs) => chord_notes_of(&evs),
        None => None,
    }
}

/// The events of a scale give back its notes, in order.
pub proof fn lemma_scale_notes_round_trip(notes: Seq<u8>)
    ensures
        scale_notes(scale_events(notes)) == Some(notes),
        all_encodable(scale_events(notes)),
{
    assert(scale_candidate(scale_events(notes)) =~= notes);
}

/// The events of a chord give back its notes, in order.
pub proof fn lemma_chord_notes_round_trip(notes: Seq<u8>)
    ensures
        chord_notes(chord_events(notes)) == Some(notes),
        all_encodable(chord_events(notes)),
{
    assert(chord_candidate(chord_events(notes)) =~= notes);
}

/// Reading the track chunk written for a scale recovers exactly the notes
/// that were written, in the same order.
pub proof fn lemma_scale_track_round_trip(notes: Seq<u8>)
    requires
        events_bytes(scale_events(notes)).len() <= u32::MAX,
    ensures
        scale_track_notes(track_chunk(scale_events(notes))) == Some(notes),
{
    lemma_scale_notes_round_trip(notes);
    lemma_track_chunk_round_trip(scale_events(notes));
}

/// Reading the track chunk written for a chord recovers exactly the notes
/// that were written, in the same order.
pub proof fn lemma_chord_track_round_trip(notes: Seq<u8>)
    requires
        events_bytes(chord_events(notes)).len() <= u32::MAX,
    ensures
        chord_track_notes(track_chunk(chord_events(notes))) == Some(notes),
{
    lemma_chord_notes_round_trip(notes);
    lemma_track_chunk_round_trip(chord_events(notes));
}

} // verus!
