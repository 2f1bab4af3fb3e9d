//! Where the events and the bytes of a written track stand.
//!
//! These laws hold of every note list. Only the four bytes of the length
//! need the event bytes to be few enough to be counted in them.

use vstd::prelude::*;
use crate::event::{
    all_encodable, event_bytes, events_bytes, lemma_event_in_place, lemma_events_round_trip,
    parse_events, TrackEvent,
};
use crate::reading::{
    chord_notes, lemma_chord_notes_round_trip, lemma_scale_notes_round_trip, scale_notes,
};
use crate::track::{
    be32, be32_value, chord_events, end_of_track, lemma_be32_round_trip,
    lemma_chord_track_length, lemma_event_lengths, lemma_prefix_length,
    lemma_scale_track_length, note_off, note_on, scale_events, track_chunk, track_tag, HOLD,
};

verus! {

/// The bytes behind the length of a track chunk are the bytes of its events,
/// and read back as those events.
pub proof fn lemma_body_round_trip(evs: Seq<TrackEvent>)
    requires
        all_encodable(evs),
    ensures
        track_chunk(evs).skip(8) == events_bytes(evs),
        parse_events(track_chunk(evs).skip(8)) == Some(evs),
{
    assert(track_chunk(evs).skip(8) =~= events_bytes(evs));
    lemma_events_round_trip(evs);
}

/// The events of a scale of `n` notes: `2 n + 1` in all; for each note in
/// order its note-on and then its note-off after the hold; the end of the
/// track last and nowhere else. The event bytes of the written track read
/// back as these events, and these events give back the notes.
pub proof fn lemma_scale_track_events(notes: Seq<u8>)
    ensures
        ({
            let evs = scale_events(notes);
            let n = notes.len() as int;
            &&& evs.len() == 2 * n + 1
            &&& forall|i: int|
                0 <= i < n ==> evs[2 * i] == note_on(#[trigger] notes[i]) && evs[2 * i + 1]
                    == note_off(HOLD, notes[i])
            &&& evs[2 * n] == end_of_track()
            &&& forall|k: int| 0 <= k < 2 * n ==> !((#[trigger] evs[k]) is EndOfTrack)
            &&& all_encodable(evs)
            &&& parse_events(track_chunk(evs).skip(8)) == Some(evs)
            &&& scale_notes(evs) == Some(notes)
        }),
{
    let evs = scale_events(notes);
    let n = notes.len() as int;
    assert forall|i: int| 0 <= i < n implies evs[2 * i] == note_on(#[trigger] notes[i]) && evs[2
        * i + 1] == note_off(HOLD, notes[i]) by {}
    assert forall|k: int| 0 <= k < 2 * n implies !((#[trigger] evs[k]) is EndOfTrack) by {
        if k % 2 == 0 {
            assert(evs[k] == note_on(notes[k / 2]));
        } else {
            assert(evs[k] == note_off(HOLD, notes[k / 2]));
        }
    }
    lemma_scale_notes_round_trip(notes);
    lemma_body_round_trip(evs);
}

/// The events of a chord of `n` notes: `2 n + 1` in all; first the note-on
/// of every note in order, then the note-off of every note in the same
/// order, so that every note-on comes before every note-off; the end of the
/// track last and nowhere else. Only the first note-off has a delay, the
/// hold. The event bytes of the written track read back as these events, and
/// these events give back the notes.
pub proof fn lemma_chord_track_events(notes: Seq<u8>)
    ensures
        ({
            let evs = chord_events(notes);
            let n = notes.len() as int;
            &&& evs.len() == 2 * n + 1
            &&& forall|i: int|
                0 <= i < n ==> evs[i] == note_on(#[trigger] notes[i]) && evs[n + i] == note_off(
                    if i == 0 {
                        HOLD
                    } else {
                        0
                    },
                    notes[i],
                )
            &&& evs[2 * n] == end_of_track()
            &&& forall|k: int| 0 <= k < 2 * n ==> !((#[trigger] evs[k]) is EndOfTrack)
            &&& forall|k: int|
                0 <= k < evs.len() ==> ((#[trigger] evs[k]).delta() != 0 <==> (k == n && n > 0))
            &&& all_encodable(evs)
            &&& parse_events(track_chunk(evs).skip(8)) == Some(evs)
            &&& chord_notes(evs) == Some(notes)
        }),
{
    let evs = chord_events(notes);
    let n = notes.len() as int;
    assert forall|i: int| 0 <= i < n implies evs[i] == note_on(#[trigger] notes[i]) && evs[n + i]
        == note_off(if i == 0 { HOLD } else { 0 }, notes[i]) by {}
    assert forall|k: int| 0 <= k < evs.len() implies (!((#[trigger] evs[k]) is EndOfTrack) <==> k
        < 2 * n) && (evs[k].delta() != 0 <==> (k == n && n > 0)) by {
        if k < n {
            assert(evs[k] == note_on(notes[k]));
        } else if k < 2 * n {
            assert(evs[k] == note_off(if k == n { HOLD } else { 0 }, notes[k - n]));
        } else {
            assert(evs[k] == end_of_track());
        }
    }
    lemma_chord_notes_round_trip(notes);
    lemma_body_round_trip(evs);
}

/// The bytes of event `k` stand in the chunk at `8 + from`, where `from` is
/// the number of bytes that the events before it take.
proof fn lemma_chunk_holds_event(evs: Seq<TrackEvent>, k: int, from: int, bytes: Seq<u8>)
    requires
        0 <= k < evs.len(),
        events_bytes(evs.take(k)).len() == from,
        event_bytes(evs[k]) == bytes,
    ensures
        8 + from + bytes.len() <= track_chunk(evs).len(),
        track_chunk(evs).subrange(8 + from, 8 + from + bytes.len()) == bytes,
{
    lemma_event_in_place(evs, k);
    let body = events_bytes(evs);
    assert(track_chunk(evs).subrange(8 + from, 8 + from + bytes.len()) =~= body.subrange(
        from,
        from + bytes.len(),
    ));
}

/// The bytes of the track chunk of a scale of `n` notes: the tag; the four
/// bytes of the length; from byte `8 + 9 i` on the nine bytes of note `i`,
/// `00 90 note 63` to strike it and `83 00 80 note 00` to release it; and
/// `00 FF 2F 00` as the last four. That is `12 + 9 n` bytes.
pub proof fn lemma_scale_track_layout(notes: Seq<u8>)
    ensures
        ({
            let chunk = track_chunk(scale_events(notes));
            let n = notes.len() as int;
            &&& chunk.len() == 12 + 9 * n
            &&& chunk.subrange(0, 4) == track_tag()
            &&& chunk.subrange(4, 8) == be32((4 + 9 * n) as nat)
            &&& forall|i: int|
                0 <= i < n ==> chunk.subrange(8 + 9 * i, 17 + 9 * i) == seq![
                    0x00u8,
                    0x90u8,
                    #[trigger] notes[i],
                    0x63u8,
                    0x83u8,
                    0x00u8,
                    0x80u8,
                    notes[i],
                    0x00u8,
                ]
            &&& chunk.subrange(chunk.len() - 4, chunk.len() as int) == seq![
                0x00u8,
                0xFFu8,
                0x2Fu8,
                0x00u8,
            ]
        }),
{
    let evs = scale_events(notes);
    let chunk = track_chunk(evs);
    let n = notes.len() as int;
    let size = |k: int| if k == 2 * n { 4int } else if k % 2 == 0 { 4int } else { 5int };
    let total = |k: int| 9 * (k / 2) + 4 * (k % 2);
    assert forall|k: int| 0 <= k < evs.len() implies event_bytes(#[trigger] evs[k]).len() == size(
        k,
    ) by {
        lemma_event_lengths(notes[k / 2]);
    }
    lemma_scale_track_length(notes);
    assert(chunk.subrange(0, 4) =~= track_tag());
    assert(chunk.subrange(4, 8) =~= be32((4 + 9 * n) as nat));
    assert forall|i: int| 0 <= i < n implies chunk.subrange(8 + 9 * i, 17 + 9 * i) == seq![
        0x00u8,
        0x90u8,
        #[trigger] notes[i],
        0x63u8,
        0x83u8,
        0x00u8,
        0x80u8,
        notes[i],
        0x00u8,
    ] by {
        lemma_event_lengths(notes[i]);
        lemma_prefix_length(evs, 2 * i, size, total);
        lemma_prefix_length(evs, 2 * i + 1, size, total);
        lemma_chunk_holds_event(evs, 2 * i, 9 * i, event_bytes(note_on(notes[i])));
        lemma_chunk_holds_event(evs, 2 * i + 1, 9 * i + 4, event_bytes(note_off(HOLD, notes[i])));
        assert(chunk.subrange(8 + 9 * i, 17 + 9 * i) =~= chunk.subrange(8 + 9 * i, 12 + 9 * i)
            + chunk.subrange(12 + 9 * i, 17 + 9 * i));
        assert(chunk.subrange(8 + 9 * i, 17 + 9 * i) =~= seq![
            0x00u8,
            0x90u8,
            notes[i],
            0x63u8,
            0x83u8,
            0x00u8,
            0x80u8,
            notes[i],
            0x00u8,
        ]);
    }
    lemma_event_lengths(0);
    lemma_prefix_length(evs, 2 * n, size, total);
    lemma_chunk_holds_event(evs, 2 * n, 9 * n, event_bytes(end_of_track()));
}

/// The bytes of the track chunk of a chord of `n` notes, where it has one:
/// the tag; the four bytes of the length; from byte `8 + 4 i` on the four
/// bytes `00 90 note 63` that strike note `i`; behind the last of them the
/// five bytes `83 00 80 note 00` that release the first note after the hold;
/// for every later note `j` the four bytes `00 80 note 00` from byte
/// `9 + 4 n + 4 j` on; and `00 FF 2F 00` as the last four. That is
/// `13 + 8 n` bytes. Without notes the chunk is the tag, the length and the
/// last four alone.
pub proof fn lemma_chord_track_layout(notes: Seq<u8>)
    ensures
        ({
            let chunk = track_chunk(chord_events(notes));
            let n = notes.len() as int;
            &&& chunk.len() == if n == 0 {
                12
            } else {
                13 + 8 * n
            }
            &&& chunk.subrange(0, 4) == track_tag()
            &&& chunk.subrange(4, 8) == be32((chunk.len() - 8) as nat)
            &&& forall|i: int|
                0 <= i < n ==> chunk.subrange(8 + 4 * i, 12 + 4 * i) == seq![
                    0x00u8,
                    0x90u8,
                    #[trigger] notes[i],
                    0x63u8,
                ]
            &&& n > 0 ==> chunk.subrange(8 + 4 * n, 13 + 4 * n) == seq![
                0x83u8,
                0x00u8,
                0x80u8,
                notes[0],
                0x00u8,
            ]
            &&& forall|j: int|
                1 <= j < n ==> chunk.subrange(9 + 4 * n + 4 * j, 13 + 4 * n + 4 * j) == seq![
                    0x00u8,
                    0x80u8,
                    #[trigger] notes[j],
                    0x00u8,
                ]
            &&& chunk.subrange(chunk.len() - 4, chunk.len() as int) == seq![
                0x00u8,
                0xFFu8,
                0x2Fu8,
                0x00u8,
            ]
        }),
{
    let evs = chord_events(notes);
    let chunk = track_chunk(evs);
    let n = notes.len() as int;
    let size = |k: int| if k == n && n > 0 { 5int } else { 4int };
    let total = |k: int| if k <= n || n == 0 { 4 * k } else { 4 * k + 1 };
    assert forall|k: int| 0 <= k < evs.len() implies event_bytes(#[trigger] evs[k]).len() == size(
        k,
    ) by {
        if k < n {
            lemma_event_lengths(notes[k]);
        } else if k < 2 * n {
            lemma_event_lengths(notes[k - n]);
        } else {
            lemma_event_lengths(0);
        }
    }
    lemma_chord_track_length(notes);
    assert(chunk.subrange(0, 4) =~= track_tag());
    assert(chunk.subrange(4, 8) =~= be32((chunk.len() - 8) as nat));
    assert forall|i: int| 0 <= i < n implies chunk.subrange(8 + 4 * i, 12 + 4 * i) == seq![
        0x00u8,
        0x90u8,
        #[trigger] notes[i],
        0x63u8,
    ] by {
        lemma_event_lengths(notes[i]);
        lemma_prefix_length(evs, i, size, total);
        lemma_chunk_holds_event(evs, i, 4 * i, event_bytes(note_on(notes[i])));
    }
    if n > 0 {
        lemma_event_lengths(notes[0]);
        lemma_prefix_length(evs, n, size, total);
        lemma_chunk_holds_event(evs, n, 4 * n, event_bytes(note_off(HOLD, notes[0])));
    }
    assert forall|j: int| 1 <= j < n implies chunk.subrange(
        9 + 4 * n + 4 * j,
        13 + 4 * n + 4 * j,
    ) == seq![0x00u8, 0x80u8, #[trigger] notes[j], 0x00u8] by {
        lemma_event_lengths(notes[j]);
        lemma_prefix_length(evs, n + j, size, total);
        lemma_chunk_holds_event(evs, n + j, 4 * (n + j) + 1, event_bytes(note_off(0, notes[j])));
    }
    lemma_event_lengths(0);
    lemma_prefix_length(evs, 2 * n, size, total);
    lemma_chunk_holds_event(
        evs,
        2 * n,
        if n == 0 {
            0
        } else {
            8 * n + 1
        },
        event_bytes(end_of_track()),
    );
}

/// The length that a track chunk declares is the number of event bytes
/// behind it, wherever four bytes can hold that number.
pub proof fn lemma_declared_length(evs: Seq<TrackEvent>)
    requires
        events_bytes(evs).len() <= u32::MAX,
    ensures
        be32_value(track_chunk(evs).subrange(4, 8)) == events_bytes(evs).len(),
        be32_value(track_chunk(evs).subrange(4, 8)) == track_chunk(evs).len() - 8,
{
    assert(track_chunk(evs).subrange(4, 8) =~= be32(events_bytes(evs).len()));
    lemma_be32_round_trip(events_bytes(evs).len());
}

} // verus!
