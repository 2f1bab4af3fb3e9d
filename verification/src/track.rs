//! The chunks of a file: the header chunk, and the track chunk in its two
//! shapes, a scale played note after note and a chord struck at once.

use vstd::prelude::*;
use crate::event::{
    all_encodable, event_bytes, events_bytes, lemma_events_bytes_push, lemma_events_round_trip,
    parse_events, read_events, write_event, TrackEvent,
};
use crate::vlq::lemma_vlq_of_track_deltas;

verus! {

/// The file format: a single track.
pub const FORMAT: u16 = 0;

/// The number of tracks in the file.
pub const TRACKS: u16 = 1;

/// Ticks to the quarter note.
pub const DIVISION: u16 = 96;

/// Velocity of every note-on event.
pub const ATTACK: u8 = 0x63;

/// How long a note is held, in ticks.
pub const HOLD: u32 = 384;

/// The four bytes of a length, most significant first.
pub open spec fn be32(v: nat) -> Seq<u8> {
    seq![
        (v / 0x100_0000 % 0x100) as u8,
        (v / 0x1_0000 % 0x100) as u8,
        (v / 0x100 % 0x100) as u8,
        (v % 0x100) as u8,
    ]
}

/// The length that four bytes spell, most significant first.
pub open spec fn be32_value(b: Seq<u8>) -> nat {
    (b[0] as nat) * 0x100_0000 + (b[1] as nat) * 0x1_0000 + (b[2] as nat) * 0x100 + (b[3] as nat)
}

/// The two bytes of a header field, most significant first.
pub open spec fn be16(v: nat) -> Seq<u8> {
    seq![(v / 0x100 % 0x100) as u8, (v % 0x100) as u8]
}

/// The tag `MThd` that opens the header chunk.
pub open spec fn header_tag() -> Seq<u8> {
    seq![0x4Du8, 0x54u8, 0x68u8, 0x64u8]
}

/// The header chunk: the tag, the length of what follows, which is always
/// 6, then three fields of two bytes each: the format, the number of tracks
/// and the number of ticks to the quarter note.
pub open spec fn header_bytes() -> Seq<u8> {
    header_tag() + be32(6) + be16(FORMAT as nat) + be16(TRACKS as nat) + be16(DIVISION as nat)
}

/// The tag `MTrk` that opens a track chunk.
pub open spec fn track_tag() -> Seq<u8> {
    seq![0x4Du8, 0x54u8, 0x72u8, 0x6Bu8]
}

/// A track chunk: the tag, the number of bytes that the events take, and
/// the events.
pub open spec fn track_chunk(evs: Seq<TrackEvent>) -> Seq<u8> {
    track_tag() + be32(events_bytes(evs).len()) + events_bytes(evs)
}

/// The start of a note, with no delay.
pub open spec fn note_on(note: u8) -> TrackEvent {
    TrackEvent::NoteOn { delta: 0, note, velocity: ATTACK }
}

/// The end of a note, `delta` ticks after the event before it.
pub open spec fn note_off(delta: u32, note: u8) -> TrackEvent {
    TrackEvent::NoteOff { delta, note, velocity: 0 }
}

/// The event that closes a track, with no delay.
pub open spec fn end_of_track() -> TrackEvent {
    TrackEvent::EndOfTrack { delta: 0 }
}

/// The events of a scale: each note is struck and, after the hold, released
/// before the next one is struck; then the track ends.
pub open spec fn scale_events(notes: Seq<u8>) -> Seq<TrackEvent> {
    Seq::new(
        2 * notes.len(),
        |i: int|
            if i % 2 == 0 {
                note_on(notes[i / 2])
            } else {
                note_off(HOLD, notes[i / 2])
            },
    ).push(end_of_track())
}

/// The events of a chord: all notes are struck at once; the first is
/// released after the hold and the others with it; then the track ends.
/// Without notes there is only the end of the track.
pub open spec fn chord_events(notes: Seq<u8>) -> Seq<TrackEvent> {
    Seq::new(notes.len(), |i: int| note_on(notes[i])) + Seq::new(
        notes.len(),
        |i: int| note_off(if i == 0 { HOLD } else { 0 }, notes[i]),
    ) + seq![end_of_track()]
}

/// The events of a track chunk, where `chunk` is one: it opens with the tag,
/// declares exactly the number of bytes that follow, and those bytes are
/// events from the first to the last.
pub open spec fn parse_track(chunk: Seq<u8>) -> Option<Seq<TrackEvent>> {
    if chunk.len() >= 8 && chunk.subrange(0, 4) == track_tag() && be32_value(chunk.subrange(4, 8))
        == chunk.len() - 8 {
        parse_events(chunk.skip(8))
    } else {
        None
    }
}

/// Appends the header chunk to `sink`.
pub fn add_midi_header(sink: &mut Vec<u8>)
    ensures
        final(sink)@ == old(sink)@ + header_bytes(),
{
    sink.push(0x4D);
    sink.push(0x54);
    sink.push(0x68);
    sink.push(0x64);
    sink.push(0x00);
    sink.push(0x00);
    sink.push(0x00);
    sink.push(0x06);
    sink.push(0x00);
    sink.push(0x00);
    sink.push(0x00);
    sink.push(0x01);
    sink.push(0x00);
    sink.push(0x60);
    assert(sink@ =~= old(sink)@ + header_bytes());
}

/// Appends to `sink` a track chunk around the event bytes in `body`: the
/// length it declares is the length of `body`.
fn write_track_chunk(sink: &mut Vec<u8>, body: &Vec<u8>)
    requires
        body@.len() <= u32::MAX,
    ensures
        final(sink)@ == old(sink)@ + track_tag() + be32(body@.len()) + body@,
{
    let length: u32 = body.len() as u32;
    sink.push(0x4D);
    sink.push(0x54);
    sink.push(0x72);
    sink.push(0x6B);
    sink.push((length / 0x100_0000) as u8);
    sink.push((length / 0x1_0000 % 0x100) as u8);
    sink.push((length / 0x100 % 0x100) as u8);
    sink.push((length % 0x100) as u8);
    assert(sink@ =~= old(sink)@ + track_tag() + be32(body@.len()));
    sink.extend_from_slice(body.as_slice());
}

/// Appends to `sink` the track chunk that plays `notes` as a scale. The
/// length that the chunk declares is counted from the event bytes written.
pub fn create_scale_track(sink: &mut Vec<u8>, notes: Vec<u8>)
    requires
        events_bytes(scale_events(notes@)).len() <= u32::MAX,
    ensures
        final(sink)@ == old(sink)@ + track_chunk(scale_events(notes@)),
{
    let ghost want = scale_events(notes@);
    let ghost mut done: Seq<TrackEvent> = Seq::empty();
    let mut body: Vec<u8> = Vec::new();
    let mut i: usize = 0;
    while i < notes.len()
        invariant
            i <= notes@.len(),
            want == scale_events(notes@),
            done.len() == 2 * i,
            forall|k: int| 0 <= k < done.len() ==> done[k] == want[k],
            body@ == events_bytes(done),
        decreases notes@.len() - i,
    {
        let note = notes[i];
        let on = TrackEvent::NoteOn { delta: 0, note, velocity: ATTACK };
        let off = TrackEvent::NoteOff { delta: HOLD, note, velocity: 0 };
        assert(want[2 * i] == on);
        assert(want[2 * i + 1] == off);
        write_event(&mut body, on);
        write_event(&mut body, off);
        proof {
            lemma_events_bytes_push(done, on);
            lemma_events_bytes_push(done.push(on), off);
            done = done.push(on).push(off);
        }
        i += 1;
    }
    let end = TrackEvent::EndOfTrack { delta: 0 };
    write_event(&mut body, end);
    proof {
        lemma_events_bytes_push(done, end);
        assert(done.push(end) =~= want);
    }
    write_track_chunk(sink, &body);
}

/// Appends to `sink` the track chunk that plays `notes` as a chord. The
/// length that the chunk declares is counted from the event bytes written.
pub fn create_chord_track(sink: &mut Vec<u8>, notes: Vec<u8>)
    requires
        events_bytes(chord_events(notes@)).len() <= u32::MAX,
    ensures
        final(sink)@ == old(sink)@ + track_chunk(chord_events(notes@)),
{
    let ghost want = chord_events(notes@);
    let ghost mut done: Seq<TrackEvent> = Seq::empty();
    let mut body: Vec<u8> = Vec::new();
    let count = notes.len();
    let mut i: usize = 0;
    while i < count
        invariant
            count == notes@.len(),
            i <= count,
            want == chord_events(notes@),
            done.len() == i,
            forall|k: int| 0 <= k < done.len() ==> done[k] == want[k],
            body@ == events_bytes(done),
        decreases count - i,
    {
        let on = TrackEvent::NoteOn { delta: 0, note: notes[i], velocity: ATTACK };
        assert(want[i as int] == on);
        write_event(&mut body, on);
        proof {
            lemma_events_bytes_push(done, on);
            done = done.push(on);
        }
        i += 1;
    }
    let mut j: usize = 0;
    while j < count
        invariant
            count == notes@.len(),
            j <= count,
            want == chord_events(notes@),
            done.len() == count + j,
            forall|k: int| 0 <= k < done.len() ==> done[k] == want[k],
            body@ == events_bytes(done),
        decreases count - j,
    {
        let delta: u32 = if j == 0 { HOLD } else { 0 };
        let off = TrackEvent::NoteOff { delta, note: notes[j], velocity: 0 };
        assert(want[count + j] == off);
        write_event(&mut body, off);
        proof {
            lemma_events_bytes_push(done, off);
            done = done.push(off);
        }
        j += 1;
    }
    let end = TrackEvent::EndOfTrack { delta: 0 };
    write_event(&mut body, end);
    proof {
        lemma_events_bytes_push(done, end);
        assert(done.push(end) =~= want);
    }
    write_track_chunk(sink, &body);
}

/// Reads `chunk` as a track chunk and gives its events.
pub fn read_track(chunk: &Vec<u8>) -> (got: Option<Vec<TrackEvent>>)
    ensures
        match got {
            Some(evs) => parse_track(chunk@) == Some(evs@) && all_encodable(evs@),
            None => parse_track(chunk@).is_none(),
        },
{
    if chunk.len() < 8 {
        return None;
    }
    let ghost tag = chunk@.subrange(0, 4);
    let ghost size = chunk@.subrange(4, 8);
    assert(tag[0] == chunk@[0] && tag[1] == chunk@[1] && tag[2] == chunk@[2] && tag[3] == chunk@[3]);
    assert(size[0] == chunk@[4] && size[1] == chunk@[5] && size[2] == chunk@[6] && size[3]
        == chunk@[7]);
    if chunk[0] != 0x4D || chunk[1] != 0x54 || chunk[2] != 0x72 || chunk[3] != 0x6B {
        return None;
    }
    assert(tag =~= track_tag());
    let declared: u64 = chunk[4] as u64 * 0x100_0000 + chunk[5] as u64 * 0x1_0000 + chunk[6] as u64
        * 0x100 + chunk[7] as u64;
    if declared != (chunk.len() - 8) as u64 {
        return None;
    }
    read_events(chunk, 8)
}

/// The bytes of the four events that tracks are made of: a note-on with no
/// delay takes four bytes, a note-off after the hold five, a note-off with no
/// delay and the end of the track four each.
pub proof fn lemma_event_lengths(note: u8)
    ensures
        event_bytes(note_on(note)).len() == 4,
        event_bytes(note_off(HOLD, note)).len() == 5,
        event_bytes(note_off(0, note)).len() == 4,
        event_bytes(end_of_track()).len() == 4,
        event_bytes(note_on(note)) == seq![0x00u8, 0x90u8, note, 0x63u8],
        event_bytes(note_off(HOLD, note)) == seq![0x83u8, 0x00u8, 0x80u8, note, 0x00u8],
        event_bytes(note_off(0, note)) == seq![0x00u8, 0x80u8, note, 0x00u8],
        event_bytes(end_of_track()) == seq![0x00u8, 0xFFu8, 0x2Fu8, 0x00u8],
{
    lemma_vlq_of_track_deltas();
    assert(event_bytes(note_on(note)) =~= seq![0x00u8, 0x90u8, note, 0x63u8]);
    assert(event_bytes(note_off(HOLD, note)) =~= seq![0x83u8, 0x00u8, 0x80u8, note, 0x00u8]);
    assert(event_bytes(note_off(0, note)) =~= seq![0x00u8, 0x80u8, note, 0x00u8]);
    assert(event_bytes(end_of_track()) =~= seq![0x00u8, 0xFFu8, 0x2Fu8, 0x00u8]);
}

/// The first `k` events of a list take `total(k)` bytes, where `size` gives
/// the bytes of each event and `total` adds them up.
pub proof fn lemma_prefix_length(evs: Seq<TrackEvent>, k: int, size: spec_fn(int) -> int, total: spec_fn(int) -> int)
    requires
        0 <= k <= evs.len(),
        forall|i: int| 0 <= i < evs.len() ==> event_bytes(#[trigger] evs[i]).len() == size(i),
        total(0) == 0,
        forall|i: int| 0 <= i < evs.len() ==> #[trigger] total(i + 1) == total(i) + size(i),
    ensures
        events_bytes(evs.take(k)).len() == total(k),
    decreases k,
{
    if k == 0 {
        assert(evs.take(0) =~= Seq::<TrackEvent>::empty());
    } else {
        lemma_prefix_length(evs, k - 1, size, total);
        assert(evs.take(k).drop_last() =~= evs.take(k - 1));
        assert(evs.take(k).last() == evs[k - 1]);
        assert(total((k - 1) + 1) == total(k - 1) + size(k - 1));
    }
}

/// A scale of `n` notes takes `9 n + 4` bytes of events: nine for each note
/// and four for the end of the track.
pub proof fn lemma_scale_track_length(notes: Seq<u8>)
    ensures
        events_bytes(scale_events(notes)).len() == 9 * notes.len() + 4,
{
    let evs = scale_events(notes);
    let size = |i: int| if i == 2 * notes.len() { 4int } else if i % 2 == 0 { 4int } else { 5int };
    let total = |i: int| 9 * (i / 2) + 4 * (i % 2);
    assert forall|i: int| 0 <= i < evs.len() implies event_bytes(#[trigger] evs[i]).len() == size(
        i,
    ) by {
        lemma_event_lengths(notes[i / 2]);
    }
    lemma_prefix_length(evs, evs.len() as int, size, total);
    assert(evs.take(evs.len() as int) =~= evs);
}

/// A chord of `n` notes takes `8 n + 5` bytes of events where it has a note:
/// four to strike and four to release each, one more for the hold, and four
/// for the end of the track. Without notes only those last four remain.
pub proof fn lemma_chord_track_length(notes: Seq<u8>)
    ensures
        events_bytes(chord_events(notes)).len() == if notes.len() == 0 {
            4
        } else {
            8 * notes.len() + 5
        },
{
    let evs = chord_events(notes);
    let n = notes.len() as int;
    let size = |i: int| if i == n && n > 0 { 5int } else { 4int };
    let total = |i: int| if i <= n || n == 0 { 4 * i } else { 4 * i + 1 };
    assert forall|i: int| 0 <= i < evs.len() implies event_bytes(#[trigger] evs[i]).len() == size(
        i,
    ) by {
        if i < n {
            lemma_event_lengths(notes[i]);
        } else if i < 2 * n {
            lemma_event_lengths(notes[i - n]);
        } else {
            lemma_event_lengths(0);
        }
    }
    lemma_prefix_length(evs, evs.len() as int, size, total);
    assert(evs.take(evs.len() as int) =~= evs);
}

/// The header chunk is these fourteen bytes.
pub proof fn lemma_header_bytes()
    ensures
        header_bytes() == seq![
            0x4Du8, 0x54u8, 0x68u8, 0x64u8,
            0x00u8, 0x00u8, 0x00u8, 0x06u8,
            0x00u8, 0x00u8,
            0x00u8, 0x01u8,
            0x00u8, 0x60u8,
        ],
        header_bytes().len() == 14,
{
    assert(header_bytes() =~= seq![
        0x4Du8, 0x54u8, 0x68u8, 0x64u8,
        0x00u8, 0x00u8, 0x00u8, 0x06u8,
        0x00u8, 0x00u8,
        0x00u8, 0x01u8,
        0x00u8, 0x60u8,
    ]);
}

/// Four bytes spell the length they were written from.
pub proof fn lemma_be32_round_trip(v: nat)
    requires
        v <= u32::MAX,
    ensures
        be32_value(be32(v)) == v,
{
}

/// Reading undoes writing for a track chunk: the length it declares is the
/// number of event bytes behind it, and those bytes read back as the events
/// written.
pub proof fn lemma_track_chunk_round_trip(evs: Seq<TrackEvent>)
    requires
        all_encodable(evs),
        events_bytes(evs).len() <= u32::MAX,
    ensures
        track_chunk(evs).len() == 8 + events_bytes(evs).len(),
        be32_value(track_chunk(evs).subrange(4, 8)) == events_bytes(evs).len(),
        track_chunk(evs).skip(8) == events_bytes(evs),
        parse_track(track_chunk(evs)) == Some(evs),
{
    let chunk = track_chunk(evs);
    let body = events_bytes(evs);
    assert(chunk.subrange(0, 4) =~= track_tag());
    assert(chunk.subrange(4, 8) =~= be32(body.len()));
    assert(chunk.skip(8) =~= body);
    lemma_be32_round_trip(body.len());
    lemma_events_round_trip(evs);
}

} // verus!
