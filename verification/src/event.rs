//! Track events and their bytes.
//!
//! Every event is a delta-time followed by a status byte and two data bytes.
//! All notes sound on channel 0, so the status byte alone tells the kind.

use vstd::prelude::*;
use crate::vlq::{lemma_vlq_round_trip, read_vlq, vlq_bytes, vlq_parse, write_vlq, VLQ_MAX};

verus! {

/// Status byte of a note-on event on channel 0.
pub const NOTE_ON: u8 = 0x90;

/// Status byte of a note-off event on channel 0.
pub const NOTE_OFF: u8 = 0x80;

/// Status byte of a meta event.
pub const META: u8 = 0xFF;

/// Type byte of the meta event that ends a track.
pub const END_OF_TRACK: u8 = 0x2F;

/// One event of a track. `delta` is the time since the event before it, in
/// ticks.
#[derive(Clone, Copy, Debug, PartialEq, Eq, Structural)]
pub enum TrackEvent {
    NoteOn { delta: u32, note: u8, velocity: u8 },
    NoteOff { delta: u32, note: u8, velocity: u8 },
    EndOfTrack { delta: u32 },
}

impl TrackEvent {
    /// The delta-time of the event.
    pub open spec fn delta(self) -> u32 {
        match self {
            TrackEvent::NoteOn { delta, .. } => delta,
            TrackEvent::NoteOff { delta, .. } => delta,
            TrackEvent::EndOfTrack { delta } => delta,
        }
    }

    /// The note that the event starts or ends; 0 for the end of the track.
    pub open spec fn note(self) -> u8 {
        match self {
            TrackEvent::NoteOn { note, .. } => note,
            TrackEvent::NoteOff { note, .. } => note,
            TrackEvent::EndOfTrack { .. } => 0,
        }
    }

    /// The three bytes behind the delta-time.
    pub open spec fn message(self) -> Seq<u8> {
        match self {
            TrackEvent::NoteOn { note, velocity, .. } => seq![NOTE_ON, note, velocity],
            TrackEvent::NoteOff { note, velocity, .. } => seq![NOTE_OFF, note, velocity],
            TrackEvent::EndOfTrack { .. } => seq![META, END_OF_TRACK, 0x00u8],
        }
    }

    /// Whether the delta-time can be written as a variable-length quantity.
    pub open spec fn encodable(self) -> bool {
        self.delta() <= VLQ_MAX
    }
}

impl TrackEvent {
    /// The note that the event starts or ends; 0 for the end of the track.
    pub fn pitch(&self) -> (p: u8)
        ensures
            p == self.note(),
    {
        match self {
            TrackEvent::NoteOn { note, .. } => *note,
            TrackEvent::NoteOff { note, .. } => *note,
            TrackEvent::EndOfTrack { .. } => 0,
        }
    }
}

/// The bytes of one event.
pub open spec fn event_bytes(ev: TrackEvent) -> Seq<u8> {
    vlq_bytes(ev.delta() as nat) + ev.message()
}

/// The bytes of a list of events, one after the other.
pub open spec fn events_bytes(evs: Seq<TrackEvent>) -> Seq<u8>
    decreases evs.len(),
{
    if evs.len() == 0 {
        Seq::empty()
    } else {
        events_bytes(evs.drop_last()) + event_bytes(evs.last())
    }
}

/// Whether every event of the list can be written.
pub open spec fn all_encodable(evs: Seq<TrackEvent>) -> bool {
    forall|i: int| 0 <= i < evs.len() ==> (#[trigger] evs[i]).encodable()
}

/// The event at the head of `bytes`, with the number of bytes it takes.
/// There is none where the delta-time is malformed, the bytes end early, the
/// status byte is none of the three known ones, or a meta event is not a
/// well-formed end of track.
pub open spec fn parse_event(bytes: Seq<u8>) -> Option<(TrackEvent, int)> {
    match vlq_parse(bytes) {
        None => None,
        Some((value, used)) => {
            let delta = value as u32;
            if bytes.len() < used + 3 {
                None
            } else if bytes[used] == NOTE_ON {
                Some(
                    (
                        TrackEvent::NoteOn { delta, note: bytes[used + 1], velocity: bytes[used + 2] },
                        used + 3,
                    ),
                )
            } else if bytes[used] == NOTE_OFF {
                Some(
                    (
                        TrackEvent::NoteOff { delta, note: bytes[used + 1], velocity: bytes[used + 2] },
                        used + 3,
                    ),
                )
            } else if bytes[used] == META && bytes[used + 1] == END_OF_TRACK && bytes[used + 2] == 0 {
                Some((TrackEvent::EndOfTrack { delta }, used + 3))
            } else {
                None
            }
        },
    }
}

/// The events that `bytes` hold from the first byte to the last, or nothing
/// where some part of them is no event.
pub open spec fn parse_events(bytes: Seq<u8>) -> Option<Seq<TrackEvent>>
    decreases bytes.len(),
{
    if bytes.len() == 0 {
        Some(Seq::empty())
    } else {
        match parse_event(bytes) {
            None => None,
            Some((ev, used)) => {
                if 0 < used <= bytes.len() {
                    match parse_events(bytes.skip(used)) {
                        None => None,
                        Some(rest) => Some(seq![ev] + rest),
                    }
                } else {
                    None
                }
            },
        }
    }
}

/// Appends the bytes of `ev` to `sink`.
pub fn write_event(sink: &mut Vec<u8>, ev: TrackEvent)
    requires
        ev.encodable(),
    ensures
        final(sink)@ == old(sink)@ + event_bytes(ev),
{
    match ev {
        TrackEvent::NoteOn { delta, note, velocity } => {
            write_vlq(sink, delta);
            sink.push(NOTE_ON);
            sink.push(note);
            sink.push(velocity);
        },
        TrackEvent::NoteOff { delta, note, velocity } => {
            write_vlq(sink, delta);
            sink.push(NOTE_OFF);
            sink.push(note);
            sink.push(velocity);
        },
        TrackEvent::EndOfTrack { delta } => {
            write_vlq(sink, delta);
            sink.push(META);
            sink.push(END_OF_TRACK);
            sink.push(0x00);
        },
    }
    assert(sink@ =~= old(sink)@ + event_bytes(ev));
}

/// Reads the event that starts at position `at` of `bytes`. Gives the event
/// and the position behind it.
pub fn read_event(bytes: &Vec<u8>, at: usize) -> (got: Option<(TrackEvent, usize)>)
    requires
        at <= bytes@.len(),
    ensures
        match got {
            Some((ev, next)) => {
                &&& parse_event(bytes@.skip(at as int)) == Some((ev, next - at))
                &&& ev.encodable()
                &&& at < next <= bytes@.len()
            },
            None => parse_event(bytes@.skip(at as int)).is_none(),
        },
{
    let ghost tail = bytes@.skip(at as int);
    match read_vlq(bytes, at) {
        None => None,
        Some((delta, status_at)) => {
            if bytes.len() - status_at < 3 {
                return None;
            }
            let status = bytes[status_at];
            let first = bytes[status_at + 1];
            let second = bytes[status_at + 2];
            assert(tail[status_at - at] == status);
            assert(tail[status_at - at + 1] == first);
            assert(tail[status_at - at + 2] == second);
            if status == NOTE_ON {
                Some((TrackEvent::NoteOn { delta, note: first, velocity: second }, status_at + 3))
            } else if status == NOTE_OFF {
                Some((TrackEvent::NoteOff { delta, note: first, velocity: second }, status_at + 3))
            } else if status == META && first == END_OF_TRACK && second == 0 {
                Some((TrackEvent::EndOfTrack { delta }, status_at + 3))
            } else {
                None
            }
        },
    }
}

/// Reads the bytes of `bytes` from position `from` to the end as a list of
/// events.
pub fn read_events(bytes: &Vec<u8>, from: usize) -> (got: Option<Vec<TrackEvent>>)
    requires
        from <= bytes@.len(),
    ensures
        match got {
            Some(evs) => parse_events(bytes@.skip(from as int)) == Some(evs@) && all_encodable(evs@),
            None => parse_events(bytes@.skip(from as int)).is_none(),
        },
{
    let mut evs: Vec<TrackEvent> = Vec::new();
    let mut at: usize = from;
    proof {
        match parse_events(bytes@.skip(from as int)) {
            None => {},
            Some(rest) => {
                assert(evs@ + rest =~= rest);
            },
        }
    }
    while at < bytes.len()
        invariant
            from <= at <= bytes@.len(),
            all_encodable(evs@),
            parse_events(bytes@.skip(from as int)) == match parse_events(bytes@.skip(at as int)) {
                None => None,
                Some(rest) => Some(evs@ + rest),
            },
        decreases bytes@.len() - at,
    {
        let ghost tail = bytes@.skip(at as int);
        match read_event(bytes, at) {
            None => {
                return None;
            },
            Some((ev, next)) => {
                proof {
                    assert(tail.skip(next - at) =~= bytes@.skip(next as int));
                    match parse_events(bytes@.skip(next as int)) {
                        None => {},
                        Some(rest) => {
                            assert(evs@ + (seq![ev] + rest) =~= evs@.push(ev) + rest);
                        },
                    }
                }
                evs.push(ev);
                at = next;
            },
        }
    }
    assert(bytes@.skip(at as int) =~= Seq::<u8>::empty());
    assert(evs@ + Seq::<TrackEvent>::empty() =~= evs@);
    Some(evs)
}

/// Writing one more event appends its bytes.
pub proof fn lemma_events_bytes_push(evs: Seq<TrackEvent>, ev: TrackEvent)
    ensures
        events_bytes(evs.push(ev)) == events_bytes(evs) + event_bytes(ev),
{
    assert(evs.push(ev).drop_last() =~= evs);
}

/// The bytes of two lists in a row are the bytes of the first followed by
/// those of the second.
pub proof fn lemma_events_bytes_concat(a: Seq<TrackEvent>, b: Seq<TrackEvent>)
    ensures
        events_bytes(a + b) == events_bytes(a) + events_bytes(b),
    decreases b.len(),
{
    if b.len() == 0 {
        assert(a + b =~= a);
        assert(events_bytes(a) + events_bytes(b) =~= events_bytes(a));
    } else {
        lemma_events_bytes_concat(a, b.drop_last());
        assert((a + b).drop_last() =~= a + b.drop_last());
        assert((a + b).last() == b.last());
        assert(events_bytes(a + b) =~= events_bytes(a) + events_bytes(b));
    }
}

/// Every event of a list stands in the bytes of the list, right behind the
/// bytes of the events before it.
pub proof fn lemma_event_in_place(evs: Seq<TrackEvent>, k: int)
    requires
        0 <= k < evs.len(),
    ensures
        ({
            let from = events_bytes(evs.take(k)).len() as int;
            let to = from + event_bytes(evs[k]).len();
            &&& to == events_bytes(evs.take(k + 1)).len()
            &&& to <= events_bytes(evs).len()
            &&& events_bytes(evs).subrange(from, to) == event_bytes(evs[k])
        }),
{
    let head = evs.take(k + 1);
    let tail = evs.skip(k + 1);
    assert(head + tail =~= evs);
    lemma_events_bytes_concat(head, tail);
    assert(head.drop_last() =~= evs.take(k));
    assert(head.last() == evs[k]);
    let from = events_bytes(evs.take(k)).len() as int;
    let to = from + event_bytes(evs[k]).len();
    assert(events_bytes(evs).subrange(from, to) =~= event_bytes(evs[k]));
}

/// The bytes of a list are the bytes of its first event followed by those of
/// the rest.
pub proof fn lemma_events_bytes_first(evs: Seq<TrackEvent>)
    requires
        evs.len() > 0,
    ensures
        events_bytes(evs) == event_bytes(evs[0]) + events_bytes(evs.drop_first()),
    decreases evs.len(),
{
    if evs.len() == 1 {
        assert(evs.drop_last() =~= Seq::<TrackEvent>::empty());
        assert(evs.drop_first() =~= Seq::<TrackEvent>::empty());
        assert(events_bytes(evs) =~= event_bytes(evs[0]) + events_bytes(evs.drop_first()));
    } else {
        lemma_events_bytes_first(evs.drop_last());
        assert(evs.drop_last().drop_first() =~= evs.drop_first().drop_last());
        assert(evs.drop_last()[0] == evs[0]);
        assert(evs.drop_first().last() == evs.last());
        assert(events_bytes(evs) =~= event_bytes(evs[0]) + events_bytes(evs.drop_first()));
    }
}

/// Reading undoes writing for a single event, whatever follows it.
pub proof fn lemma_event_round_trip(ev: TrackEvent, rest: Seq<u8>)
    requires
        ev.encodable(),
    ensures
        parse_event(event_bytes(ev) + rest) == Some((ev, event_bytes(ev).len() as int)),
{
    let time = vlq_bytes(ev.delta() as nat);
    let all = event_bytes(ev) + rest;
    assert(all =~= time + (ev.message() + rest));
    lemma_vlq_round_trip(ev.delta() as nat, ev.message() + rest);
    let used = time.len() as int;
    assert(all[used] == ev.message()[0]);
    assert(all[used + 1] == ev.message()[1]);
    assert(all[used + 2] == ev.message()[2]);
}

/// Reading undoes writing: the events read from the bytes of a list of
/// events are that list.
pub proof fn lemma_events_round_trip(evs: Seq<TrackEvent>)
    requires
        all_encodable(evs),
    ensures
        parse_events(events_bytes(evs)) == Some(evs),
    decreases evs.len(),
{
    if evs.len() == 0 {
        assert(evs =~= Seq::<TrackEvent>::empty());
    } else {
        let first = evs[0];
        let rest = evs.drop_first();
        lemma_events_bytes_first(evs);
        lemma_event_round_trip(first, events_bytes(rest));
        lemma_events_round_trip(rest);
        let bytes = events_bytes(evs);
        let used = event_bytes(first).len() as int;
        assert(bytes.skip(used) =~= events_bytes(rest));
        assert(seq![first] + rest =~= evs);
    }
}

} // verus!
