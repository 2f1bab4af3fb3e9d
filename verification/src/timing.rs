//! When the events of a track happen: delta-times added up.

use vstd::prelude::*;
use crate::event::TrackEvent;
use crate::track::{chord_events, end_of_track, note_off, note_on, scale_events, HOLD};

verus! {

/// The ticks that have passed when the first `k` events have happened: the
/// sum of their delta-times.
pub open spec fn elapsed(evs: Seq<TrackEvent>, k: int) -> int
    decreases k,
{
    if k <= 0 {
        0
    } else {
        elapsed(evs, k - 1) + evs[k - 1].delta()
    }
}

/// The tick at which event `k` happens.
pub open spec fn tick_of(evs: Seq<TrackEvent>, k: int) -> int {
    elapsed(evs, k + 1)
}

/// In a scale, 384 ticks pass with every pair of events.
proof fn lemma_scale_elapsed(notes: Seq<u8>, k: int)
    requires
        0 <= k <= 2 * notes.len() + 1,
    ensures
        elapsed(scale_events(notes), k) == 384 * (k / 2),
    decreases k,
{
    if k > 0 {
        lemma_scale_elapsed(notes, k - 1);
    }
}

/// In a chord, no tick passes before the first note-off and 384 have passed
/// from it on.
proof fn lemma_chord_elapsed(notes: Seq<u8>, k: int)
    requires
        0 <= k <= 2 * notes.len() + 1,
    ensures
        elapsed(chord_events(notes), k) == if k <= notes.len() || notes.len() == 0 {
            0int
        } else {
            384int
        },
    decreases k,
{
    if k > 0 {
        lemma_chord_elapsed(notes, k - 1);
        let evs = chord_events(notes);
        let n = notes.len() as int;
        if k - 1 < n {
            assert(evs[k - 1] == note_on(notes[k - 1]));
        } else if k - 1 < 2 * n {
            assert(evs[k - 1] == note_off(if k - 1 == n { HOLD } else { 0 }, notes[k - 1 - n]));
        } else {
            assert(evs[k - 1] == end_of_track());
        }
    }
}

/// A scale plays its notes one after the other: note `i` is struck at tick
/// `384 i` and released at tick `384 (i + 1)`, which is when the next note
/// is struck, so never two notes sound at once. The track ends with the
/// last release, after `384 n` ticks in all.
pub proof fn lemma_scale_timing(notes: Seq<u8>)
    ensures
        ({
            let evs = scale_events(notes);
            let n = notes.len() as int;
            &&& forall|i: int|
                0 <= i < n ==> tick_of(evs, 2 * i) == 384 * i && tick_of(evs, 2 * i + 1) == 384 * (i
                    + 1) && #[trigger] notes[i] == evs[2 * i].note()
            &&& tick_of(evs, 2 * n) == 384 * n
            &&& elapsed(evs, evs.len() as int) == 384 * n
        }),
{
    let evs = scale_events(notes);
    let n = notes.len() as int;
    assert forall|i: int| 0 <= i < n implies tick_of(evs, 2 * i) == 384 * i && tick_of(
        evs,
        2 * i + 1,
    ) == 384 * (i + 1) && #[trigger] notes[i] == evs[2 * i].note() by {
        lemma_scale_elapsed(notes, 2 * i + 1);
        lemma_scale_elapsed(notes, 2 * i + 2);
    }
    lemma_scale_elapsed(notes, 2 * n + 1);
}

/// A chord plays its notes together: every note is struck at tick 0 and
/// released at tick 384. The track ends with the release, after 384 ticks
/// whatever the number of notes; without notes it ends at once.
pub proof fn lemma_chord_timing(notes: Seq<u8>)
    ensures
        ({
            let evs = chord_events(notes);
            let n = notes.len() as int;
            &&& forall|i: int|
                0 <= i < n ==> tick_of(evs, i) == 0 && tick_of(evs, n + i) == 384
                    && #[trigger] notes[i] == evs[i].note()
            &&& elapsed(evs, evs.len() as int) == if n == 0 {
                0int
            } else {
                384int
            }
        }),
{
    let evs = chord_events(notes);
    let n = notes.len() as int;
    assert forall|i: int| 0 <= i < n implies tick_of(evs, i) == 0 && tick_of(evs, n + i) == 384
        && #[trigger] notes[i] == evs[i].note() by {
        lemma_chord_elapsed(notes, i + 1);
        lemma_chord_elapsed(notes, n + i + 1);
        assert(evs[i] == note_on(notes[i]));
    }
    lemma_chord_elapsed(notes, 2 * n + 1);
}

} // verus!
