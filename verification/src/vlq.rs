//! Variable-length quantities: the encoding of a delta-time as base-128
//! digits, most significant first, where every byte but the last has its top
//! bit set.

use vstd::prelude::*;

verus! {

/// The largest value that a variable-length quantity of four bytes holds.
pub const VLQ_MAX: u32 = 0x0FFF_FFFF;

/// The bytes that carry the digits above the lowest one, each with its top
/// bit set. There are none for a value of zero.
pub open spec fn vlq_leading(v: nat) -> Seq<u8>
    decreases v,
{
    if v == 0 {
        Seq::empty()
    } else {
        vlq_leading(v / 128).push((128 + v % 128) as u8)
    }
}

/// The encoding of `v`: its leading digits, then the lowest digit with the
/// top bit clear.
pub open spec fn vlq_bytes(v: nat) -> Seq<u8> {
    vlq_leading(v / 128).push((v % 128) as u8)
}

/// Reads digits from position `at` on, with `acc` the value of those read
/// so far. Gives the value and the position behind the quantity, or nothing
/// where the bytes end early or the quantity is longer than four bytes.
pub open spec fn vlq_scan(bytes: Seq<u8>, at: int, acc: nat) -> Option<(nat, int)>
    decreases 4 - at,
{
    if at < 0 || at >= 4 || at >= bytes.len() {
        None
    } else if bytes[at] < 128 {
        Some((acc * 128 + bytes[at] as nat, at + 1))
    } else {
        vlq_scan(bytes, at + 1, acc * 128 + (bytes[at] - 128) as nat)
    }
}

/// The quantity at the head of `bytes`, with the number of bytes it takes.
pub open spec fn vlq_parse(bytes: Seq<u8>) -> Option<(nat, int)> {
    vlq_scan(bytes, 0, 0)
}

/// Appends the encoding of `value` to `sink`.
pub fn write_vlq(sink: &mut Vec<u8>, value: u32)
    requires
        value <= VLQ_MAX,
    ensures
        final(sink)@ == old(sink)@ + vlq_bytes(value as nat),
{
    proof {
        reveal_with_fuel(vlq_leading, 4);
    }
    if value >= 0x20_0000 {
        sink.push((128 + value / 0x20_0000) as u8);
    }
    if value >= 0x4000 {
        sink.push((128 + value / 0x4000 % 128) as u8);
    }
    if value >= 0x80 {
        sink.push((128 + value / 0x80 % 128) as u8);
    }
    sink.push((value % 128) as u8);
    assert(sink@ =~= old(sink)@ + vlq_bytes(value as nat));
}

/// Reads the quantity that starts at position `at` of `bytes`. Gives its
/// value and the position behind it.
pub fn read_vlq(bytes: &Vec<u8>, at: usize) -> (got: Option<(u32, usize)>)
    requires
        at <= bytes@.len(),
    ensures
        match got {
            Some((value, next)) => {
                &&& vlq_parse(bytes@.skip(at as int)) == Some((value as nat, next - at))
                &&& value <= VLQ_MAX
                &&& at < next <= bytes@.len()
            },
            None => vlq_parse(bytes@.skip(at as int)).is_none(),
        },
{
    let ghost tail = bytes@.skip(at as int);
    let mut acc: u32 = 0;
    let mut used: usize = 0;
    while used < 4 && used < bytes.len() - at
        invariant
            at <= bytes@.len(),
            tail == bytes@.skip(at as int),
            used <= 4,
            used <= bytes@.len() - at,
            used == 0 ==> acc == 0,
            used == 1 ==> acc < 0x80,
            used == 2 ==> acc < 0x4000,
            used == 3 ==> acc < 0x20_0000,
            used < 4 ==> vlq_parse(tail) == vlq_scan(tail, used as int, acc as nat),
            used == 4 ==> vlq_parse(tail).is_none(),
        decreases 4 - used,
    {
        let byte = bytes[at + used];
        assert(tail[used as int] == byte);
        if byte < 128 {
            return Some((acc * 128 + byte as u32, at + used + 1));
        }
        acc = acc * 128 + (byte - 128) as u32;
        used += 1;
        proof {
            if used == 4 {
                assert(vlq_scan(tail, 4, acc as nat).is_none());
            }
        }
    }
    None
}

/// Reading undoes writing: the quantity at the head of an encoding, whatever
/// follows it, is the value that was encoded.
pub proof fn lemma_vlq_round_trip(v: nat, rest: Seq<u8>)
    requires
        v <= VLQ_MAX,
    ensures
        vlq_parse(vlq_bytes(v) + rest) == Some((v, vlq_bytes(v).len() as int)),
{
    reveal_with_fuel(vlq_leading, 4);
    reveal_with_fuel(vlq_scan, 5);
    let enc = vlq_bytes(v);
    let all = enc + rest;
    assert(forall|i: int| 0 <= i < enc.len() ==> all[i] == enc[i]);
    if v < 0x80 {
        assert(all[0] == v);
    } else if v < 0x4000 {
        assert(all[0] == 128 + v / 128);
        assert(all[1] == v % 128);
    } else if v < 0x20_0000 {
        assert(all[0] == 128 + v / 0x4000);
        assert(all[1] == 128 + v / 128 % 128);
        assert(all[2] == v % 128);
    } else {
        assert(all[0] == 128 + v / 0x20_0000);
        assert(all[1] == 128 + v / 0x4000 % 128);
        assert(all[2] == 128 + v / 128 % 128);
        assert(all[3] == v % 128);
    }
}

/// The two delta-times that tracks are made of: no delay is the single byte
/// `00`, a hold of 384 ticks the two bytes `83 00`.
pub proof fn lemma_vlq_of_track_deltas()
    ensures
        vlq_bytes(0) == seq![0x00u8],
        vlq_bytes(384) == seq![0x83u8, 0x00u8],
{
    reveal_with_fuel(vlq_leading, 3);
    assert(vlq_bytes(0) =~= seq![0x00u8]);
    assert(vlq_bytes(384) =~= seq![0x83u8, 0x00u8]);
}

} // verus!
