//! The sender side: samples the absolute pointer position on a fixed tick,
//! and emits one record per tick on which the position moved. A tick with no
//! movement emits nothing at all.

use vstd::prelude::*;

use crate::codec::PackedMouseDelta;
use crate::codec::packed_word;

verus! {

/// The sender's whole state between ticks: the last transmitted absolute
/// position and the sequence number the next record will carry.
#[derive(Clone, Copy, PartialEq, Eq, Structural, Debug)]
pub struct SenderState {
    pub last_x: i32,
    pub last_y: i32,
    pub sequence_number: u32,
}

/// A signed difference truncated to sixteen bits, two's complement: the axis
/// delta a record carries when the pointer moved farther than sixteen bits
/// can hold.
pub open spec fn trunc16(v: int) -> int {
    if v % 65536 >= 32768 {
        v % 65536 - 65536
    } else {
        v % 65536
    }
}

/// One sender tick at the specification level: the state after the tick and
/// the record emitted, if any. A tick whose sampled position equals the
/// last-known position changes nothing and emits nothing; any other tick
/// emits one record carrying the position difference, stamps it with the
/// current sequence number, advances that number with wraparound, and adopts
/// the sampled position as last-known.
pub open spec fn tick_spec(s: SenderState, x: i32, y: i32, timestamp: u32) -> (SenderState, Option<
    PackedMouseDelta,
>) {
    if x == s.last_x && y == s.last_y {
        (s, None)
    } else {
        (
            SenderState {
                last_x: x,
                last_y: y,
                sequence_number: s.sequence_number.wrapping_add(1),
            },
            Some(
                PackedMouseDelta {
                    sequence_number: s.sequence_number,
                    timestamp,
                    data: packed_word(x - s.last_x, y - s.last_y) as u32,
                },
            ),
        )
    }
}

/// A whole run of ticks at the specification level: the final state and the
/// records emitted, in order, given the sampled positions and timestamps of
/// each tick.
pub open spec fn run_spec(s: SenderState, samples: Seq<(i32, i32, u32)>) -> (SenderState, Seq<
    PackedMouseDelta,
>)
    decreases samples.len(),
{
    if samples.len() == 0 {
        (s, Seq::empty())
    } else {
        let head = samples[0];
        let (s1, emitted) = tick_spec(s, head.0, head.1, head.2);
        let (s2, rest) = run_spec(s1, samples.skip(1));
        match emitted {
            None => (s2, rest),
            Some(r) => (s2, seq![r] + rest),
        }
    }
}

/// Truncates an axis difference of two positions to sixteen bits.
fn delta16(cur: i32, last: i32) -> (r: i16)
    ensures
        r as int == trunc16(cur - last),
{
    let d: i64 = (cur as i64) - (last as i64);
    let r: i16 = #[verifier::truncate] (d as i16);
    proof {
        assert((d as i16) as int == trunc16(d as int)) by (bit_vector);
    }
    r
}

impl SenderState {
    /// The state a fresh sender session starts from: position origin, first
    /// sequence number zero.
    pub fn new() -> (r: SenderState)
        ensures
            r.last_x == 0,
            r.last_y == 0,
            r.sequence_number == 0,
    {
        SenderState { last_x: 0, last_y: 0, sequence_number: 0 }
    }

    /// One sender tick on the sampled absolute position. Returns the record
    /// to transmit, or nothing when the position did not move — an idle tick
    /// leaves the whole state untouched.
    pub fn tick(&mut self, x: i32, y: i32, timestamp: u32) -> (r: Option<PackedMouseDelta>)
        ensures
            (*final(self), r) == tick_spec(*old(self), x, y, timestamp),
            r is Some <==> !(x == old(self).last_x && y == old(self).last_y),
    {
        if x == self.last_x && y == self.last_y {
            return None;
        }
        let dx: i16 = delta16(x, self.last_x);
        let dy: i16 = delta16(y, self.last_y);
        let record = PackedMouseDelta::new(self.sequence_number, timestamp, dx, dy);
        proof {
            lemma_field12_trunc16(x - self.last_x);
            lemma_field12_trunc16(y - self.last_y);
        }
        self.last_x = x;
        self.last_y = y;
        self.sequence_number = self.sequence_number.wrapping_add(1);
        Some(record)
    }
}

/// Truncating a difference to sixteen bits does not change its twelve-bit
/// field: the packed delta is the true difference modulo 4096 either way.
pub proof fn lemma_field12_trunc16(v: int)
    ensures
        crate::codec::field12(trunc16(v)) == crate::codec::field12(v),
{
    vstd::arithmetic::div_mod::lemma_mod_mod(v, 4096, 16);
    assert((v % (4096int * 16)) % 4096 == v % 4096);
    if v % 65536 >= 32768 {
        vstd::arithmetic::div_mod::lemma_mod_multiples_vanish(-16, v % 65536, 4096);
        assert((4096int * (-16) + v % 65536) % 4096 == (v % 65536) % 4096);
    }
}

/// Idle suppression: across any run of ticks whose sampled position never
/// moves off the sender's last-known position, the sender emits no records
/// at all and its state never changes.
pub proof fn lemma_idle_suppression(s: SenderState, samples: Seq<(i32, i32, u32)>)
    requires
        forall|i: int|
            0 <= i < samples.len() ==> (#[trigger] samples[i]).0 == s.last_x && samples[i].1
                == s.last_y,
    ensures
        run_spec(s, samples).0 == s,
        run_spec(s, samples).1 == Seq::<PackedMouseDelta>::empty(),
    decreases samples.len(),
{
    if samples.len() > 0 {
        assert(samples[0].0 == s.last_x && samples[0].1 == s.last_y);
        lemma_idle_suppression(s, samples.skip(1));
    }
}

} // verus!
