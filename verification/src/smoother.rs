//! The receiver side: a state machine that turns a sparse, jitter-prone
//! stream of delta records into a plan of smooth relative motion steps.
//!
//! The first valid record of a session is applied as one immediate step. Every
//! later record is spread over five interpolated sub-steps whose cumulative
//! targets run from the previously received delta toward the new one, spaced
//! by a fifth of the measured inter-record time gap; the displacements the
//! five sub-steps apply always sum exactly to the newly received delta.

use vstd::prelude::*;

use crate::codec::PackedMouseDelta;
use crate::codec::RECORD_BYTES;
use crate::codec::record_of_wire;
use crate::codec::signed12;

verus! {

/// How many interpolation sub-steps spread one received delta.
pub const SUB_STEPS: u32 = 5;

/// One planned relative motion: a displacement to apply, then a pause before
/// the next step.
#[derive(Clone, Copy, PartialEq, Eq, Structural, Debug)]
pub struct MotionStep {
    pub dx: i32,
    pub dy: i32,
    pub delay_ms: u64,
}

/// The receiver's whole state: the timestamp and delta of the last valid
/// record, or nothing while no record has arrived yet.
pub struct Smoother {
    pub last: Option<(u32, i16, i16)>,
}

/// Truncating (toward zero) division by a positive divisor, as executable
/// signed division rounds.
pub open spec fn div_trunc(a: int, b: int) -> int {
    if a >= 0 {
        a / b
    } else {
        -((-a) / b)
    }
}

/// The cumulative interpolated displacement after sub-step `i` of a playback
/// on one axis: the linear interpolation from the previously received delta
/// `prev` toward the newly received delta `curr`, evaluated at `i` of
/// `SUB_STEPS`.
pub open spec fn interp(prev: int, curr: int, i: int) -> int {
    prev + div_trunc((curr - prev) * i, SUB_STEPS as int)
}

/// The relative displacement applied at sub-step `i` (counting from one): the
/// increment between consecutive cumulative targets, where a playback starts
/// from zero applied displacement.
pub open spec fn substep(prev: int, curr: int, i: int) -> int {
    if i <= 1 {
        interp(prev, curr, 1)
    } else {
        interp(prev, curr, i) - interp(prev, curr, i - 1)
    }
}

/// The measured time gap between two records, never less than one time unit:
/// a record whose timestamp does not exceed the stored one — late, reordered,
/// or simultaneous — counts as one time unit, so playback never stalls on it.
pub open spec fn gap(new_ts: u32, prev_ts: u32) -> u32 {
    if new_ts <= prev_ts {
        1u32
    } else {
        (new_ts - prev_ts) as u32
    }
}

/// The playback plan a record produces: the whole delta as one immediate step
/// for the first record of a session, five interpolated sub-steps spaced by a
/// fifth of the measured time gap thereafter.
pub open spec fn playback(last: Option<(u32, i16, i16)>, rec: PackedMouseDelta) -> Seq<MotionStep> {
    let dx = signed12(rec.data as int / 4096);
    let dy = signed12(rec.data as int);
    match last {
        None => seq![MotionStep { dx: dx as i32, dy: dy as i32, delay_ms: 0 }],
        Some((prev_ts, prev_dx, prev_dy)) => Seq::new(
            SUB_STEPS as nat,
            |i: int|
                MotionStep {
                    dx: substep(prev_dx as int, dx, i + 1) as i32,
                    dy: substep(prev_dy as int, dy, i + 1) as i32,
                    delay_ms: (gap(rec.timestamp, prev_ts) / SUB_STEPS) as u64,
                },
        ),
    }
}

/// Divides by the sub-step count, rounding toward zero.
fn div_steps_trunc(num: i32) -> (r: i32)
    requires
        -1000000 <= num <= 1000000,
    ensures
        r as int == div_trunc(num as int, SUB_STEPS as int),
        -1000000 <= r <= 1000000,
{
    if num >= 0 {
        proof {
            vstd::arithmetic::div_mod::lemma_div_nonincreasing(num as int, SUB_STEPS as int);
            vstd::arithmetic::div_mod::lemma_div_pos_is_pos(num as int, SUB_STEPS as int);
        }
        ((num as u32) / SUB_STEPS) as i32
    } else {
        proof {
            vstd::arithmetic::div_mod::lemma_div_nonincreasing(-(num as int), SUB_STEPS as int);
            vstd::arithmetic::div_mod::lemma_div_pos_is_pos(-(num as int), SUB_STEPS as int);
        }
        -(((-num) as u32 / SUB_STEPS) as i32)
    }
}

/// The cumulative interpolated displacement after sub-step `i`, on one axis.
fn interp_step(prev: i16, curr: i16, i: u32) -> (r: i32)
    requires
        1 <= i <= SUB_STEPS,
    ensures
        r as int == interp(prev as int, curr as int, i as int),
        -1100000 <= r <= 1100000,
{
    let diff: i32 = (curr as i32) - (prev as i32);
    proof {
        assert(-1000000 <= (diff as int) * (i as int) <= 1000000) by (nonlinear_arith)
            requires
                -70000 <= diff <= 70000 && 1 <= i <= 5,
        ;
    }
    let num: i32 = diff * (i as i32);
    let q: i32 = div_steps_trunc(num);
    (prev as i32) + q
}

impl Smoother {
    /// The state a fresh receiver session starts from: no record seen yet.
    pub fn new() -> (r: Smoother)
        ensures
            r.last is None,
    {
        Smoother { last: None }
    }

    /// Handles one received datagram and returns the motion steps to apply,
    /// in order, each followed by its pause.
    ///
    /// A datagram whose length is not exactly the fixed record size is
    /// invalid: it is discarded whole — no steps, no state change, never a
    /// partial record. A valid datagram becomes the new last-received record,
    /// and its playback plan is returned: one immediate full-delta step while
    /// the receiver was idle, five interpolated sub-steps otherwise.
    pub fn on_datagram(&mut self, buf: &[u8]) -> (steps: Vec<MotionStep>)
        ensures
            buf@.len() != RECORD_BYTES ==> *final(self) == *old(self) && steps@ == Seq::<
                MotionStep,
            >::empty(),
            buf@.len() == RECORD_BYTES ==> ({
                let rec = record_of_wire(buf@);
                &&& steps@ == playback(old(self).last, rec)
                &&& final(self).last == Some(
                    (
                        rec.timestamp,
                        signed12(rec.data as int / 4096) as i16,
                        signed12(rec.data as int) as i16,
                    ),
                )
            }),
            old(self).last is None && buf@.len() == RECORD_BYTES ==> steps@.len() == 1
                && steps@[0].delay_ms == 0,
            old(self).last is Some && buf@.len() == RECORD_BYTES ==> steps@.len()
                == SUB_STEPS as int,
    {
        let rec: PackedMouseDelta = match PackedMouseDelta::from_bytes(buf) {
            None => {
                return Vec::new();
            },
            Some(r) => r,
        };
        let (dx, dy) = rec.unpack();
        let mut steps: Vec<MotionStep> = Vec::new();
        match self.last {
            None => {
                steps.push(MotionStep { dx: dx as i32, dy: dy as i32, delay_ms: 0 });
                proof {
                    assert(steps@ =~= playback(self.last, record_of_wire(buf@)));
                }
            },
            Some((prev_ts, prev_dx, prev_dy)) => {
                let dt: u32 = if rec.timestamp <= prev_ts {
                    1
                } else {
                    rec.timestamp - prev_ts
                };
                let delay: u64 = (dt / SUB_STEPS) as u64;
                let c1x: i32 = interp_step(prev_dx, dx, 1);
                let c2x: i32 = interp_step(prev_dx, dx, 2);
                let c3x: i32 = interp_step(prev_dx, dx, 3);
                let c4x: i32 = interp_step(prev_dx, dx, 4);
                let c5x: i32 = interp_step(prev_dx, dx, 5);
                let c1y: i32 = interp_step(prev_dy, dy, 1);
                let c2y: i32 = interp_step(prev_dy, dy, 2);
                let c3y: i32 = interp_step(prev_dy, dy, 3);
                let c4y: i32 = interp_step(prev_dy, dy, 4);
                let c5y: i32 = interp_step(prev_dy, dy, 5);
                steps.push(MotionStep { dx: c1x, dy: c1y, delay_ms: delay });
                steps.push(MotionStep { dx: c2x - c1x, dy: c2y - c1y, delay_ms: delay });
                steps.push(MotionStep { dx: c3x - c2x, dy: c3y - c2y, delay_ms: delay });
                steps.push(MotionStep { dx: c4x - c3x, dy: c4y - c3y, delay_ms: delay });
                steps.push(MotionStep { dx: c5x - c4x, dy: c5y - c4y, delay_ms: delay });
                proof {
                    assert(steps@ =~= playback(self.last, record_of_wire(buf@)));
                }
            },
        }
        self.last = Some((rec.timestamp, dx, dy));
        steps
    }
}

/// Truncating division is exact on multiples of the sub-step count.
proof fn lemma_div_trunc_exact(k: int)
    ensures
        div_trunc(k * 5, 5) == k,
{
    if k >= 0 {
        vstd::arithmetic::div_mod::lemma_div_multiples_vanish(k, 5);
        assert(5int * k == k * 5);
    } else {
        vstd::arithmetic::div_mod::lemma_div_multiples_vanish(-k, 5);
        assert(5int * (-k) == -(k * 5));
    }
}

/// The five sub-steps of one playback sum exactly to the newly received
/// delta on each axis, whatever the previously received delta was: smoothing
/// spreads a delta out, it never gains or loses motion.
pub proof fn lemma_substeps_sum(prev: int, curr: int)
    ensures
        substep(prev, curr, 1) + substep(prev, curr, 2) + substep(prev, curr, 3) + substep(
            prev,
            curr,
            4,
        ) + substep(prev, curr, 5) == curr,
{
    lemma_div_trunc_exact(curr - prev);
    assert(interp(prev, curr, 5) == curr);
}

/// When the previously received delta was zero on an axis, no sub-step moves
/// against the sign of the new delta on that axis.
pub proof fn lemma_substeps_keep_sign(curr: int, i: int)
    requires
        1 <= i <= 5,
    ensures
        curr >= 0 ==> substep(0, curr, i) >= 0,
        curr <= 0 ==> substep(0, curr, i) <= 0,
{
    assert(forall|j: int| 1 <= j <= 5 ==> interp(0, curr, j) == div_trunc(curr * j, 5));
    if curr >= 0 {
        assert(curr * (i - 1) <= curr * i && 0 <= curr * 1 && curr * i >= 0) by (nonlinear_arith)
            requires
                curr >= 0 && 1 <= i <= 5,
        ;
        vstd::arithmetic::div_mod::lemma_div_is_ordered(curr * (i - 1), curr * i, 5);
        vstd::arithmetic::div_mod::lemma_div_pos_is_pos(curr * 1, 5);
        vstd::arithmetic::div_mod::lemma_div_pos_is_pos(curr * (i - 1), 5);
        vstd::arithmetic::div_mod::lemma_div_pos_is_pos(curr * i, 5);
    } else {
        assert(-(curr * i) >= -(curr * (i - 1)) && -(curr * 1) >= 0 && -(curr * (i - 1)) >= 0 && -(
        curr * i) >= 0) by (nonlinear_arith)
            requires
                curr <= 0 && 1 <= i <= 5,
        ;
        vstd::arithmetic::div_mod::lemma_div_is_ordered(-(curr * (i - 1)), -(curr * i), 5);
        vstd::arithmetic::div_mod::lemma_div_pos_is_pos(-(curr * 1), 5);
        vstd::arithmetic::div_mod::lemma_div_pos_is_pos(-(curr * (i - 1)), 5);
        vstd::arithmetic::div_mod::lemma_div_pos_is_pos(-(curr * i), 5);
    }
}

/// The total horizontal displacement a playback plan applies.
pub open spec fn total_dx(steps: Seq<MotionStep>) -> int
    decreases steps.len(),
{
    if steps.len() == 0 {
        0
    } else {
        steps[0].dx + total_dx(steps.skip(1))
    }
}

/// The total vertical displacement a playback plan applies.
pub open spec fn total_dy(steps: Seq<MotionStep>) -> int
    decreases steps.len(),
{
    if steps.len() == 0 {
        0
    } else {
        steps[0].dy + total_dy(steps.skip(1))
    }
}

/// A cumulative interpolation target never strays far: it is bounded by the
/// previous delta plus the scaled difference.
proof fn lemma_interp_bounds(prev: int, curr: int, i: int)
    requires
        -32768 <= prev <= 32767,
        -2048 <= curr <= 2047,
        1 <= i <= 5,
    ensures
        -250000 <= interp(prev, curr, i) <= 250000,
{
    let a = (curr - prev) * i;
    assert(-200000 <= (curr - prev) * i <= 200000) by (nonlinear_arith)
        requires
            -32768 <= prev <= 32767 && -2048 <= curr <= 2047 && 1 <= i <= 5,
    ;
    if a >= 0 {
        vstd::arithmetic::div_mod::lemma_div_nonincreasing(a, 5);
        vstd::arithmetic::div_mod::lemma_div_pos_is_pos(a, 5);
    } else {
        vstd::arithmetic::div_mod::lemma_div_nonincreasing(-a, 5);
        vstd::arithmetic::div_mod::lemma_div_pos_is_pos(-a, 5);
    }
}

/// Every sub-step displacement fits comfortably in 32 bits.
proof fn lemma_substep_bounds(prev: int, curr: int, i: int)
    requires
        -32768 <= prev <= 32767,
        -2048 <= curr <= 2047,
        1 <= i <= 5,
    ensures
        -600000 <= substep(prev, curr, i) <= 600000,
{
    lemma_interp_bounds(prev, curr, 1);
    lemma_interp_bounds(prev, curr, i);
    if i > 1 {
        lemma_interp_bounds(prev, curr, i - 1);
    }
}

/// Unfolds the playback total over a five-step plan.
proof fn lemma_total_five(s: Seq<MotionStep>)
    requires
        s.len() == 5,
    ensures
        total_dx(s) == s[0].dx + s[1].dx + s[2].dx + s[3].dx + s[4].dx,
        total_dy(s) == s[0].dy + s[1].dy + s[2].dy + s[3].dy + s[4].dy,
{
    let s1 = s.skip(1);
    let s2 = s1.skip(1);
    let s3 = s2.skip(1);
    let s4 = s3.skip(1);
    assert(s1[0] == s[1] && s2[0] == s[2] && s3[0] == s[3] && s4[0] == s[4]);
    assert(s4.skip(1).len() == 0);
    assert(total_dx(s4.skip(1)) == 0 && total_dy(s4.skip(1)) == 0);
    assert(total_dx(s4) == s4[0].dx + total_dx(s4.skip(1)));
    assert(total_dx(s3) == s3[0].dx + total_dx(s4));
    assert(total_dx(s2) == s2[0].dx + total_dx(s3));
    assert(total_dx(s1) == s1[0].dx + total_dx(s2));
    assert(total_dx(s) == s[0].dx + total_dx(s1));
    assert(total_dy(s4) == s4[0].dy + total_dy(s4.skip(1)));
    assert(total_dy(s3) == s3[0].dy + total_dy(s4));
    assert(total_dy(s2) == s2[0].dy + total_dy(s3));
    assert(total_dy(s1) == s1[0].dy + total_dy(s2));
    assert(total_dy(s) == s[0].dy + total_dy(s1));
}

/// Conservation of motion: over one whole playback — the single immediate
/// step of a session's first record, or the five interpolated sub-steps of
/// any later one — the applied displacements sum exactly to the delta the
/// record carries. Smoothing reshapes motion in time; it never gains or
/// loses any.
pub proof fn lemma_playback_total(last: Option<(u32, i16, i16)>, rec: PackedMouseDelta)
    ensures
        total_dx(playback(last, rec)) == signed12(rec.data as int / 4096),
        total_dy(playback(last, rec)) == signed12(rec.data as int),
{
    vstd::arithmetic::div_mod::lemma_mod_bound(rec.data as int / 4096, 4096);
    vstd::arithmetic::div_mod::lemma_mod_bound(rec.data as int, 4096);
    let dx = signed12(rec.data as int / 4096);
    let dy = signed12(rec.data as int);
    let s = playback(last, rec);
    match last {
        None => {
            assert(s.skip(1).len() == 0);
            assert(total_dx(s.skip(1)) == 0 && total_dy(s.skip(1)) == 0);
            assert(total_dx(s) == s[0].dx + total_dx(s.skip(1)));
            assert(total_dy(s) == s[0].dy + total_dy(s.skip(1)));
        },
        Some((prev_ts, prev_dx, prev_dy)) => {
            lemma_total_five(s);
            assert forall|j: int| 0 <= j < 5 implies s[j].dx == substep(prev_dx as int, dx, j + 1)
                && s[j].dy == substep(prev_dy as int, dy, j + 1) by {
                lemma_substep_bounds(prev_dx as int, dx, j + 1);
                lemma_substep_bounds(prev_dy as int, dy, j + 1);
            }
            lemma_substeps_sum(prev_dx as int, dx);
            lemma_substeps_sum(prev_dy as int, dy);
        },
    }
}

} // verus!
