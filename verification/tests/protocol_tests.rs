use mouse_mirror::codec::PackedMouseDelta;
use mouse_mirror::sender::SenderState;
use mouse_mirror::smoother::Smoother;

#[test]
fn sender_idle_ticks_emit_nothing() {
    let mut s = SenderState::new();
    for t in 0..50u32 {
        assert!(s.tick(0, 0, t).is_none());
    }
    assert_eq!(s, SenderState::new());

    // Idle suppression holds at any position, not only at the origin.
    let mut s = SenderState { last_x: 31, last_y: -7, sequence_number: 12 };
    for t in 0..50u32 {
        assert!(s.tick(31, -7, t).is_none());
    }
    assert_eq!(s.sequence_number, 12);
}

#[test]
fn sender_emits_on_movement() {
    let mut s = SenderState::new();
    let rec = s.tick(3, 4, 100).unwrap();
    assert_eq!(rec.sequence_number, 0);
    assert_eq!(rec.timestamp, 100);
    assert_eq!(rec.unpack(), (3, 4));
    assert_eq!((s.last_x, s.last_y), (3, 4));
    assert_eq!(s.sequence_number, 1);

    // The next delta is relative to the new last-known position.
    let rec = s.tick(1, 4, 110).unwrap();
    assert_eq!(rec.sequence_number, 1);
    assert_eq!(rec.unpack(), (-2, 0));
}

#[test]
fn sender_sequence_number_wraps() {
    let mut s = SenderState { last_x: 0, last_y: 0, sequence_number: u32::MAX };
    let rec = s.tick(1, 0, 5).unwrap();
    assert_eq!(rec.sequence_number, u32::MAX);
    assert_eq!(s.sequence_number, 0);
}

#[test]
fn sender_masks_oversized_deltas() {
    let mut s = SenderState::new();
    // 5000 exceeds the twelve-bit range: only 5000 mod 4096 = 904 survives.
    let rec = s.tick(5000, 0, 1).unwrap();
    assert_eq!(rec.unpack(), (904, 0));
}

#[test]
fn smoother_ignores_wrong_length_datagrams() {
    let mut sm = Smoother::new();
    assert!(sm.on_datagram(&[0u8; 11]).is_empty());
    assert!(sm.on_datagram(&[0u8; 13]).is_empty());
    assert!(sm.on_datagram(&[]).is_empty());
    assert!(sm.last.is_none());

    // Tracking state survives an invalid datagram unchanged too.
    let first = PackedMouseDelta::new(0, 100, 7, 7);
    sm.on_datagram(&first.to_bytes());
    let before = sm.last;
    assert!(sm.on_datagram(&[0u8; 5]).is_empty());
    assert_eq!(sm.last, before);
}

#[test]
fn first_record_is_applied_whole() {
    let mut sm = Smoother::new();
    let rec = PackedMouseDelta::new(0, 500, 12, -9);
    let steps = sm.on_datagram(&rec.to_bytes());
    assert_eq!(steps.len(), 1);
    assert_eq!((steps[0].dx, steps[0].dy), (12, -9));
    assert_eq!(steps[0].delay_ms, 0);
    assert_eq!(sm.last, Some((500, 12, -9)));
}

#[test]
fn smoothing_from_rest_is_even_and_sums_exactly() {
    let mut sm = Smoother::new();
    sm.on_datagram(&PackedMouseDelta::new(0, 100, 0, 0).to_bytes());
    let steps = sm.on_datagram(&PackedMouseDelta::new(1, 150, 100, 50).to_bytes());
    assert_eq!(steps.len(), 5);
    let mut sum = (0i32, 0i32);
    for s in &steps {
        // Monotonic in each axis's sign: never a step against the delta.
        assert!(s.dx >= 0 && s.dy >= 0);
        assert_eq!(s.delay_ms, 10); // dt = 50, five sub-steps
        sum.0 += s.dx;
        sum.1 += s.dy;
    }
    assert_eq!(sum, (100, 50));
    for s in &steps {
        assert_eq!((s.dx, s.dy), (20, 10));
    }
}

#[test]
fn smoothing_sums_exactly_for_negative_deltas() {
    let mut sm = Smoother::new();
    sm.on_datagram(&PackedMouseDelta::new(0, 0, 3, -7).to_bytes());
    let steps = sm.on_datagram(&PackedMouseDelta::new(1, 33, -101, 49).to_bytes());
    assert_eq!(steps.len(), 5);
    let sum_x: i32 = steps.iter().map(|s| s.dx).sum();
    let sum_y: i32 = steps.iter().map(|s| s.dy).sum();
    assert_eq!((sum_x, sum_y), (-101, 49));
}

#[test]
fn equal_timestamps_still_make_progress() {
    let mut sm = Smoother::new();
    sm.on_datagram(&PackedMouseDelta::new(0, 77, 1, 1).to_bytes());
    let steps = sm.on_datagram(&PackedMouseDelta::new(1, 77, 10, 0).to_bytes());
    // The gap is clamped to one time unit, so the sub-step delay rounds to zero.
    assert_eq!(steps.len(), 5);
    for s in &steps {
        assert_eq!(s.delay_ms, 0);
    }
    let sum_x: i32 = steps.iter().map(|s| s.dx).sum();
    assert_eq!(sum_x, 10);
}

#[test]
fn late_records_clamp_the_gap() {
    let mut sm = Smoother::new();
    sm.on_datagram(&PackedMouseDelta::new(0, 100, 0, 0).to_bytes());
    // A late or reordered record, stamped before the stored one, counts as a
    // gap of one time unit: it plays out at once rather than stalling.
    let steps = sm.on_datagram(&PackedMouseDelta::new(1, 95, 50, 0).to_bytes());
    assert_eq!(steps.len(), 5);
    for s in &steps {
        assert_eq!(s.delay_ms, 0);
    }
    let sum_x: i32 = steps.iter().map(|s| s.dx).sum();
    assert_eq!(sum_x, 50);

    // The same holds across a timestamp that jumped far backwards.
    let mut sm = Smoother::new();
    sm.on_datagram(&PackedMouseDelta::new(0, u32::MAX, 0, 0).to_bytes());
    let steps = sm.on_datagram(&PackedMouseDelta::new(1, 4, 10, 0).to_bytes());
    assert_eq!(steps.len(), 5);
    for s in &steps {
        assert_eq!(s.delay_ms, 0);
    }
}

#[test]
fn end_to_end_two_movements() {
    // The sender watches the pointer move from (10,10) to (15,10), then,
    // thirty time units later, to (15,20).
    let mut s = SenderState { last_x: 10, last_y: 10, sequence_number: 0 };
    let rec1 = s.tick(15, 10, 1000).unwrap();
    let none = s.tick(15, 10, 1010);
    assert!(none.is_none());
    let rec2 = s.tick(15, 20, 1030).unwrap();

    assert_eq!(rec1.unpack(), (5, 0));
    assert_eq!(rec2.unpack(), (0, 10));
    assert_eq!(rec1.sequence_number, 0);
    assert_eq!(rec2.sequence_number, 1);
    assert_eq!(rec2.timestamp - rec1.timestamp, 30);

    // The receiver applies the first record as one direct step, then spreads
    // the second across five sub-steps spaced six time units apart that sum
    // exactly to its delta.
    let mut sm = Smoother::new();
    let steps1 = sm.on_datagram(&rec1.to_bytes());
    assert_eq!(steps1.len(), 1);
    assert_eq!((steps1[0].dx, steps1[0].dy), (5, 0));
    assert_eq!(steps1[0].delay_ms, 0);

    let steps2 = sm.on_datagram(&rec2.to_bytes());
    assert_eq!(steps2.len(), 5);
    let sum_x: i32 = steps2.iter().map(|st| st.dx).sum();
    let sum_y: i32 = steps2.iter().map(|st| st.dy).sum();
    assert_eq!((sum_x, sum_y), (0, 10));
    for st in &steps2 {
        assert_eq!(st.delay_ms, 6);
    }
    // The cumulative targets interpolate from the old delta toward the new one.
    assert_eq!(
        steps2.iter().map(|st| (st.dx, st.dy)).collect::<Vec<_>>(),
        vec![(4, 2), (-1, 2), (-1, 2), (-1, 2), (-1, 2)]
    );
}
