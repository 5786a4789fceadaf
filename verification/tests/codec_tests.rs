use mouse_mirror::codec::PackedMouseDelta;
use mouse_mirror::codec::RECORD_BYTES;

#[test]
fn round_trip_simple() {
    let r = PackedMouseDelta::new(7, 1000, 5, -3);
    assert_eq!(r.sequence_number, 7);
    assert_eq!(r.timestamp, 1000);
    assert_eq!(r.unpack(), (5, -3));
}

#[test]
fn round_trip_through_wire() {
    let r = PackedMouseDelta::new(42, 123456789, -1500, 1999);
    let bytes = r.to_bytes();
    assert_eq!(bytes.len(), RECORD_BYTES);
    let back = PackedMouseDelta::from_bytes(&bytes).unwrap();
    assert_eq!(back, r);
    assert_eq!(back.unpack(), (-1500, 1999));
}

#[test]
fn round_trip_boundaries() {
    for &(dx, dy) in &[(2047i16, -2048i16), (-2048, 2047), (0, 0), (1, -1), (-2048, -2048), (2047, 2047)] {
        let r = PackedMouseDelta::new(9, 9, dx, dy);
        assert_eq!(r.unpack(), (dx, dy));
        let back = PackedMouseDelta::from_bytes(&r.to_bytes()).unwrap();
        assert_eq!(back.unpack(), (dx, dy));
        assert_eq!(back.sequence_number, 9);
        assert_eq!(back.timestamp, 9);
    }
}

#[test]
fn boundary_values_leave_neighbours_alone() {
    let r = PackedMouseDelta::new(u32::MAX, 0, 2047, -2048);
    assert_eq!(r.sequence_number, u32::MAX);
    assert_eq!(r.timestamp, 0);
    assert_eq!(r.unpack(), (2047, -2048));

    let r = PackedMouseDelta::new(0, u32::MAX, -2048, 2047);
    assert_eq!(r.sequence_number, 0);
    assert_eq!(r.timestamp, u32::MAX);
    assert_eq!(r.unpack(), (-2048, 2047));
}

#[test]
fn out_of_range_deltas_are_masked() {
    // One past each end of the representable range wraps to the other end:
    // the codec keeps the low twelve bits, it does not clamp.
    let r = PackedMouseDelta::new(0, 0, 2048, -2049);
    assert_eq!(r.unpack(), (-2048, 2047));

    // 5000 mod 4096 = 904; -5000 mod 4096 = 3192, which reads back as 3192 - 4096.
    let r = PackedMouseDelta::new(0, 0, 5000, -5000);
    assert_eq!(r.unpack(), (904, -904));

    // A multiple of 4096 is indistinguishable from no motion.
    let r = PackedMouseDelta::new(0, 0, 4096, -4096);
    assert_eq!(r.unpack(), (0, 0));
}

#[test]
fn wire_image_is_little_endian() {
    let r = PackedMouseDelta::new(0x0102_0304, 0x0506_0708, 1, 2);
    // data = (1 << 12) | 2 = 0x0000_1002
    assert_eq!(
        r.to_bytes(),
        vec![0x04, 0x03, 0x02, 0x01, 0x08, 0x07, 0x06, 0x05, 0x02, 0x10, 0x00, 0x00]
    );
}

#[test]
fn decode_rejects_wrong_lengths() {
    assert!(PackedMouseDelta::from_bytes(&[]).is_none());
    assert!(PackedMouseDelta::from_bytes(&[0u8; 11]).is_none());
    assert!(PackedMouseDelta::from_bytes(&[0u8; 13]).is_none());
    assert!(PackedMouseDelta::from_bytes(&[0u8; 24]).is_none());
    assert!(PackedMouseDelta::from_bytes(&[0u8; 12]).is_some());
}

#[test]
fn decode_reads_any_twelve_bytes() {
    let bytes: Vec<u8> = (1u8..=12).collect();
    let r = PackedMouseDelta::from_bytes(&bytes).unwrap();
    assert_eq!(r.sequence_number, u32::from_le_bytes([1, 2, 3, 4]));
    assert_eq!(r.timestamp, u32::from_le_bytes([5, 6, 7, 8]));
    assert_eq!(r.data, u32::from_le_bytes([9, 10, 11, 12]));
}
