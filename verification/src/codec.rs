//! The record codec: a fixed-size binary motion record holding a sequence
//! number, a timestamp, and a signed two-dimensional delta packed into
//! twelve bits per axis.

use vstd::prelude::*;

verus! {

/// A motion record as held in memory. `data` carries the horizontal delta in
/// bits 12..24 and the vertical delta in bits 0..12, each as a twelve-bit
/// two's-complement field; the upper eight bits are zero for records built by
/// `new`.
#[derive(Clone, Copy, PartialEq, Eq, Structural, Debug)]
pub struct PackedMouseDelta {
    pub sequence_number: u32,
    pub timestamp: u32,
    pub data: u32,
}

/// The twelve-bit field that encodes a signed axis value: the value modulo
/// 4096 (Euclidean, so always in 0 .. 4096). Values outside -2048 .. 2047
/// are deliberately truncated to their low twelve bits; the codec masks, it
/// does not range-check.
pub open spec fn field12(v: int) -> int {
    v % 4096
}

/// The signed axis value read back from a twelve-bit field: two's-complement
/// interpretation of the field's low twelve bits, in -2048 .. 2048.
pub open spec fn signed12(f: int) -> int {
    if f % 4096 >= 2048 {
        f % 4096 - 4096
    } else {
        f % 4096
    }
}

/// The packed word holding both axis fields: the horizontal field in the
/// higher twelve bits, the vertical field in the lower twelve.
pub open spec fn packed_word(dx: int, dy: int) -> int {
    field12(dx) * 4096 + field12(dy)
}

/// Packs one signed axis value into its twelve-bit field.
fn pack_axis(v: i16) -> (r: u32)
    ensures
        r == field12(v as int),
{
    let w: u32 = #[verifier::truncate] (v as u32);
    let r: u32 = w & 0xFFF;
    proof {
        assert(w & 0xFFF == (v as int) % 4096) by (bit_vector)
            requires
                w == v as u32,
        ;
    }
    r
}

/// Reads one signed axis value back from its twelve-bit field.
fn unpack_axis(f: u32) -> (r: i16)
    requires
        f < 4096,
    ensures
        r as int == signed12(f as int),
{
    proof {
        vstd::arithmetic::div_mod::lemma_small_mod(f as nat, 4096);
    }
    if f >= 2048 {
        (f as i32 - 4096) as i16
    } else {
        f as i16
    }
}

impl PackedMouseDelta {
    /// Builds a record from its fields, packing both axis deltas into the
    /// shared word. The deltas are masked to twelve bits, never validated:
    /// a value outside -2048 .. 2047 keeps only its low twelve bits.
    pub fn new(sequence_number: u32, timestamp: u32, dx: i16, dy: i16) -> (r: Self)
        ensures
            r.sequence_number == sequence_number,
            r.timestamp == timestamp,
            r.data == packed_word(dx as int, dy as int),
    {
        let packed_dx: u32 = pack_axis(dx);
        let packed_dy: u32 = pack_axis(dy);
        proof {
            vstd::arithmetic::div_mod::lemma_mod_bound(dx as int, 4096);
            vstd::arithmetic::div_mod::lemma_mod_bound(dy as int, 4096);
            assert((packed_dx << 12u32) | packed_dy == packed_dx * 4096 + packed_dy)
                by (bit_vector)
                requires
                    packed_dx < 4096 && packed_dy < 4096,
            ;
        }
        Self { sequence_number, timestamp, data: (packed_dx << 12u32) | packed_dy }
    }

    /// Recovers the signed axis deltas from the packed word, sign-extending
    /// each twelve-bit field so that the full representable range
    /// -2048 .. 2047 round-trips exactly.
    pub fn unpack(&self) -> (r: (i16, i16))
        ensures
            r.0 as int == signed12(self.data as int / 4096),
            r.1 as int == signed12(self.data as int),
            -2048 <= r.0 <= 2047,
            -2048 <= r.1 <= 2047,
    {
        let dxf: u32 = (self.data >> 12u32) & 0xFFF;
        let dyf: u32 = self.data & 0xFFF;
        proof {
            let d: u32 = self.data;
            assert((d >> 12u32) & 0xFFF < 4096 && d & 0xFFF < 4096 && ((d >> 12u32) & 0xFFF)
                == (d as int / 4096) % 4096 && (d & 0xFFF) == (d as int) % 4096) by (bit_vector);
            vstd::arithmetic::div_mod::lemma_mod_twice(self.data as int / 4096, 4096);
            vstd::arithmetic::div_mod::lemma_mod_twice(self.data as int, 4096);
        }
        (unpack_axis(dxf), unpack_axis(dyf))
    }
}

/// Number of bytes in one record on the wire: three 32-bit words.
pub const RECORD_BYTES: usize = 12;

/// The four little-endian bytes of a 32-bit word.
pub open spec fn le_bytes(v: u32) -> Seq<u8> {
    seq![
        ((v as int) % 256) as u8,
        (((v as int) / 256) % 256) as u8,
        (((v as int) / 65536) % 256) as u8,
        (((v as int) / 16777216) % 256) as u8,
    ]
}

/// The 32-bit word read from four little-endian bytes.
pub open spec fn u32_of_le(b: Seq<u8>) -> int {
    b[0] + 256 * b[1] + 65536 * b[2] + 16777216 * b[3]
}

/// The exact wire image of a record: sequence number, timestamp, and packed
/// delta word, each as four little-endian bytes.
pub open spec fn wire_bytes(r: PackedMouseDelta) -> Seq<u8> {
    le_bytes(r.sequence_number) + le_bytes(r.timestamp) + le_bytes(r.data)
}

/// The record read back from a twelve-byte wire image.
pub open spec fn record_of_wire(b: Seq<u8>) -> PackedMouseDelta {
    PackedMouseDelta {
        sequence_number: u32_of_le(b.subrange(0, 4)) as u32,
        timestamp: u32_of_le(b.subrange(4, 8)) as u32,
        data: u32_of_le(b.subrange(8, 12)) as u32,
    }
}

/// Appends the four little-endian bytes of one word.
fn push_le_bytes(out: &mut Vec<u8>, v: u32)
    ensures
        final(out)@ == old(out)@ + le_bytes(v),
{
    proof {
        assert(v & 0xFF < 256 && (v >> 8u32) & 0xFF < 256 && (v >> 16u32) & 0xFF < 256 && (v
            >> 24u32) & 0xFF < 256 && v & 0xFF == (v as int) % 256 && (v >> 8u32) & 0xFF == ((
        v as int) / 256) % 256 && (v >> 16u32) & 0xFF == ((v as int) / 65536) % 256 && (v
            >> 24u32) & 0xFF == ((v as int) / 16777216) % 256) by (bit_vector);
    }
    let b0: u8 = (v & 0xFF) as u8;
    let b1: u8 = ((v >> 8u32) & 0xFF) as u8;
    let b2: u8 = ((v >> 16u32) & 0xFF) as u8;
    let b3: u8 = ((v >> 24u32) & 0xFF) as u8;
    out.push(b0);
    out.push(b1);
    out.push(b2);
    out.push(b3);
    proof {
        assert(out@ =~= old(out)@ + le_bytes(v));
    }
}

/// Reads one word from four little-endian bytes at the given offset.
fn read_le_u32(bytes: &[u8], off: usize) -> (r: u32)
    requires
        off + 4 <= bytes@.len(),
    ensures
        r == u32_of_le(bytes@.subrange(off as int, off as int + 4)),
{
    let b0: u8 = bytes[off];
    let b1: u8 = bytes[off + 1];
    let b2: u8 = bytes[off + 2];
    let b3: u8 = bytes[off + 3];
    proof {
        assert((b0 as u32) | ((b1 as u32) << 8u32) | ((b2 as u32) << 16u32) | ((b3 as u32)
            << 24u32) == b0 + 256 * b1 + 65536 * b2 + 16777216 * b3) by (bit_vector);
        assert(bytes@.subrange(off as int, off as int + 4)[0] == b0);
        assert(bytes@.subrange(off as int, off as int + 4)[1] == b1);
        assert(bytes@.subrange(off as int, off as int + 4)[2] == b2);
        assert(bytes@.subrange(off as int, off as int + 4)[3] == b3);
    }
    (b0 as u32) | ((b1 as u32) << 8u32) | ((b2 as u32) << 16u32) | ((b3 as u32) << 24u32)
}

impl PackedMouseDelta {
    /// Serializes the record to its fixed twelve-byte wire image. The output
    /// length never varies.
    pub fn to_bytes(&self) -> (r: Vec<u8>)
        ensures
            r@ == wire_bytes(*self),
            r@.len() == RECORD_BYTES,
    {
        let mut out: Vec<u8> = Vec::new();
        push_le_bytes(&mut out, self.sequence_number);
        push_le_bytes(&mut out, self.timestamp);
        push_le_bytes(&mut out, self.data);
        proof {
            assert(out@ =~= wire_bytes(*self));
        }
        out
    }

    /// Parses a datagram. A buffer of any length other than the fixed record
    /// size is invalid and yields no record at all; a buffer of exactly that
    /// length always yields the record its bytes spell.
    pub fn from_bytes(bytes: &[u8]) -> (r: Option<PackedMouseDelta>)
        ensures
            bytes@.len() == RECORD_BYTES ==> r == Some(record_of_wire(bytes@)),
            bytes@.len() != RECORD_BYTES ==> r is None,
    {
        if bytes.len() != RECORD_BYTES {
            return None;
        }
        let sequence_number: u32 = read_le_u32(bytes, 0);
        let timestamp: u32 = read_le_u32(bytes, 4);
        let data: u32 = read_le_u32(bytes, 8);
        Some(PackedMouseDelta { sequence_number, timestamp, data })
    }
}

/// Sign extension inverts the masking for every value already representable
/// in twelve bits.
pub proof fn lemma_signed12_field12(v: int)
    requires
        -2048 <= v <= 2047,
    ensures
        signed12(field12(v)) == v,
{
    vstd::arithmetic::div_mod::lemma_mod_twice(v, 4096);
    if v >= 0 {
        vstd::arithmetic::div_mod::lemma_small_mod(v as nat, 4096);
    } else {
        vstd::arithmetic::div_mod::lemma_fundamental_div_mod_converse(v, 4096, -1, v + 4096);
    }
}

/// Round trip at the packing level: every delta representable in twelve bits
/// is recovered exactly from the packed word, and the two fields of the word
/// never leak into one another.
pub proof fn lemma_pack_round_trip(dx: int, dy: int)
    requires
        -2048 <= dx <= 2047,
        -2048 <= dy <= 2047,
    ensures
        signed12(packed_word(dx, dy) / 4096) == dx,
        signed12(packed_word(dx, dy)) == dy,
        0 <= packed_word(dx, dy) < 0x1000000,
{
    vstd::arithmetic::div_mod::lemma_mod_bound(dx, 4096);
    vstd::arithmetic::div_mod::lemma_mod_bound(dy, 4096);
    vstd::arithmetic::div_mod::lemma_fundamental_div_mod_converse(
        packed_word(dx, dy),
        4096,
        field12(dx),
        field12(dy),
    );
    lemma_signed12_field12(dx);
    lemma_signed12_field12(dy);
    vstd::arithmetic::div_mod::lemma_mod_twice(dx, 4096);
    vstd::arithmetic::div_mod::lemma_mod_twice(dy, 4096);
}

/// The four little-endian bytes of a word decode back to the word.
pub proof fn lemma_le_round_trip(v: u32)
    ensures
        u32_of_le(le_bytes(v)) == v,
{
    vstd::arithmetic::div_mod::lemma_mod_bound(v as int, 256);
    vstd::arithmetic::div_mod::lemma_mod_bound((v as int) / 256, 256);
    vstd::arithmetic::div_mod::lemma_mod_bound((v as int) / 65536, 256);
    vstd::arithmetic::div_mod::lemma_mod_bound((v as int) / 16777216, 256);
    assert((v as int) % 256 + 256 * (((v as int) / 256) % 256) + 65536 * (((v as int) / 65536)
        % 256) + 16777216 * (((v as int) / 16777216) % 256) == v) by (bit_vector);
}

/// Round trip on the wire: every record's twelve-byte image decodes to the
/// record itself.
pub proof fn lemma_wire_round_trip(r: PackedMouseDelta)
    ensures
        wire_bytes(r).len() == RECORD_BYTES,
        record_of_wire(wire_bytes(r)) == r,
{
    lemma_le_round_trip(r.sequence_number);
    lemma_le_round_trip(r.timestamp);
    lemma_le_round_trip(r.data);
    assert(wire_bytes(r).subrange(0, 4) =~= le_bytes(r.sequence_number));
    assert(wire_bytes(r).subrange(4, 8) =~= le_bytes(r.timestamp));
    assert(wire_bytes(r).subrange(8, 12) =~= le_bytes(r.data));
}

/// Round trip end to end: for every delta representable in twelve bits, the
/// record that `new` builds, once written to the wire, read back, and
/// unpacked, reproduces the sequence number, the timestamp, and both deltas
/// exactly.
pub proof fn lemma_record_round_trip(sequence_number: u32, timestamp: u32, dx: i16, dy: i16)
    requires
        -2048 <= dx <= 2047,
        -2048 <= dy <= 2047,
    ensures
        ({
            let r = (PackedMouseDelta {
                sequence_number,
                timestamp,
                data: packed_word(dx as int, dy as int) as u32,
            });
            &&& r.data == packed_word(dx as int, dy as int)
            &&& record_of_wire(wire_bytes(r)) == r
            &&& signed12(r.data as int / 4096) == dx
            &&& signed12(r.data as int) == dy
        }),
{
    lemma_pack_round_trip(dx as int, dy as int);
    let r = (PackedMouseDelta {
        sequence_number,
        timestamp,
        data: packed_word(dx as int, dy as int) as u32,
    });
    lemma_wire_round_trip(r);
}

} // verus!
