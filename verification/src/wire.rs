//! The wire format, as mathematics: little-endian byte encodings of the
//! fixed-width integers, the two boolean sentinels, and the length-prefixed,
//! 4-byte-aligned encoding of variable-length byte arrays.
//!
//! The executable buffer operations in [`crate::buffer`] state their
//! contracts over these functions, and the lemmas here prove the format's
//! round-trip and padding laws.

use vstd::prelude::*;

verus! {

/// The 32-bit pattern that encodes `true` on the wire.
pub const BOOL_TRUE_SENTINEL: u32 = 0xE4A64B31;

/// The 32-bit pattern that encodes `false` on the wire.
pub const BOOL_FALSE_SENTINEL: u32 = 0xF5D29C38;

/// Largest payload length the 3-byte long-form length header can carry.
pub const MAX_BYTE_ARRAY_LEN: usize = 0xFFFFFF;

/// Payload lengths up to this bound use the short (1-byte) length header.
pub const SHORT_HEADER_MAX_LEN: usize = 253;

/// First byte of a long-form (4-byte) length header.
pub const LONG_HEADER_MARKER: u8 = 254;

/// The four little-endian bytes of a 32-bit value.
pub open spec fn u32_le_bytes(v: u32) -> Seq<u8> {
    seq![
        (v & 0xff) as u8,
        ((v >> 8) & 0xff) as u8,
        ((v >> 16) & 0xff) as u8,
        ((v >> 24) & 0xff) as u8,
    ]
}

/// The 32-bit value read little-endian from four bytes.
pub open spec fn u32_from_le_bytes(b: Seq<u8>) -> u32
    recommends
        b.len() == 4,
{
    (b[0] as u32) | ((b[1] as u32) << 8) | ((b[2] as u32) << 16) | ((b[3] as u32) << 24)
}

/// The eight little-endian bytes of a 64-bit value.
pub open spec fn u64_le_bytes(v: u64) -> Seq<u8> {
    seq![
        (v & 0xff) as u8,
        ((v >> 8) & 0xff) as u8,
        ((v >> 16) & 0xff) as u8,
        ((v >> 24) & 0xff) as u8,
        ((v >> 32) & 0xff) as u8,
        ((v >> 40) & 0xff) as u8,
        ((v >> 48) & 0xff) as u8,
        ((v >> 56) & 0xff) as u8,
    ]
}

/// The 64-bit value read little-endian from eight bytes.
pub open spec fn u64_from_le_bytes(b: Seq<u8>) -> u64
    recommends
        b.len() == 8,
{
    (b[0] as u64) | ((b[1] as u64) << 8) | ((b[2] as u64) << 16) | ((b[3] as u64) << 24)
        | ((b[4] as u64) << 32) | ((b[5] as u64) << 40) | ((b[6] as u64) << 48) | ((b[7]
        as u64) << 56)
}

/// The three little-endian bytes of a value below 2^24 (the long-form
/// length field).
pub open spec fn u24_le_bytes(v: u32) -> Seq<u8>
    recommends
        v <= MAX_BYTE_ARRAY_LEN,
{
    seq![(v & 0xff) as u8, ((v >> 8) & 0xff) as u8, ((v >> 16) & 0xff) as u8]
}

/// The value read little-endian from three bytes; always below 2^24.
pub open spec fn u24_from_le_bytes(b: Seq<u8>) -> u32
    recommends
        b.len() == 3,
{
    (b[0] as u32) | ((b[1] as u32) << 8) | ((b[2] as u32) << 16)
}

/// The sentinel a boolean is encoded as.
pub open spec fn bool_sentinel(v: bool) -> u32 {
    if v {
        BOOL_TRUE_SENTINEL
    } else {
        BOOL_FALSE_SENTINEL
    }
}

/// The boolean a 32-bit value decodes to: `None` unless the value is one of
/// the two sentinels.
pub open spec fn decode_bool(u: u32) -> Option<bool> {
    if u == BOOL_TRUE_SENTINEL {
        Some(true)
    } else if u == BOOL_FALSE_SENTINEL {
        Some(false)
    } else {
        None
    }
}

/// Size of the length header for a payload of `n` bytes: one byte up to 253,
/// four bytes (marker plus 3-byte length) beyond.
pub open spec fn header_len(n: nat) -> nat {
    if n <= SHORT_HEADER_MAX_LEN {
        1
    } else {
        4
    }
}

/// The length header itself for a payload of `n` bytes.
pub open spec fn len_header(n: nat) -> Seq<u8>
    recommends
        n <= MAX_BYTE_ARRAY_LEN,
{
    if n <= SHORT_HEADER_MAX_LEN {
        seq![n as u8]
    } else {
        seq![LONG_HEADER_MARKER] + u24_le_bytes(n as u32)
    }
}

/// Zero bytes that pad `total` already-consumed bytes to the next multiple
/// of four.
pub open spec fn pad_len(total: nat) -> nat {
    ((4 - (total % 4)) % 4) as nat
}

/// `n` zero bytes.
pub open spec fn zero_bytes(n: nat) -> Seq<u8> {
    Seq::new(n, |i: int| 0u8)
}

/// The full wire encoding of a variable-length byte array: length header,
/// payload, then zero padding to a 4-byte boundary.
pub open spec fn encoded_byte_array(p: Seq<u8>) -> Seq<u8>
    recommends
        p.len() <= MAX_BYTE_ARRAY_LEN,
{
    len_header(p.len()) + p + zero_bytes(pad_len((header_len(p.len()) + p.len()) as nat))
}

/// Total bytes the encoding of an `n`-byte payload consumes.
pub open spec fn encoded_len(n: nat) -> nat {
    (header_len(n) + n + pad_len((header_len(n) + n) as nat)) as nat
}

/// Size of the length header that starts at `pos` in `bytes`: short unless
/// the first byte is a long-form marker.
pub open spec fn arr_header_len_at(bytes: Seq<u8>, pos: int) -> nat
    recommends
        0 <= pos < bytes.len(),
{
    if bytes[pos] <= SHORT_HEADER_MAX_LEN as u8 {
        1
    } else {
        4
    }
}

/// Payload length announced by the length header that starts at `pos`.
pub open spec fn arr_payload_len_at(bytes: Seq<u8>, pos: int) -> nat
    recommends
        0 <= pos,
        pos + 4 <= bytes.len() || (pos < bytes.len() && bytes[pos] <= SHORT_HEADER_MAX_LEN as u8),
{
    if bytes[pos] <= SHORT_HEADER_MAX_LEN as u8 {
        bytes[pos] as nat
    } else {
        u24_from_le_bytes(bytes.subrange(pos + 1, pos + 4)) as nat
    }
}

/// Total bytes (header, payload, padding) the byte array starting at `pos`
/// consumes.
pub open spec fn arr_total_at(bytes: Seq<u8>, pos: int) -> nat {
    let hl = arr_header_len_at(bytes, pos);
    let pl = arr_payload_len_at(bytes, pos);
    (hl + pl + pad_len((hl + pl) as nat)) as nat
}

/// Whether a whole byte array (header, payload and padding) lies between
/// `pos` and `limit` in `bytes`.
pub open spec fn arr_read_ok(bytes: Seq<u8>, pos: nat, limit: nat) -> bool {
    &&& pos + 1 <= limit
    &&& (bytes[pos as int] > SHORT_HEADER_MAX_LEN as u8 ==> pos + 4 <= limit)
    &&& pos + arr_total_at(bytes, pos as int) <= limit
}

/// The payload of the byte array starting at `pos`.
pub open spec fn arr_payload_at(bytes: Seq<u8>, pos: int) -> Seq<u8> {
    let hl = arr_header_len_at(bytes, pos);
    bytes.subrange(pos + hl, pos + hl + arr_payload_len_at(bytes, pos))
}

/// Parsing an encoded byte array out of any surrounding bytes restores the
/// payload and consumes exactly the encoded length: the round trip for
/// variable-length data, at every payload length the format can carry.
pub proof fn lemma_byte_array_round_trip(p: Seq<u8>, bytes: Seq<u8>, pos: nat, limit: nat)
    requires
        p.len() <= MAX_BYTE_ARRAY_LEN,
        pos + encoded_len(p.len()) <= limit,
        limit <= bytes.len(),
        bytes.subrange(pos as int, pos + encoded_len(p.len()) as int) == encoded_byte_array(p),
    ensures
        arr_read_ok(bytes, pos, limit),
        arr_header_len_at(bytes, pos as int) == header_len(p.len()),
        arr_payload_len_at(bytes, pos as int) == p.len(),
        arr_payload_at(bytes, pos as int) == p,
        arr_total_at(bytes, pos as int) == encoded_len(p.len()),
{
    let n = p.len();
    let enc = encoded_byte_array(p);
    lemma_encoded_byte_array_len(p);
    let sub = bytes.subrange(pos as int, pos + encoded_len(n) as int);
    assert(header_len(n) >= 1);
    assert(bytes[pos as int] == sub[0]);
    assert(sub[0] == len_header(n)[0]);
    if n <= SHORT_HEADER_MAX_LEN {
        assert(len_header(n)[0] == n as u8);
        assert(n as u8 <= SHORT_HEADER_MAX_LEN as u8);
        assert(arr_header_len_at(bytes, pos as int) == 1);
        assert(arr_payload_len_at(bytes, pos as int) == n);
        assert(arr_payload_at(bytes, pos as int) =~= p) by {
            assert forall|i: int| 0 <= i < n implies bytes[pos + 1 + i] == p[i] by {
                assert(bytes[pos + 1 + i] == sub[1 + i]);
                assert(sub[1 + i] == enc[1 + i]);
                assert(enc[1 + i] == p[i]);
            }
        }
    } else {
        assert(len_header(n)[0] == LONG_HEADER_MARKER);
        assert(arr_header_len_at(bytes, pos as int) == 4);
        assert(bytes.subrange(pos as int + 1, pos as int + 4) =~= u24_le_bytes(n as u32)) by {
            assert forall|i: int| 0 <= i < 3 implies bytes[pos + 1 + i] == #[trigger] u24_le_bytes(
                n as u32,
            )[i] by {
                assert(bytes[pos + 1 + i] == sub[1 + i]);
                assert(sub[1 + i] == enc[1 + i]);
                assert(enc[1 + i] == len_header(n)[1 + i]);
                assert(len_header(n)[1 + i] == u24_le_bytes(n as u32)[i]);
            }
        }
        lemma_u24_le_round_trip(n as u32);
        assert(arr_payload_len_at(bytes, pos as int) == n);
        assert(arr_payload_at(bytes, pos as int) =~= p) by {
            assert forall|i: int| 0 <= i < n implies bytes[pos + 4 + i] == p[i] by {
                assert(bytes[pos + 4 + i] == sub[4 + i]);
                assert(sub[4 + i] == enc[4 + i]);
                assert(enc[4 + i] == p[i]);
            }
        }
    }
}

/// Three bytes recombined little-endian always stay below 2^24.
pub proof fn lemma_u24_from_bound(b0: u8, b1: u8, b2: u8)
    ensures
        (b0 as u32) | ((b1 as u32) << 8) | ((b2 as u32) << 16) <= 0xFFFFFF,
{
    assert((b0 as u32) | ((b1 as u32) << 8) | ((b2 as u32) << 16) <= 0xFFFFFF) by (bit_vector);
}

/// Masking a 32-bit value to its low byte fits in a byte.
pub proof fn lemma_u32_byte_mask(x: u32)
    ensures
        x & 0xff <= 0xff,
{
    assert(x & 0xff <= 0xff) by (bit_vector);
}

/// Masking a 64-bit value to its low byte fits in a byte.
pub proof fn lemma_u64_byte_mask(x: u64)
    ensures
        x & 0xff <= 0xff,
{
    assert(x & 0xff <= 0xff) by (bit_vector);
}

/// A 32-bit value survives the trip through its signed reinterpretation and
/// back.
pub proof fn lemma_u32_cast_round_trip(v: u32)
    ensures
        (v as i32) as u32 == v,
{
    assert((v as i32) as u32 == v) by (bit_vector);
}

/// Reading a 32-bit value back from its little-endian bytes restores it.
pub proof fn lemma_u32_le_round_trip(v: u32)
    ensures
        u32_from_le_bytes(u32_le_bytes(v)) == v,
{
    let b0 = (v & 0xff) as u8;
    let b1 = ((v >> 8) & 0xff) as u8;
    let b2 = ((v >> 16) & 0xff) as u8;
    let b3 = ((v >> 24) & 0xff) as u8;
    assert((b0 as u32) | ((b1 as u32) << 8) | ((b2 as u32) << 16) | ((b3 as u32) << 24)
        == v) by (bit_vector)
        requires
            b0 == (v & 0xff) as u8,
            b1 == ((v >> 8) & 0xff) as u8,
            b2 == ((v >> 16) & 0xff) as u8,
            b3 == ((v >> 24) & 0xff) as u8,
    ;
}

/// Reading a 64-bit value back from its little-endian bytes restores it.
pub proof fn lemma_u64_le_round_trip(v: u64)
    ensures
        u64_from_le_bytes(u64_le_bytes(v)) == v,
{
    let b0 = (v & 0xff) as u8;
    let b1 = ((v >> 8) & 0xff) as u8;
    let b2 = ((v >> 16) & 0xff) as u8;
    let b3 = ((v >> 24) & 0xff) as u8;
    let b4 = ((v >> 32) & 0xff) as u8;
    let b5 = ((v >> 40) & 0xff) as u8;
    let b6 = ((v >> 48) & 0xff) as u8;
    let b7 = ((v >> 56) & 0xff) as u8;
    assert((b0 as u64) | ((b1 as u64) << 8) | ((b2 as u64) << 16) | ((b3 as u64) << 24)
        | ((b4 as u64) << 32) | ((b5 as u64) << 40) | ((b6 as u64) << 48) | ((b7 as u64) << 56)
        == v) by (bit_vector)
        requires
            b0 == (v & 0xff) as u8,
            b1 == ((v >> 8) & 0xff) as u8,
            b2 == ((v >> 16) & 0xff) as u8,
            b3 == ((v >> 24) & 0xff) as u8,
            b4 == ((v >> 32) & 0xff) as u8,
            b5 == ((v >> 40) & 0xff) as u8,
            b6 == ((v >> 48) & 0xff) as u8,
            b7 == ((v >> 56) & 0xff) as u8,
    ;
}

/// Reading a value below 2^24 back from its three little-endian bytes
/// restores it.
pub proof fn lemma_u24_le_round_trip(v: u32)
    requires
        v <= MAX_BYTE_ARRAY_LEN,
    ensures
        u24_from_le_bytes(u24_le_bytes(v)) == v,
{
    let b0 = (v & 0xff) as u8;
    let b1 = ((v >> 8) & 0xff) as u8;
    let b2 = ((v >> 16) & 0xff) as u8;
    assert((b0 as u32) | ((b1 as u32) << 8) | ((b2 as u32) << 16) == v) by (bit_vector)
        requires
            v <= 0xFFFFFF,
            b0 == (v & 0xff) as u8,
            b1 == ((v >> 8) & 0xff) as u8,
            b2 == ((v >> 16) & 0xff) as u8,
    ;
}

/// A signed 32-bit value survives the trip through its unsigned
/// reinterpretation and back.
pub proof fn lemma_i32_cast_round_trip(x: i32)
    ensures
        (x as u32) as i32 == x,
{
    assert((x as u32) as i32 == x) by (bit_vector);
}

/// A signed 64-bit value survives the trip through its unsigned
/// reinterpretation and back.
pub proof fn lemma_i64_cast_round_trip(x: i64)
    ensures
        (x as u64) as i64 == x,
{
    assert((x as u64) as i64 == x) by (bit_vector);
}

/// Decoding the sentinel a boolean was encoded as restores the boolean; the
/// two sentinels are distinct.
pub proof fn lemma_bool_round_trip(v: bool)
    ensures
        decode_bool(bool_sentinel(v)) == Some(v),
        u32_from_le_bytes(u32_le_bytes(bool_sentinel(v))) == bool_sentinel(v),
{
    lemma_u32_le_round_trip(bool_sentinel(v));
}

/// Padding is always below four bytes and completes its total to a multiple
/// of four.
pub proof fn lemma_pad_len(total: nat)
    ensures
        pad_len(total) < 4,
        (total + pad_len(total)) % 4 == 0,
{
}

/// For either header size and any payload length, header plus payload plus
/// padding is a multiple of four, with padding below four bytes.
pub proof fn lemma_padding_correct(n: nat)
    ensures
        pad_len((header_len(n) + n) as nat) < 4,
        encoded_len(n) % 4 == 0,
        encoded_len(n) == header_len(n) + n + pad_len((header_len(n) + n) as nat),
{
    lemma_pad_len((header_len(n) + n) as nat);
}

/// The encoding of a payload has exactly `encoded_len` bytes, and opens with
/// its length header.
pub proof fn lemma_encoded_byte_array_len(p: Seq<u8>)
    requires
        p.len() <= MAX_BYTE_ARRAY_LEN,
    ensures
        encoded_byte_array(p).len() == encoded_len(p.len()),
        encoded_byte_array(p).len() % 4 == 0,
{
    lemma_padding_correct(p.len());
}

} // verus!
