//! Byte-exact scenarios of the wire format, and the cursor state machine:
//! clear, flip, rewind, compact, skip, limits, cloning and error reporting.

use packetbuf::buffer::{BufferError, SerializedBuffer};

#[test]
fn write_i32_one_exact_bytes() {
    // Writing 32-bit integer 1 into a 4-byte real buffer gives 01 00 00 00;
    // reading it back yields 1 and leaves the cursor at 4.
    let mut b = SerializedBuffer::new_with_size(4);
    b.write_i32(1).unwrap();
    assert_eq!(b.buffer(), &[0x01, 0x00, 0x00, 0x00]);
    b.flip();
    assert_eq!(b.read_i32().unwrap(), 1);
    assert_eq!(b.position(), 4);
}

#[test]
fn write_string_ab_exact_bytes() {
    // "ab": 1-byte header 02, payload 61 62, one padding byte; 4 bytes in all.
    let mut b = SerializedBuffer::new_with_size(4);
    b.write_string(String::from("ab")).unwrap();
    assert_eq!(b.buffer(), &[0x02, 0x61, 0x62, 0x00]);
    assert_eq!(b.position(), 4);
    b.flip();
    assert_eq!(b.read_string().unwrap(), "ab");
    assert_eq!(b.position(), 4);
}

#[test]
fn write_byte_array_300_exact_header() {
    // 300 bytes: marker FE, then 300 little-endian in three bytes (2C 01 00);
    // (300 + 4) is already a multiple of 4, so no padding; 304 consumed.
    let payload = [0xABu8; 300];
    let mut b = SerializedBuffer::new_with_size(304);
    b.write_byte_array(&payload, 0, 300).unwrap();
    assert_eq!(&b.buffer()[..4], &[0xFE, 0x2C, 0x01, 0x00]);
    assert_eq!(b.position(), 304);
    b.flip();
    assert_eq!(b.read_byte_array().unwrap(), payload.to_vec());
    assert_eq!(b.position(), 304);
}

#[test]
fn bool_true_sentinel_and_invalid_value() {
    // true is a fixed 4-byte sentinel; reading it back yields true. Any
    // other 4-byte value is an InvalidBoolSentinel failure, not false.
    let mut b = SerializedBuffer::new_with_size(4);
    b.write_bool(true).unwrap();
    let sentinel = b.buffer().to_vec();
    assert_eq!(sentinel, vec![0x31, 0x4B, 0xA6, 0xE4]);
    b.flip();
    assert_eq!(b.read_bool().unwrap(), true);

    let mut f = SerializedBuffer::new_with_size(4);
    f.write_bool(false).unwrap();
    assert_eq!(f.buffer(), &[0x38, 0x9C, 0xD2, 0xF5]);
    f.flip();
    assert_eq!(f.read_bool().unwrap(), false);

    let mut other = SerializedBuffer::new_with_size(4);
    other.write_i32(12345).unwrap();
    other.flip();
    assert_eq!(other.read_bool(), Err(BufferError::InvalidBoolSentinel));
    assert_eq!(other.position(), 0);
}

#[test]
fn measuring_buffer_tallies_like_real_writes() {
    // The same write sequence as the "ab" scenario against a measuring
    // buffer accumulates capacity 4, matching the real buffer's position.
    let mut m = SerializedBuffer::new(true);
    m.write_string(String::from("ab")).unwrap();
    assert_eq!(m.capacity(), 4);
    assert_eq!(m.position(), 0);

    let mut m2 = SerializedBuffer::new(true);
    m2.write_i32(-7).unwrap();
    m2.write_bool(true).unwrap();
    m2.write_string(String::from("ab")).unwrap();
    m2.write_i64(99).unwrap();
    let mut r = SerializedBuffer::new_with_size(m2.capacity());
    r.write_i32(-7).unwrap();
    r.write_bool(true).unwrap();
    r.write_string(String::from("ab")).unwrap();
    r.write_i64(99).unwrap();
    assert_eq!(m2.capacity(), r.position());

    m2.clear_capacity();
    assert_eq!(m2.capacity(), 0);
}

#[test]
fn measuring_buffer_has_nothing_to_read() {
    // A measuring buffer holds no storage, so reading from one is an
    // underflow, never a crash.
    let mut m = SerializedBuffer::new(true);
    m.write_i32(1).unwrap();
    assert_eq!(m.read_i32(), Err(BufferError::BufferUnderflow));
    assert_eq!(m.read_byte_array(), Err(BufferError::BufferUnderflow));
}

#[test]
fn skip_in_both_modes() {
    let mut m = SerializedBuffer::new(true);
    m.skip(10).unwrap();
    assert_eq!(m.capacity(), 10);
    assert_eq!(m.position(), 0);

    // The measuring tally itself cannot silently wrap around.
    let mut w = SerializedBuffer::new(true);
    w.skip(usize::MAX).unwrap();
    assert_eq!(w.skip(1), Err(BufferError::BufferOverflow));
    assert_eq!(w.capacity(), usize::MAX);

    let mut b = SerializedBuffer::new_with_size(8);
    b.skip(5).unwrap();
    assert_eq!(b.position(), 5);
    assert_eq!(b.skip(4), Err(BufferError::BufferOverflow));
    assert_eq!(b.position(), 5);
}

#[test]
fn compact_moves_unread_region_to_front() {
    // After compact, the bytes previously in [position, limit) sit at
    // [0, limit - position), the cursor is at that length, and the limit is
    // back at the capacity.
    let mut b = SerializedBuffer::new_with_size(8);
    for i in 0..8 {
        b.write_byte(i as u8).unwrap();
    }
    b.flip();
    assert_eq!(b.read_byte().unwrap(), 0);
    assert_eq!(b.read_byte().unwrap(), 1);
    assert_eq!(b.read_byte().unwrap(), 2);
    // Unread region is [3, 8): bytes 3 4 5 6 7.
    b.compact();
    assert_eq!(&b.buffer()[..5], &[3, 4, 5, 6, 7]);
    assert_eq!(b.position(), 5);
    assert_eq!(b.limit(), 8);
}

#[test]
fn compact_without_unread_bytes_does_nothing() {
    let mut b = SerializedBuffer::new_with_size(4);
    b.write_i32(5).unwrap();
    let before = b.buffer().to_vec();
    b.compact();
    assert_eq!(b.buffer(), &before[..]);
    assert_eq!(b.position(), 4);
    assert_eq!(b.limit(), 4);
}

#[test]
fn clear_flip_rewind_cursor_rules() {
    let mut b = SerializedBuffer::new_with_size(8);
    b.write_i32(1).unwrap();
    b.flip();
    assert_eq!(b.limit(), 4);
    assert_eq!(b.position(), 0);
    b.rewind();
    assert_eq!(b.position(), 0);
    b.clear();
    assert_eq!(b.limit(), 8);
    assert_eq!(b.position(), 0);
}

#[test]
fn set_position_and_set_limit_guards() {
    let mut b = SerializedBuffer::new_with_size(8);
    b.set_position(5).unwrap();
    assert_eq!(b.position(), 5);
    assert_eq!(b.set_position(9), Err(BufferError::BufferOverflow));
    assert_eq!(b.position(), 5);

    assert_eq!(b.set_limit(9), Err(BufferError::CapacityExceeded));
    assert_eq!(b.limit(), 8);
    // Lowering the limit below the cursor clamps the cursor down to it.
    b.set_limit(3).unwrap();
    assert_eq!(b.limit(), 3);
    assert_eq!(b.position(), 3);
}

#[test]
fn remaining_and_has_remaining() {
    let mut b = SerializedBuffer::new_with_size(8);
    assert_eq!(b.remaining(), 8);
    assert!(b.has_remaining());
    b.write_i32(1).unwrap();
    assert_eq!(b.remaining(), 4);
    b.write_i32(2).unwrap();
    assert_eq!(b.remaining(), 0);
    assert!(!b.has_remaining());
    b.reuse();
}

#[test]
fn new_with_buffer_wraps_copy() {
    let raw = [1u8, 0, 0, 0, 9, 9, 9, 9];
    let mut b = SerializedBuffer::new_with_buffer(&raw, 8);
    assert_eq!(b.limit(), 8);
    assert_eq!(b.capacity(), 8);
    assert_eq!(b.read_i32().unwrap(), 1);
}

#[test]
fn clone_is_independent() {
    // Mutating a clone never affects the original, and vice versa.
    let mut a = SerializedBuffer::new_with_size(4);
    a.write_byte(1).unwrap();
    let mut c = a.clone();
    assert_eq!(c.buffer(), a.buffer());
    assert_eq!(c.position(), a.position());
    c.write_byte(2).unwrap();
    assert_eq!(a.position(), 1);
    assert_eq!(a.buffer()[1], 0);
    a.write_byte(3).unwrap();
    assert_eq!(c.buffer()[1], 2);
    assert_eq!(c.position(), 2);
}

#[test]
fn overflow_and_underflow_errors() {
    let mut b = SerializedBuffer::new_with_size(3);
    assert_eq!(b.write_i32(1), Err(BufferError::BufferOverflow));
    assert_eq!(b.position(), 0);
    assert_eq!(b.write_i64(1), Err(BufferError::BufferOverflow));
    assert_eq!(b.write_bool(true), Err(BufferError::BufferOverflow));
    assert_eq!(b.write_bytes(&[1, 2, 3, 4], 4), Err(BufferError::BufferOverflow));
    // A composite write fails as a unit: nothing of the encoding lands.
    assert_eq!(b.write_byte_array(&[1, 2, 3], 0, 3), Err(BufferError::BufferOverflow));
    assert_eq!(b.buffer(), &[0, 0, 0]);
    assert_eq!(b.position(), 0);

    let mut e = SerializedBuffer::new_with_size(2);
    e.flip();
    assert_eq!(e.read_i32(), Err(BufferError::BufferUnderflow));
    assert_eq!(e.read_i64(), Err(BufferError::BufferUnderflow));
    assert_eq!(e.read_byte_array(), Err(BufferError::BufferUnderflow));
    assert_eq!(e.read_string(), Err(BufferError::BufferUnderflow));
    assert_eq!(e.read_bool(), Err(BufferError::BufferUnderflow));
    assert_eq!(e.position(), 0);
}

#[test]
fn truncated_byte_array_is_underflow() {
    // A header announcing more payload than the limit holds must fail.
    let mut b = SerializedBuffer::new_with_size(4);
    b.write_byte(10).unwrap();
    b.write_byte(1).unwrap();
    b.flip();
    assert_eq!(b.read_byte_array(), Err(BufferError::BufferUnderflow));
    assert_eq!(b.position(), 0);
}

#[test]
fn write_bytes_offset_and_bulk_buffer_copy() {
    let src_data = [9u8, 8, 7, 6, 5];
    let mut b = SerializedBuffer::new_with_size(3);
    b.write_bytes_offset(&src_data, 1, 3).unwrap();
    assert_eq!(b.buffer(), &[8, 7, 6]);

    // Writing another buffer's unread region consumes the source.
    let mut src = SerializedBuffer::new_with_size(4);
    src.write_i32(77).unwrap();
    src.flip();
    let mut dst = SerializedBuffer::new_with_size(4);
    dst.write_bytes_serialized_buffer(&mut src).unwrap();
    assert_eq!(src.position(), src.limit());
    assert_eq!(dst.position(), 4);
    dst.flip();
    assert_eq!(dst.read_i32().unwrap(), 77);

    // In measuring mode the same bulk write only tallies; the source stays.
    let mut src2 = SerializedBuffer::new_with_size(4);
    src2.write_i32(5).unwrap();
    src2.flip();
    let mut m = SerializedBuffer::new(true);
    m.write_bytes_serialized_buffer(&mut src2).unwrap();
    assert_eq!(m.capacity(), 4);
    assert_eq!(src2.position(), 0);
}

#[test]
fn write_byte_array_serialized_buffer_encodes_source() {
    let mut src = SerializedBuffer::new_with_size(2);
    src.write_byte(0x61).unwrap();
    src.write_byte(0x62).unwrap();
    src.flip();
    let mut dst = SerializedBuffer::new_with_size(4);
    dst.write_byte_array_serialized_buffer(&mut src).unwrap();
    assert_eq!(dst.buffer(), &[0x02, 0x61, 0x62, 0x00]);
    assert_eq!(src.position(), 0);
}
