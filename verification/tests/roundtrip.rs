//! Round trips through a real buffer: every primitive written and read back
//! unchanged, byte arrays and strings at the boundary lengths of the header
//! rule.

use packetbuf::buffer::{BufferError, SerializedBuffer};

#[test]
fn i32_round_trip() {
    for &x in &[0i32, 1, -1, 42, i32::MIN, i32::MAX, -123456789] {
        let mut b = SerializedBuffer::new_with_size(4);
        b.write_i32(x).unwrap();
        assert_eq!(b.position(), 4);
        b.flip();
        assert_eq!(b.read_i32().unwrap(), x);
        assert_eq!(b.position(), 4);
    }
}

#[test]
fn i64_round_trip() {
    for &x in &[0i64, 1, -1, i64::MIN, i64::MAX, -9876543210] {
        let mut b = SerializedBuffer::new_with_size(8);
        b.write_i64(x).unwrap();
        b.flip();
        assert_eq!(b.read_i64().unwrap(), x);
    }
}

#[test]
fn u32_u64_round_trip() {
    let mut b = SerializedBuffer::new_with_size(12);
    b.write_i32(u32::MAX as i32).unwrap();
    b.write_i64(u64::MAX as i64).unwrap();
    b.flip();
    assert_eq!(b.read_u32().unwrap(), u32::MAX);
    assert_eq!(b.read_u64().unwrap(), u64::MAX);
}

#[test]
fn byte_round_trip() {
    for &x in &[0u8, 1, 127, 255] {
        let mut b = SerializedBuffer::new_with_size(1);
        b.write_byte(x).unwrap();
        b.flip();
        assert_eq!(b.read_byte().unwrap(), x);
    }
}

#[test]
fn bool_round_trip() {
    for &x in &[true, false] {
        let mut b = SerializedBuffer::new_with_size(4);
        b.write_bool(x).unwrap();
        assert_eq!(b.position(), 4);
        b.flip();
        assert_eq!(b.read_bool().unwrap(), x);
    }
}

#[test]
fn f64_bits_round_trip() {
    // The format carries a 64-bit float as the raw bit pattern of the value,
    // little-endian; the bits travel through the 64-bit integer codec.
    for &x in &[0.0f64, -1.5, 3.14159265358979, f64::MAX, f64::MIN_POSITIVE] {
        let mut b = SerializedBuffer::new_with_size(8);
        b.write_i64(x.to_bits() as i64).unwrap();
        b.flip();
        let back = f64::from_bits(b.read_i64().unwrap() as u64);
        assert_eq!(back, x);
    }
}

fn byte_array_round_trip_of_len(n: usize) {
    let payload: Vec<u8> = (0..n).map(|i| (i % 251) as u8).collect();
    let header = if n <= 253 { 1 } else { 4 };
    let total = {
        let t = header + n;
        t + ((4 - (t % 4)) % 4)
    };
    let mut b = SerializedBuffer::new_with_size(total);
    b.write_byte_array(&payload, 0, n).unwrap();
    assert_eq!(b.position(), total, "total consumed for length {}", n);
    assert_eq!(total % 4, 0);
    b.flip();
    let back = b.read_byte_array().unwrap();
    assert_eq!(back, payload, "payload of length {}", n);
    assert_eq!(b.position(), total);
}

#[test]
fn byte_array_boundary_lengths() {
    for &n in &[0usize, 1, 2, 3, 4, 252, 253, 254, 255, 256] {
        byte_array_round_trip_of_len(n);
    }
}

#[test]
fn byte_array_max_three_byte_length() {
    byte_array_round_trip_of_len(16_777_215);
}

#[test]
fn byte_array_header_widths() {
    // Up to 253 bytes the header is one byte holding the length itself.
    let mut b = SerializedBuffer::new_with_size(256);
    b.write_byte_array(&[7u8; 253], 0, 253).unwrap();
    assert_eq!(b.buffer()[0], 253);
    assert_eq!(b.position(), 256);

    // From 254 bytes on the header is the marker 254 plus a 3-byte length.
    let mut b = SerializedBuffer::new_with_size(260);
    b.write_byte_array(&[7u8; 254], 0, 254).unwrap();
    assert_eq!(b.buffer()[0], 254);
    assert_eq!(b.buffer()[1], 254);
    assert_eq!(b.buffer()[2], 0);
    assert_eq!(b.buffer()[3], 0);
    assert_eq!(b.position(), 260);
}

#[test]
fn string_round_trip() {
    for s in ["", "a", "ab", "hello world", "héllo wörld ✓", "日本語のテキスト"] {
        let n = s.len();
        let header = if n <= 253 { 1 } else { 4 };
        let total = {
            let t = header + n;
            t + ((4 - (t % 4)) % 4)
        };
        let mut b = SerializedBuffer::new_with_size(total);
        b.write_string(String::from(s)).unwrap();
        assert_eq!(b.position(), total);
        b.flip();
        assert_eq!(b.read_string().unwrap(), s);
    }
}

#[test]
fn several_values_in_sequence() {
    let mut b = SerializedBuffer::new_with_size(32);
    b.write_i32(-7).unwrap();
    b.write_bool(true).unwrap();
    b.write_string(String::from("ab")).unwrap();
    b.write_i64(1 << 40).unwrap();
    b.flip();
    assert_eq!(b.read_i32().unwrap(), -7);
    assert_eq!(b.read_bool().unwrap(), true);
    assert_eq!(b.read_string().unwrap(), "ab");
    assert_eq!(b.read_i64().unwrap(), 1 << 40);
    assert_eq!(b.remaining(), 0);
}

#[test]
fn read_string_rejects_invalid_utf8() {
    // A byte array whose payload is not valid UTF-8 reads fine as bytes but
    // fails as a string with InvalidText, leaving the cursor in place.
    let mut b = SerializedBuffer::new_with_size(4);
    b.write_byte_array(&[0xFF, 0xFE], 0, 2).unwrap();
    b.flip();
    let pos = b.position();
    assert_eq!(b.read_string(), Err(BufferError::InvalidText));
    assert_eq!(b.position(), pos);
    // The same bytes are still readable as a raw byte array.
    assert_eq!(b.read_byte_array().unwrap(), vec![0xFF, 0xFE]);
}
