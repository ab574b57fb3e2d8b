//! The message contract and the size estimator: a measuring pass sizes a
//! real buffer exactly, and a message read back equals the one written.

use packetbuf::buffer::SerializedBuffer;
use packetbuf::packet::{get_object_size, Packet, RawPacket};

#[test]
fn size_estimate_matches_real_serialization() {
    // Measuring/real symmetry: the estimated size equals the final position
    // after serializing into a real buffer of exactly that size.
    for n in [0usize, 1, 2, 253, 254, 300] {
        let p = RawPacket { payload: (0..n).map(|i| (i % 7) as u8).collect() };
        let size = get_object_size(&p);
        let mut real = SerializedBuffer::new_with_size(size);
        p.serialize_to_stream(&mut real).unwrap();
        assert_eq!(real.position(), size, "length {}", n);
    }
}

#[test]
fn raw_packet_round_trip() {
    let p = RawPacket { payload: vec![1, 2, 3, 4, 5] };
    let size = get_object_size(&p);
    assert_eq!(size, 8);
    let mut buf = SerializedBuffer::new_with_size(size);
    p.serialize_to_stream(&mut buf).unwrap();
    buf.flip();
    let mut back = RawPacket { payload: Vec::new() };
    back.read_params(&mut buf).unwrap();
    assert_eq!(back.payload, p.payload);
    assert_eq!(buf.position(), size);
}

#[test]
fn raw_packet_read_params_exact_round_trip() {
    let p = RawPacket { payload: vec![9, 9, 9] };
    let mut buf = SerializedBuffer::new_with_size(get_object_size(&p));
    p.serialize_to_stream(&mut buf).unwrap();
    buf.flip();
    let mut back = RawPacket { payload: Vec::new() };
    back.read_params_exact(&mut buf).unwrap();
    assert_eq!(back.payload, vec![9, 9, 9]);
}
