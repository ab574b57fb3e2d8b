//! The message contract: a serializable message writes itself into a
//! [`SerializedBuffer`] by the same operation sequence in real and measuring
//! mode, which is what makes exact size estimation possible, and reads its
//! fields back in the same fixed order.

use crate::buffer::{write_outcome, BufferError, SerializedBuffer};
use crate::wire::{
    arr_payload_at, arr_read_ok, arr_total_at, encoded_byte_array, MAX_BYTE_ARRAY_LEN,
};
use vstd::prelude::*;

verus! {

/// A message that can be carried through the codec buffer.
///
/// `serialize_to_stream` must put down exactly `self.encoding()` whatever
/// the buffer's mode: real storage receives those bytes, a measuring buffer
/// tallies their count. That symmetry is what lets a measuring pass size a
/// real buffer exactly.
pub trait Packet: Sized {
    /// When the message is in a state fit for serialization.
    spec fn valid(&self) -> bool;

    /// The exact bytes the message serializes to.
    spec fn encoding(&self) -> Seq<u8>;

    /// Writes the message's fields, in their fixed order, into the stream.
    fn serialize_to_stream(&self, stream: &mut SerializedBuffer) -> (r: Result<(), BufferError>)
        requires
            old(stream)@.wf(),
            self.valid(),
        ensures
            final(stream)@.wf(),
            write_outcome(old(stream)@, final(stream)@, r is Ok, self.encoding()),
    ;

    /// Reads the message's fields back, in the same fixed order, reporting
    /// failure instead of aborting. The stream's bytes, limit, capacity and
    /// mode are untouched; only its cursor may advance.
    fn read_params(&mut self, stream: &mut SerializedBuffer) -> (r: Result<(), BufferError>)
        requires
            old(stream)@.wf(),
        ensures
            final(stream)@.wf(),
            final(stream)@.bytes == old(stream)@.bytes,
            final(stream)@.limit == old(stream)@.limit,
            final(stream)@.capacity == old(stream)@.capacity,
            final(stream)@.measuring == old(stream)@.measuring,
            old(stream)@.position <= final(stream)@.position,
    ;
}

/// A message that is one variable-length byte array: the simplest shape a
/// protocol message can take over this buffer.
pub struct RawPacket {
    /// The payload carried by the message.
    pub payload: Vec<u8>,
}

impl Packet for RawPacket {
    /// Fit for serialization while the payload length fits the wire
    /// format's 3-byte length field.
    open spec fn valid(&self) -> bool {
        self.payload@.len() <= MAX_BYTE_ARRAY_LEN
    }

    /// A raw packet encodes as the byte-array encoding of its payload.
    open spec fn encoding(&self) -> Seq<u8> {
        encoded_byte_array(self.payload@)
    }

    fn serialize_to_stream(&self, stream: &mut SerializedBuffer) -> (r: Result<(), BufferError>) {
        let len = self.payload.len();
        let r = stream.write_byte_array(self.payload.as_slice(), 0, len);
        proof {
            assert(self.payload@.subrange(0, len as int) =~= self.payload@);
        }
        r
    }

    fn read_params(&mut self, stream: &mut SerializedBuffer) -> (r: Result<(), BufferError>) {
        match stream.read_byte_array() {
            Ok(payload) => {
                self.payload = payload;
                Ok(())
            },
            Err(e) => Err(e),
        }
    }
}

impl RawPacket {
    /// After a successful read the payload is exactly the byte array at the
    /// stream's old cursor, and the cursor has consumed it whole.
    pub fn read_params_exact(&mut self, stream: &mut SerializedBuffer) -> (r: Result<
        (),
        BufferError,
    >)
        requires
            old(stream)@.wf(),
        ensures
            final(stream)@.wf(),
            !old(stream)@.measuring && arr_read_ok(
                old(stream)@.bytes,
                old(stream)@.position,
                old(stream)@.limit,
            ) ==> (r is Ok && final(self).payload@ == arr_payload_at(
                old(stream)@.bytes,
                old(stream)@.position as int,
            ) && final(stream)@.position == old(stream)@.position + arr_total_at(
                old(stream)@.bytes,
                old(stream)@.position as int,
            ) && final(stream)@.bytes == old(stream)@.bytes && final(stream)@.limit == old(
                stream,
            )@.limit),
            !(!old(stream)@.measuring && arr_read_ok(
                old(stream)@.bytes,
                old(stream)@.position,
                old(stream)@.limit,
            )) ==> r == Err::<(), BufferError>(BufferError::BufferUnderflow) && final(stream)@
                == old(stream)@ && *final(self) == *old(self),
    {
        match stream.read_byte_array() {
            Ok(payload) => {
                self.payload = payload;
                Ok(())
            },
            Err(e) => Err(e),
        }
    }
}

/// The exact number of bytes `packet` occupies once serialized, computed by
/// running its serialization against a fresh measuring buffer; no real
/// storage is touched.
pub fn get_object_size<T: Packet>(packet: &T) -> (r: usize)
    requires
        packet.valid(),
        packet.encoding().len() <= usize::MAX,
    ensures
        r == packet.encoding().len(),
{
    let mut sizer = SerializedBuffer::new(true);
    let outcome = packet.serialize_to_stream(&mut sizer);
    proof {
        assert(outcome is Ok);
    }
    sizer.capacity()
}

} // verus!
