//! The codec buffer: a byte container with a cursor (`position`), a
//! read/write boundary (`limit`) and an allocated size (`capacity`), either
//! backed by real storage or in a measuring mode that only tallies how many
//! bytes the same writes would consume.
//!
//! Every operation reports failure through [`BufferError`] instead of
//! aborting, and a composite write that does not fit fails as a unit,
//! leaving the buffer unchanged.

use crate::wire::{
    arr_header_len_at, arr_payload_at, arr_payload_len_at, arr_read_ok, arr_total_at,
    bool_sentinel, decode_bool, encoded_byte_array, header_len, len_header,
    lemma_u24_from_bound, lemma_u32_byte_mask, lemma_u32_cast_round_trip, lemma_u64_byte_mask,
    pad_len, u32_from_le_bytes, u32_le_bytes, u64_from_le_bytes, u64_le_bytes, zero_bytes,
    BOOL_FALSE_SENTINEL, BOOL_TRUE_SENTINEL, LONG_HEADER_MARKER, MAX_BYTE_ARRAY_LEN,
    SHORT_HEADER_MAX_LEN,
};
use vstd::utf8::{decode_utf8, encode_utf8, valid_utf8};
use vstd::pervasive::VecAdditionalExecFns;
use vstd::prelude::*;

verus! {

/// Why a buffer operation failed.
#[derive(Clone, Copy, Debug, PartialEq, Eq, Structural)]
pub enum BufferError {
    /// A write would advance the position past the limit.
    BufferOverflow,
    /// A read would advance the position past the limit.
    BufferUnderflow,
    /// A boolean read met a 32-bit value that is neither sentinel.
    InvalidBoolSentinel,
    /// A string read's payload is not valid UTF-8.
    InvalidText,
    /// A requested limit is greater than the capacity.
    CapacityExceeded,
}

/// The mathematical state of a [`SerializedBuffer`]: its bytes, cursor,
/// boundary, capacity and mode.
#[verifier::ext_equal]
pub struct BufView {
    /// The stored bytes (empty in measuring mode).
    pub bytes: Seq<u8>,
    /// Cursor: next byte to read or write.
    pub position: nat,
    /// Exclusive upper bound for reads and writes.
    pub limit: nat,
    /// Allocated size, or the running tally in measuring mode.
    pub capacity: nat,
    /// Whether the buffer only measures instead of storing.
    pub measuring: bool,
}

impl BufView {
    /// The buffer's invariant: the cursor never passes the limit; in real
    /// mode the limit stays within the capacity and the capacity within the
    /// storage, while a measuring buffer holds no storage at all.
    pub open spec fn wf(self) -> bool {
        &&& self.position <= self.limit
        &&& if self.measuring {
            self.bytes.len() == 0
        } else {
            self.limit <= self.capacity && self.capacity <= self.bytes.len()
        }
    }
}

/// `s` with the bytes from `pos` on replaced by `patch` (everything before
/// `pos` and after `pos + patch.len()` kept).
pub open spec fn splice_at(s: Seq<u8>, pos: nat, patch: Seq<u8>) -> Seq<u8>
    recommends
        pos + patch.len() <= s.len(),
{
    s.subrange(0, pos as int) + patch + s.subrange(pos + patch.len() as int, s.len() as int)
}

/// A real-mode write of `patch`: the bytes at the cursor are replaced by
/// `patch`, the cursor advances past it, and nothing else changes.
pub open spec fn wrote(pre: BufView, post: BufView, patch: Seq<u8>) -> bool {
    &&& post.bytes == splice_at(pre.bytes, pre.position, patch)
    &&& post.position == pre.position + patch.len()
    &&& post.limit == pre.limit
    &&& post.capacity == pre.capacity
    &&& post.measuring == pre.measuring
}

/// A measuring-mode write of `n` bytes: only the capacity tally grows.
pub open spec fn measured(pre: BufView, post: BufView, n: nat) -> bool {
    &&& post.bytes == pre.bytes
    &&& post.position == pre.position
    &&& post.limit == pre.limit
    &&& post.capacity == pre.capacity + n
    &&& post.measuring == pre.measuring
}

/// What any write of `patch` does, in either mode: in measuring mode the
/// tally grows by the patch's length (unless that tally would not fit in a
/// machine word); in real mode the patch lands at the cursor if it fits
/// below the limit. A write that does not fit changes nothing.
pub open spec fn write_outcome(pre: BufView, post: BufView, ok: bool, patch: Seq<u8>) -> bool {
    if pre.measuring {
        if pre.capacity + patch.len() <= usize::MAX {
            ok && measured(pre, post, patch.len())
        } else {
            !ok && post == pre
        }
    } else {
        if pre.position + patch.len() <= pre.limit {
            ok && wrote(pre, post, patch)
        } else {
            !ok && post == pre
        }
    }
}

/// Whether `n` bytes can be read at the cursor: real mode, with the cursor
/// at least `n` bytes below the limit. A measuring buffer holds no bytes, so
/// nothing can be read from it.
pub open spec fn can_read(v: BufView, n: nat) -> bool {
    !v.measuring && v.position + n <= v.limit
}

/// A read advanced the cursor by `n` bytes and changed nothing else.
pub open spec fn read_advanced(pre: BufView, post: BufView, n: nat) -> bool {
    &&& post.bytes == pre.bytes
    &&& post.position == pre.position + n
    &&& post.limit == pre.limit
    &&& post.capacity == pre.capacity
    &&& post.measuring == pre.measuring
}

/// The codec buffer.
pub struct SerializedBuffer {
    buffer: Vec<u8>,
    position: usize,
    limit: usize,
    capacity: usize,
    calculated_size_only: bool,
}

impl View for SerializedBuffer {
    type V = BufView;

    closed spec fn view(&self) -> BufView {
        BufView {
            bytes: self.buffer@,
            position: self.position as nat,
            limit: self.limit as nat,
            capacity: self.capacity as nat,
            measuring: self.calculated_size_only,
        }
    }
}

impl SerializedBuffer {
    /// A real buffer over `size` zeroed bytes, ready for writing.
    pub fn new_with_size(size: usize) -> (r: SerializedBuffer)
        ensures
            r@.wf(),
            r@.bytes == zero_bytes(size as nat),
            r@.position == 0,
            r@.limit == size,
            r@.capacity == size,
            !r@.measuring,
    {
        let mut storage: Vec<u8> = Vec::new();
        let mut i: usize = 0;
        while i < size
            invariant
                i <= size,
                storage@.len() == i,
                storage@ =~= zero_bytes(i as nat),
            decreases size - i,
        {
            storage.push(0u8);
            i = i + 1;
        }
        proof {
            assert(storage@ =~= zero_bytes(size as nat));
        }
        SerializedBuffer {
            buffer: storage,
            position: 0,
            limit: size,
            capacity: size,
            calculated_size_only: false,
        }
    }

    /// An empty buffer: a measuring one if `calculate` is set, else a real
    /// buffer with no storage.
    pub fn new(calculate: bool) -> (r: SerializedBuffer)
        ensures
            r@.wf(),
            r@.bytes == Seq::<u8>::empty(),
            r@.position == 0,
            r@.limit == 0,
            r@.capacity == 0,
            r@.measuring == calculate,
    {
        let sb = SerializedBuffer {
            buffer: Vec::new(),
            position: 0,
            limit: 0,
            capacity: 0,
            calculated_size_only: calculate,
        };
        proof {
            assert(sb@.bytes =~= Seq::<u8>::empty());
        }
        sb
    }

    /// A real buffer over a copy of `buff`, reading and writing the first
    /// `length` bytes.
    pub fn new_with_buffer(buff: &[u8], length: usize) -> (r: SerializedBuffer)
        requires
            length <= buff@.len(),
        ensures
            r@.wf(),
            r@.bytes == buff@,
            r@.position == 0,
            r@.limit == length,
            r@.capacity == length,
            !r@.measuring,
    {
        let mut storage: Vec<u8> = Vec::new();
        let mut i: usize = 0;
        let n = buff.len();
        while i < n
            invariant
                i <= n,
                n == buff@.len(),
                storage@ =~= buff@.subrange(0, i as int),
            decreases n - i,
        {
            storage.push(buff[i]);
            i = i + 1;
        }
        proof {
            assert(storage@ =~= buff@);
        }
        SerializedBuffer {
            buffer: storage,
            position: 0,
            limit: length,
            capacity: length,
            calculated_size_only: false,
        }
    }

    /// The cursor.
    pub fn position(&self) -> (r: usize)
        ensures
            r == self@.position,
    {
        self.position
    }

    /// The allocated size (real mode) or the accumulated tally (measuring
    /// mode).
    pub fn capacity(&self) -> (r: usize)
        ensures
            r == self@.capacity,
    {
        self.capacity
    }

    /// The read/write boundary.
    pub fn limit(&self) -> (r: usize)
        ensures
            r == self@.limit,
    {
        self.limit
    }

    /// The stored bytes.
    pub fn buffer(&self) -> (r: &[u8])
        ensures
            r@ == self@.bytes,
    {
        self.buffer.as_slice()
    }

    /// How many bytes remain between the cursor and the limit.
    pub fn remaining(&self) -> (r: usize)
        requires
            self@.wf(),
        ensures
            r == self@.limit - self@.position,
    {
        self.limit - self.position
    }

    /// Whether any bytes remain between the cursor and the limit.
    pub fn has_remaining(&self) -> (r: bool)
        ensures
            r == (self@.position < self@.limit),
    {
        self.position < self.limit
    }

    /// Moves the cursor to `pos`; refused if `pos` lies past the limit.
    pub fn set_position(&mut self, pos: usize) -> (r: Result<(), BufferError>)
        requires
            old(self)@.wf(),
        ensures
            final(self)@.wf(),
            pos <= old(self)@.limit ==> r == Ok::<(), BufferError>(()) && final(self)@ == (BufView {
                position: pos as nat,
                ..old(self)@
            }),
            pos > old(self)@.limit ==> r == Err::<(), BufferError>(BufferError::BufferOverflow)
                && final(self)@ == old(self)@,
    {
        if pos > self.limit {
            return Err(BufferError::BufferOverflow);
        }
        self.position = pos;
        Ok(())
    }

    /// Sets the limit; refused if it exceeds the capacity. A cursor past the
    /// new limit is clamped down to it.
    pub fn set_limit(&mut self, limit: usize) -> (r: Result<(), BufferError>)
        requires
            old(self)@.wf(),
        ensures
            final(self)@.wf(),
            limit <= old(self)@.capacity ==> r == Ok::<(), BufferError>(()) && final(self)@ == (
            BufView {
                limit: limit as nat,
                position: if old(self)@.position > limit {
                    limit as nat
                } else {
                    old(self)@.position
                },
                ..old(self)@
            }),
            limit > old(self)@.capacity ==> r == Err::<(), BufferError>(
                BufferError::CapacityExceeded,
            ) && final(self)@ == old(self)@,
    {
        if limit > self.capacity {
            return Err(BufferError::CapacityExceeded);
        }
        if self.position > limit {
            self.position = limit;
        }
        self.limit = limit;
        Ok(())
    }

    /// Prepares a just-written buffer for reading: the limit moves down to
    /// the cursor and the cursor returns to the start.
    pub fn flip(&mut self)
        requires
            old(self)@.wf(),
        ensures
            final(self)@.wf(),
            final(self)@ == (BufView {
                limit: old(self)@.position,
                position: 0,
                ..old(self)@
            }),
    {
        self.limit = self.position;
        self.position = 0;
    }

    /// Resets for fresh writing: the limit returns to the capacity and the
    /// cursor to the start. In measuring mode the storage-free state is
    /// untouched apart from the cursor.
    pub fn clear(&mut self)
        requires
            old(self)@.wf(),
        ensures
            final(self)@.wf(),
            final(self)@ == (BufView {
                limit: old(self)@.capacity,
                position: 0,
                ..old(self)@
            }),
    {
        self.limit = self.capacity;
        self.position = 0;
    }

    /// Returns the cursor to the start; limit and bytes stay.
    pub fn rewind(&mut self)
        requires
            old(self)@.wf(),
        ensures
            final(self)@.wf(),
            final(self)@ == (BufView { position: 0, ..old(self)@ }),
    {
        self.position = 0;
    }

    /// In measuring mode, resets the accumulated tally to zero; in real mode
    /// does nothing.
    pub fn clear_capacity(&mut self)
        requires
            old(self)@.wf(),
        ensures
            final(self)@.wf(),
            old(self)@.measuring ==> final(self)@ == (BufView { capacity: 0, ..old(self)@ }),
            !old(self)@.measuring ==> final(self)@ == old(self)@,
    {
        if !self.calculated_size_only {
            return ;
        }
        self.capacity = 0;
    }

    /// Declares the buffer free for reuse; holds no state of its own.
    pub fn reuse(&self) {
    }

    /// Advances the cursor by `len` bytes (real mode) or tallies `len` more
    /// bytes (measuring mode); a skip past the limit is refused.
    pub fn skip(&mut self, len: usize) -> (r: Result<(), BufferError>)
        requires
            old(self)@.wf(),
        ensures
            final(self)@.wf(),
            old(self)@.measuring ==> {
                if old(self)@.capacity + len <= usize::MAX {
                    r == Ok::<(), BufferError>(()) && measured(old(self)@, final(self)@, len as nat)
                } else {
                    r == Err::<(), BufferError>(BufferError::BufferOverflow) && final(self)@ == old(
                        self,
                    )@
                }
            },
            !old(self)@.measuring ==> {
                if old(self)@.position + len <= old(self)@.limit {
                    r == Ok::<(), BufferError>(()) && read_advanced(
                        old(self)@,
                        final(self)@,
                        len as nat,
                    )
                } else {
                    r == Err::<(), BufferError>(BufferError::BufferOverflow) && final(self)@ == old(
                        self,
                    )@
                }
            },
    {
        if self.calculated_size_only {
            if self.capacity > usize::MAX - len {
                return Err(BufferError::BufferOverflow);
            }
            self.capacity = self.capacity + len;
            Ok(())
        } else {
            if self.limit - self.position < len {
                return Err(BufferError::BufferOverflow);
            }
            self.position = self.position + len;
            Ok(())
        }
    }

    /// Writes one raw byte at the cursor.
    pub fn write_byte(&mut self, i: u8) -> (r: Result<(), BufferError>)
        requires
            old(self)@.wf(),
        ensures
            final(self)@.wf(),
            write_outcome(old(self)@, final(self)@, r is Ok, seq![i]),
            r is Err ==> r == Err::<(), BufferError>(BufferError::BufferOverflow),
    {
        if self.calculated_size_only {
            if self.capacity > usize::MAX - 1 {
                return Err(BufferError::BufferOverflow);
            }
            self.capacity = self.capacity + 1;
            Ok(())
        } else {
            if self.limit - self.position < 1 {
                return Err(BufferError::BufferOverflow);
            }
            let pos = self.position;
            self.buffer.set(pos, i);
            self.position = pos + 1;
            proof {
                assert(final(self)@.bytes =~= splice_at(
                    old(self)@.bytes,
                    old(self)@.position,
                    seq![i],
                ));
            }
            Ok(())
        }
    }

    /// Writes a 32-bit integer, little-endian.
    pub fn write_i32(&mut self, i: i32) -> (r: Result<(), BufferError>)
        requires
            old(self)@.wf(),
        ensures
            final(self)@.wf(),
            write_outcome(old(self)@, final(self)@, r is Ok, u32_le_bytes(i as u32)),
            r is Err ==> r == Err::<(), BufferError>(BufferError::BufferOverflow),
    {
        let v = i as u32;
        if self.calculated_size_only {
            if self.capacity > usize::MAX - 4 {
                return Err(BufferError::BufferOverflow);
            }
            self.capacity = self.capacity + 4;
            Ok(())
        } else {
            if self.limit - self.position < 4 {
                return Err(BufferError::BufferOverflow);
            }
            proof {
                lemma_u32_byte_mask(v);
                lemma_u32_byte_mask(v >> 8);
                lemma_u32_byte_mask(v >> 16);
                lemma_u32_byte_mask(v >> 24);
            }
            let pos = self.position;
            self.buffer.set(pos, (v & 0xff) as u8);
            self.buffer.set(pos + 1, ((v >> 8) & 0xff) as u8);
            self.buffer.set(pos + 2, ((v >> 16) & 0xff) as u8);
            self.buffer.set(pos + 3, ((v >> 24) & 0xff) as u8);
            self.position = pos + 4;
            proof {
                assert(final(self)@.bytes =~= splice_at(
                    old(self)@.bytes,
                    old(self)@.position,
                    u32_le_bytes(v),
                ));
            }
            Ok(())
        }
    }

    /// Writes a 64-bit integer, little-endian.
    pub fn write_i64(&mut self, i: i64) -> (r: Result<(), BufferError>)
        requires
            old(self)@.wf(),
        ensures
            final(self)@.wf(),
            write_outcome(old(self)@, final(self)@, r is Ok, u64_le_bytes(i as u64)),
            r is Err ==> r == Err::<(), BufferError>(BufferError::BufferOverflow),
    {
        let v = i as u64;
        if self.calculated_size_only {
            if self.capacity > usize::MAX - 8 {
                return Err(BufferError::BufferOverflow);
            }
            self.capacity = self.capacity + 8;
            Ok(())
        } else {
            if self.limit - self.position < 8 {
                return Err(BufferError::BufferOverflow);
            }
            proof {
                lemma_u64_byte_mask(v);
                lemma_u64_byte_mask(v >> 8);
                lemma_u64_byte_mask(v >> 16);
                lemma_u64_byte_mask(v >> 24);
                lemma_u64_byte_mask(v >> 32);
                lemma_u64_byte_mask(v >> 40);
                lemma_u64_byte_mask(v >> 48);
                lemma_u64_byte_mask(v >> 56);
            }
            let pos = self.position;
            self.buffer.set(pos, (v & 0xff) as u8);
            self.buffer.set(pos + 1, ((v >> 8) & 0xff) as u8);
            self.buffer.set(pos + 2, ((v >> 16) & 0xff) as u8);
            self.buffer.set(pos + 3, ((v >> 24) & 0xff) as u8);
            self.buffer.set(pos + 4, ((v >> 32) & 0xff) as u8);
            self.buffer.set(pos + 5, ((v >> 40) & 0xff) as u8);
            self.buffer.set(pos + 6, ((v >> 48) & 0xff) as u8);
            self.buffer.set(pos + 7, ((v >> 56) & 0xff) as u8);
            self.position = pos + 8;
            proof {
                assert(final(self)@.bytes =~= splice_at(
                    old(self)@.bytes,
                    old(self)@.position,
                    u64_le_bytes(v),
                ));
            }
            Ok(())
        }
    }

    /// Writes `length` bytes of `b`, starting at `offset` in `b`, verbatim.
    pub fn write_bytes_offset(&mut self, b: &[u8], offset: usize, length: usize) -> (r: Result<
        (),
        BufferError,
    >)
        requires
            old(self)@.wf(),
            offset + length <= b@.len(),
        ensures
            final(self)@.wf(),
            write_outcome(
                old(self)@,
                final(self)@,
                r is Ok,
                b@.subrange(offset as int, offset + length),
            ),
            r is Err ==> r == Err::<(), BufferError>(BufferError::BufferOverflow),
    {
        if self.calculated_size_only {
            if self.capacity > usize::MAX - length {
                return Err(BufferError::BufferOverflow);
            }
            self.capacity = self.capacity + length;
            Ok(())
        } else {
            if self.limit - self.position < length {
                return Err(BufferError::BufferOverflow);
            }
            let ghost pre = self@;
            let pos = self.position;
            let blen = b.len();
            let mut i: usize = 0;
            while i < length
                invariant
                    i <= length,
                    offset + length <= blen,
                    blen == b@.len(),
                    pre.wf(),
                    !pre.measuring,
                    pos == pre.position,
                    pos + length <= pre.limit,
                    self.position == pos,
                    self.limit == pre.limit,
                    self.capacity == pre.capacity,
                    self.calculated_size_only == pre.measuring,
                    self.buffer@.len() == pre.bytes.len(),
                    forall|j: int|
                        0 <= j < i ==> #[trigger] self.buffer@[pos + j] == b@[offset + j],
                    forall|j: int|
                        0 <= j < pre.bytes.len() && !(pos <= j < pos + i) ==> self.buffer@[j]
                            == pre.bytes[j],
                decreases length - i,
            {
                let x = b[offset + i];
                self.buffer.set(pos + i, x);
                i = i + 1;
            }
            self.position = pos + length;
            proof {
                let patch = b@.subrange(offset as int, offset + length);
                assert forall|j: int|
                    pos <= j < pos + length implies self.buffer@[j] == patch[j - pos] by {
                    assert(self.buffer@[pos + (j - pos)] == b@[offset + (j - pos)]);
                };
                assert(self.buffer@ =~= splice_at(pre.bytes, pre.position, patch));
            }
            Ok(())
        }
    }

    /// Writes the first `length` bytes of `b` verbatim.
    pub fn write_bytes(&mut self, b: &[u8], length: usize) -> (r: Result<(), BufferError>)
        requires
            old(self)@.wf(),
            length <= b@.len(),
        ensures
            final(self)@.wf(),
            write_outcome(old(self)@, final(self)@, r is Ok, b@.subrange(0, length as int)),
            r is Err ==> r == Err::<(), BufferError>(BufferError::BufferOverflow),
    {
        self.write_bytes_offset(b, 0, length)
    }

    /// Writes the other buffer's unread region `[position, limit)` verbatim
    /// and, in real mode, marks it consumed by moving the source's cursor to
    /// its limit.
    pub fn write_bytes_serialized_buffer(&mut self, b: &mut SerializedBuffer) -> (r: Result<
        (),
        BufferError,
    >)
        requires
            old(self)@.wf(),
            old(b)@.wf(),
            old(b)@.limit <= old(b)@.bytes.len(),
        ensures
            final(self)@.wf(),
            final(b)@.wf(),
            write_outcome(
                old(self)@,
                final(self)@,
                r is Ok,
                old(b)@.bytes.subrange(old(b)@.position as int, old(b)@.limit as int),
            ),
            final(b)@ == if !old(self)@.measuring && r is Ok {
                BufView { position: old(b)@.limit, ..old(b)@ }
            } else {
                old(b)@
            },
            r is Err ==> r == Err::<(), BufferError>(BufferError::BufferOverflow),
    {
        let ghost src = old(b)@.bytes.subrange(old(b)@.position as int, old(b)@.limit as int);
        let length = b.limit - b.position;
        if length == 0 {
            proof {
                if !self@.measuring {
                    assert(self@.bytes =~= splice_at(self@.bytes, self@.position, src));
                }
                assert(final(b)@ =~= (BufView { position: old(b)@.limit, ..old(b)@ }));
            }
            return Ok(());
        }
        if self.calculated_size_only {
            if self.capacity > usize::MAX - length {
                return Err(BufferError::BufferOverflow);
            }
            self.capacity = self.capacity + length;
            Ok(())
        } else {
            let r = self.write_bytes_offset(b.buffer.as_slice(), b.position, length);
            match r {
                Ok(()) => {
                    b.position = b.limit;
                    Ok(())
                },
                Err(e) => Err(e),
            }
        }
    }

    /// Shifts the unread region `[position, limit)` to the front of the
    /// storage, sets the cursor to that region's length and opens the limit
    /// back up to the capacity. Already-consumed bytes are discarded. Does
    /// nothing when nothing is unread, or in measuring mode.
    pub fn compact(&mut self)
        requires
            old(self)@.wf(),
        ensures
            final(self)@.wf(),
            old(self)@.measuring || old(self)@.position == old(self)@.limit ==> final(self)@ == old(
                self,
            )@,
            !old(self)@.measuring && old(self)@.position < old(self)@.limit ==> {
                let n = old(self)@.limit - old(self)@.position;
                &&& final(self)@.bytes.len() == old(self)@.bytes.len()
                &&& final(self)@.bytes.subrange(0, n) == old(self)@.bytes.subrange(
                    old(self)@.position as int,
                    old(self)@.limit as int,
                )
                &&& (forall|j: int|
                    n <= j < old(self)@.bytes.len() ==> final(self)@.bytes[j] == old(
                        self,
                    )@.bytes[j])
                &&& final(self)@.position == n
                &&& final(self)@.limit == old(self)@.capacity
                &&& final(self)@.capacity == old(self)@.capacity
                &&& final(self)@.measuring == old(self)@.measuring
            },
    {
        if self.calculated_size_only {
            return ;
        }
        if self.position == self.limit {
            return ;
        }
        let ghost pre = self@;
        let n = self.limit - self.position;
        let pos = self.position;
        let mut i: usize = 0;
        while i < n
            invariant
                i <= n,
                n == pre.limit - pre.position,
                pos == pre.position,
                pos < pre.limit,
                pre.limit <= pre.bytes.len(),
                self.position == pre.position,
                self.limit == pre.limit,
                self.capacity == pre.capacity,
                self.calculated_size_only == pre.measuring,
                self.buffer@.len() == pre.bytes.len(),
                forall|j: int| 0 <= j < i ==> self.buffer@[j] == pre.bytes[pos + j],
                forall|j: int|
                    i <= j < pre.bytes.len() ==> self.buffer@[j] == pre.bytes[j],
            decreases n - i,
        {
            let x = self.buffer[pos + i];
            self.buffer.set(i, x);
            i = i + 1;
        }
        self.position = n;
        self.limit = self.capacity;
        proof {
            assert(final(self)@.bytes.subrange(0, n as int) =~= pre.bytes.subrange(
                pre.position as int,
                pre.limit as int,
            ));
        }
    }

    /// Writes `length` bytes of `b` from `offset` as a variable-length byte
    /// array: a 1-byte length header (or, past 253 bytes, a marker and a
    /// 3-byte little-endian length), the payload, and zero padding to the
    /// next 4-byte boundary. The write fails as a unit: either the whole
    /// encoding lands, or nothing changes.
    pub fn write_byte_array(&mut self, b: &[u8], offset: usize, length: usize) -> (r: Result<
        (),
        BufferError,
    >)
        requires
            old(self)@.wf(),
            offset + length <= b@.len(),
            length <= MAX_BYTE_ARRAY_LEN,
        ensures
            final(self)@.wf(),
            write_outcome(
                old(self)@,
                final(self)@,
                r is Ok,
                encoded_byte_array(b@.subrange(offset as int, offset + length)),
            ),
            r is Err ==> r == Err::<(), BufferError>(BufferError::BufferOverflow),
    {
        let ghost p = b@.subrange(offset as int, offset + length);
        let mut enc: Vec<u8> = Vec::new();
        if length <= SHORT_HEADER_MAX_LEN {
            enc.push(length as u8);
        } else {
            let l32 = length as u32;
            proof {
                lemma_u32_byte_mask(l32);
                lemma_u32_byte_mask(l32 >> 8);
                lemma_u32_byte_mask(l32 >> 16);
            }
            enc.push(LONG_HEADER_MARKER);
            enc.push((l32 & 0xff) as u8);
            enc.push(((l32 >> 8) & 0xff) as u8);
            enc.push(((l32 >> 16) & 0xff) as u8);
        }
        proof {
            assert(enc@ =~= len_header(length as nat));
        }
        let hl = enc.len();
        let blen = b.len();
        let mut i: usize = 0;
        while i < length
            invariant
                i <= length,
                offset + length <= blen,
                blen == b@.len(),
                hl == header_len(length as nat),
                length <= MAX_BYTE_ARRAY_LEN,
                enc@.len() == hl + i,
                enc@ =~= len_header(length as nat) + b@.subrange(offset as int, offset + i),
            decreases length - i,
        {
            enc.push(b[offset + i]);
            i = i + 1;
        }
        let rem = enc.len() % 4;
        let pad: usize = if rem == 0 {
            0
        } else {
            4 - rem
        };
        proof {
            assert(pad == pad_len((header_len(length as nat) + length) as nat));
        }
        let mut k: usize = 0;
        while k < pad
            invariant
                k <= pad,
                pad < 4,
                hl == header_len(length as nat),
                length <= MAX_BYTE_ARRAY_LEN,
                enc@.len() == hl + length + k,
                enc@ =~= len_header(length as nat) + b@.subrange(offset as int, offset + length)
                    + zero_bytes(k as nat),
            decreases pad - k,
        {
            enc.push(0u8);
            k = k + 1;
        }
        proof {
            assert(enc@ =~= encoded_byte_array(p));
        }
        let elen = enc.len();
        let r = self.write_bytes(enc.as_slice(), elen);
        proof {
            assert(enc@.subrange(0, elen as int) =~= enc@);
        }
        r
    }

    /// Writes the other buffer's bytes `[0, limit)` as a variable-length
    /// byte array, rewinding the other buffer's cursor to the start first.
    pub fn write_byte_array_serialized_buffer(&mut self, b: &mut SerializedBuffer) -> (r: Result<
        (),
        BufferError,
    >)
        requires
            old(self)@.wf(),
            old(b)@.wf(),
            old(b)@.limit <= old(b)@.bytes.len(),
            old(b)@.limit <= MAX_BYTE_ARRAY_LEN,
        ensures
            final(self)@.wf(),
            final(b)@.wf(),
            final(b)@ == (BufView { position: 0, ..old(b)@ }),
            write_outcome(
                old(self)@,
                final(self)@,
                r is Ok,
                encoded_byte_array(old(b)@.bytes.subrange(0, old(b)@.limit as int)),
            ),
            r is Err ==> r == Err::<(), BufferError>(BufferError::BufferOverflow),
    {
        b.rewind();
        let lim = b.limit;
        self.write_byte_array(b.buffer.as_slice(), 0, lim)
    }

    /// Writes a string as the variable-length byte array of its UTF-8
    /// encoding.
    pub fn write_string(&mut self, s: String) -> (r: Result<(), BufferError>)
        requires
            old(self)@.wf(),
            encode_utf8(s@).len() <= MAX_BYTE_ARRAY_LEN,
        ensures
            final(self)@.wf(),
            write_outcome(
                old(self)@,
                final(self)@,
                r is Ok,
                encoded_byte_array(encode_utf8(s@)),
            ),
            r is Err ==> r == Err::<(), BufferError>(BufferError::BufferOverflow),
    {
        let bytes = s.as_str().as_bytes();
        let len = bytes.len();
        let r = self.write_byte_array(bytes, 0, len);
        proof {
            assert(bytes@.subrange(0, len as int) =~= encode_utf8(s@));
        }
        r
    }

    /// Writes a boolean as its 4-byte sentinel, little-endian.
    pub fn write_bool(&mut self, val: bool) -> (r: Result<(), BufferError>)
        requires
            old(self)@.wf(),
        ensures
            final(self)@.wf(),
            write_outcome(old(self)@, final(self)@, r is Ok, u32_le_bytes(bool_sentinel(val))),
            r is Err ==> r == Err::<(), BufferError>(BufferError::BufferOverflow),
    {
        proof {
            lemma_u32_cast_round_trip(bool_sentinel(val));
        }
        if val {
            self.write_i32(BOOL_TRUE_SENTINEL as i32)
        } else {
            self.write_i32(BOOL_FALSE_SENTINEL as i32)
        }
    }

    /// Reads one raw byte at the cursor.
    pub fn read_byte(&mut self) -> (r: Result<u8, BufferError>)
        requires
            old(self)@.wf(),
        ensures
            final(self)@.wf(),
            can_read(old(self)@, 1) ==> r == Ok::<u8, BufferError>(
                old(self)@.bytes[old(self)@.position as int],
            ) && read_advanced(old(self)@, final(self)@, 1),
            !can_read(old(self)@, 1) ==> r == Err::<u8, BufferError>(BufferError::BufferUnderflow)
                && final(self)@ == old(self)@,
    {
        if self.calculated_size_only {
            return Err(BufferError::BufferUnderflow);
        }
        if self.limit - self.position < 1 {
            return Err(BufferError::BufferUnderflow);
        }
        let pos = self.position;
        let x = self.buffer[pos];
        self.position = pos + 1;
        Ok(x)
    }

    /// Reads a 32-bit integer, little-endian.
    pub fn read_i32(&mut self) -> (r: Result<i32, BufferError>)
        requires
            old(self)@.wf(),
        ensures
            final(self)@.wf(),
            can_read(old(self)@, 4) ==> r == Ok::<i32, BufferError>(
                u32_from_le_bytes(
                    old(self)@.bytes.subrange(
                        old(self)@.position as int,
                        old(self)@.position as int + 4,
                    ),
                ) as i32,
            ) && read_advanced(old(self)@, final(self)@, 4),
            !can_read(old(self)@, 4) ==> r == Err::<i32, BufferError>(BufferError::BufferUnderflow)
                && final(self)@ == old(self)@,
    {
        match self.read_u32_raw() {
            Ok(v) => Ok(
                #[verifier::truncate]
                (v as i32),
            ),
            Err(e) => Err(e),
        }
    }

    /// Reads a 32-bit unsigned integer, little-endian.
    pub fn read_u32(&mut self) -> (r: Result<u32, BufferError>)
        requires
            old(self)@.wf(),
        ensures
            final(self)@.wf(),
            can_read(old(self)@, 4) ==> r == Ok::<u32, BufferError>(
                u32_from_le_bytes(
                    old(self)@.bytes.subrange(
                        old(self)@.position as int,
                        old(self)@.position as int + 4,
                    ),
                ),
            ) && read_advanced(old(self)@, final(self)@, 4),
            !can_read(old(self)@, 4) ==> r == Err::<u32, BufferError>(BufferError::BufferUnderflow)
                && final(self)@ == old(self)@,
    {
        self.read_u32_raw()
    }

    /// Reads four little-endian bytes at the cursor as one 32-bit value.
    fn read_u32_raw(&mut self) -> (r: Result<u32, BufferError>)
        requires
            old(self)@.wf(),
        ensures
            final(self)@.wf(),
            can_read(old(self)@, 4) ==> r == Ok::<u32, BufferError>(
                u32_from_le_bytes(
                    old(self)@.bytes.subrange(
                        old(self)@.position as int,
                        old(self)@.position as int + 4,
                    ),
                ),
            ) && read_advanced(old(self)@, final(self)@, 4),
            !can_read(old(self)@, 4) ==> r == Err::<u32, BufferError>(BufferError::BufferUnderflow)
                && final(self)@ == old(self)@,
    {
        if self.calculated_size_only {
            return Err(BufferError::BufferUnderflow);
        }
        if self.limit - self.position < 4 {
            return Err(BufferError::BufferUnderflow);
        }
        let pos = self.position;
        let b0 = self.buffer[pos];
        let b1 = self.buffer[pos + 1];
        let b2 = self.buffer[pos + 2];
        let b3 = self.buffer[pos + 3];
        let v = (b0 as u32) | ((b1 as u32) << 8) | ((b2 as u32) << 16) | ((b3 as u32) << 24);
        self.position = pos + 4;
        proof {
            let sub = old(self)@.bytes.subrange(
                old(self)@.position as int,
                old(self)@.position as int + 4,
            );
            assert(sub[0] == b0 && sub[1] == b1 && sub[2] == b2 && sub[3] == b3);
        }
        Ok(v)
    }

    /// Reads a 64-bit integer, little-endian.
    pub fn read_i64(&mut self) -> (r: Result<i64, BufferError>)
        requires
            old(self)@.wf(),
        ensures
            final(self)@.wf(),
            can_read(old(self)@, 8) ==> r == Ok::<i64, BufferError>(
                u64_from_le_bytes(
                    old(self)@.bytes.subrange(
                        old(self)@.position as int,
                        old(self)@.position as int + 8,
                    ),
                ) as i64,
            ) && read_advanced(old(self)@, final(self)@, 8),
            !can_read(old(self)@, 8) ==> r == Err::<i64, BufferError>(BufferError::BufferUnderflow)
                && final(self)@ == old(self)@,
    {
        match self.read_u64_raw() {
            Ok(v) => Ok(
                #[verifier::truncate]
                (v as i64),
            ),
            Err(e) => Err(e),
        }
    }

    /// Reads a 64-bit unsigned integer, little-endian.
    pub fn read_u64(&mut self) -> (r: Result<u64, BufferError>)
        requires
            old(self)@.wf(),
        ensures
            final(self)@.wf(),
            can_read(old(self)@, 8) ==> r == Ok::<u64, BufferError>(
                u64_from_le_bytes(
                    old(self)@.bytes.subrange(
                        old(self)@.position as int,
                        old(self)@.position as int + 8,
                    ),
                ),
            ) && read_advanced(old(self)@, final(self)@, 8),
            !can_read(old(self)@, 8) ==> r == Err::<u64, BufferError>(BufferError::BufferUnderflow)
                && final(self)@ == old(self)@,
    {
        self.read_u64_raw()
    }

    /// Reads eight little-endian bytes at the cursor as one 64-bit value.
    fn read_u64_raw(&mut self) -> (r: Result<u64, BufferError>)
        requires
            old(self)@.wf(),
        ensures
            final(self)@.wf(),
            can_read(old(self)@, 8) ==> r == Ok::<u64, BufferError>(
                u64_from_le_bytes(
                    old(self)@.bytes.subrange(
                        old(self)@.position as int,
                        old(self)@.position as int + 8,
                    ),
                ),
            ) && read_advanced(old(self)@, final(self)@, 8),
            !can_read(old(self)@, 8) ==> r == Err::<u64, BufferError>(BufferError::BufferUnderflow)
                && final(self)@ == old(self)@,
    {
        if self.calculated_size_only {
            return Err(BufferError::BufferUnderflow);
        }
        if self.limit - self.position < 8 {
            return Err(BufferError::BufferUnderflow);
        }
        let pos = self.position;
        let b0 = self.buffer[pos];
        let b1 = self.buffer[pos + 1];
        let b2 = self.buffer[pos + 2];
        let b3 = self.buffer[pos + 3];
        let b4 = self.buffer[pos + 4];
        let b5 = self.buffer[pos + 5];
        let b6 = self.buffer[pos + 6];
        let b7 = self.buffer[pos + 7];
        let v = (b0 as u64) | ((b1 as u64) << 8) | ((b2 as u64) << 16) | ((b3 as u64) << 24) | ((
        b4 as u64) << 32) | ((b5 as u64) << 40) | ((b6 as u64) << 48) | ((b7 as u64) << 56);
        self.position = pos + 8;
        proof {
            let sub = old(self)@.bytes.subrange(
                old(self)@.position as int,
                old(self)@.position as int + 8,
            );
            assert(sub[0] == b0 && sub[1] == b1 && sub[2] == b2 && sub[3] == b3);
            assert(sub[4] == b4 && sub[5] == b5 && sub[6] == b6 && sub[7] == b7);
        }
        Ok(v)
    }

    /// Reads a 4-byte boolean sentinel; a 32-bit value that is neither
    /// sentinel is an `InvalidBoolSentinel` failure and moves nothing.
    pub fn read_bool(&mut self) -> (r: Result<bool, BufferError>)
        requires
            old(self)@.wf(),
        ensures
            final(self)@.wf(),
            can_read(old(self)@, 4) ==> {
                let u = u32_from_le_bytes(
                    old(self)@.bytes.subrange(
                        old(self)@.position as int,
                        old(self)@.position as int + 4,
                    ),
                );
                match decode_bool(u) {
                    Some(b) => r == Ok::<bool, BufferError>(b) && read_advanced(
                        old(self)@,
                        final(self)@,
                        4,
                    ),
                    None => r == Err::<bool, BufferError>(BufferError::InvalidBoolSentinel)
                        && final(self)@ == old(self)@,
                }
            },
            !can_read(old(self)@, 4) ==> r == Err::<bool, BufferError>(BufferError::BufferUnderflow)
                && final(self)@ == old(self)@,
    {
        if self.calculated_size_only {
            return Err(BufferError::BufferUnderflow);
        }
        if self.limit - self.position < 4 {
            return Err(BufferError::BufferUnderflow);
        }
        let saved = self.position;
        let r = self.read_u32_raw();
        match r {
            Ok(v) => {
                if v == BOOL_TRUE_SENTINEL {
                    Ok(true)
                } else if v == BOOL_FALSE_SENTINEL {
                    Ok(false)
                } else {
                    self.position = saved;
                    proof {
                        assert(final(self)@ =~= old(self)@);
                    }
                    Err(BufferError::InvalidBoolSentinel)
                }
            },
            Err(e) => Err(e),
        }
    }

    /// Reads a variable-length byte array: the 1- or 4-byte length header,
    /// the payload, and its padding. The cursor only moves when the whole
    /// array (padding included) lies below the limit.
    pub fn read_byte_array(&mut self) -> (r: Result<Vec<u8>, BufferError>)
        requires
            old(self)@.wf(),
        ensures
            final(self)@.wf(),
            !old(self)@.measuring && arr_read_ok(
                old(self)@.bytes,
                old(self)@.position,
                old(self)@.limit,
            ) ==> (r matches Ok(out) && out@ == arr_payload_at(
                old(self)@.bytes,
                old(self)@.position as int,
            ) && read_advanced(
                old(self)@,
                final(self)@,
                arr_total_at(old(self)@.bytes, old(self)@.position as int),
            )),
            !(!old(self)@.measuring && arr_read_ok(
                old(self)@.bytes,
                old(self)@.position,
                old(self)@.limit,
            )) ==> r == Err::<Vec<u8>, BufferError>(BufferError::BufferUnderflow) && final(self)@
                == old(self)@,
    {
        if self.calculated_size_only {
            return Err(BufferError::BufferUnderflow);
        }
        let avail = self.limit - self.position;
        if avail < 1 {
            return Err(BufferError::BufferUnderflow);
        }
        let pos = self.position;
        let b0 = self.buffer[pos];
        let hl: usize;
        let l: usize;
        if b0 <= 253 {
            hl = 1;
            l = b0 as usize;
        } else {
            if avail < 4 {
                return Err(BufferError::BufferUnderflow);
            }
            let b1 = self.buffer[pos + 1];
            let b2 = self.buffer[pos + 2];
            let b3 = self.buffer[pos + 3];
            proof {
                lemma_u24_from_bound(b1, b2, b3);
                let sub = old(self)@.bytes.subrange(
                    old(self)@.position as int + 1,
                    old(self)@.position as int + 4,
                );
                assert(sub[0] == b1 && sub[1] == b2 && sub[2] == b3);
            }
            let l32 = (b1 as u32) | ((b2 as u32) << 8) | ((b3 as u32) << 16);
            hl = 4;
            l = l32 as usize;
        }
        let rem = (l + hl) % 4;
        let pad: usize = if rem == 0 {
            0
        } else {
            4 - rem
        };
        let total = hl + l + pad;
        proof {
            assert(hl == arr_header_len_at(old(self)@.bytes, old(self)@.position as int));
            assert(l == arr_payload_len_at(old(self)@.bytes, old(self)@.position as int));
            assert(pad == pad_len((hl + l) as nat));
            assert(total == arr_total_at(old(self)@.bytes, old(self)@.position as int));
        }
        if avail < total {
            return Err(BufferError::BufferUnderflow);
        }
        let mut out: Vec<u8> = Vec::new();
        let mut i: usize = 0;
        while i < l
            invariant
                i <= l,
                old(self)@.wf(),
                !old(self)@.measuring,
                pos == old(self)@.position,
                pos + hl + l <= old(self)@.limit,
                self@ == old(self)@,
                out@ =~= old(self)@.bytes.subrange(pos + hl, pos + hl + i),
            decreases l - i,
        {
            let x = self.buffer[pos + hl + i];
            out.push(x);
            i = i + 1;
        }
        self.position = pos + total;
        proof {
            assert(out@ =~= arr_payload_at(old(self)@.bytes, old(self)@.position as int));
        }
        Ok(out)
    }

    /// Reads a string: a variable-length byte array whose payload must be
    /// valid UTF-8. A payload that is not valid text is an `InvalidText`
    /// failure and moves nothing.
    pub fn read_string(&mut self) -> (r: Result<String, BufferError>)
        requires
            old(self)@.wf(),
        ensures
            final(self)@.wf(),
            !old(self)@.measuring && arr_read_ok(
                old(self)@.bytes,
                old(self)@.position,
                old(self)@.limit,
            ) && valid_utf8(arr_payload_at(old(self)@.bytes, old(self)@.position as int)) ==> (
            r matches Ok(s) && s@ == decode_utf8(
                arr_payload_at(old(self)@.bytes, old(self)@.position as int),
            ) && read_advanced(
                old(self)@,
                final(self)@,
                arr_total_at(old(self)@.bytes, old(self)@.position as int),
            )),
            !old(self)@.measuring && arr_read_ok(
                old(self)@.bytes,
                old(self)@.position,
                old(self)@.limit,
            ) && !valid_utf8(arr_payload_at(old(self)@.bytes, old(self)@.position as int)) ==> r
                == Err::<String, BufferError>(BufferError::InvalidText) && final(self)@ == old(
                self,
            )@,
            !(!old(self)@.measuring && arr_read_ok(
                old(self)@.bytes,
                old(self)@.position,
                old(self)@.limit,
            )) ==> r == Err::<String, BufferError>(BufferError::BufferUnderflow) && final(self)@
                == old(self)@,
    {
        let saved = self.position;
        match self.read_byte_array() {
            Ok(payload) => {
                match bytes_to_string(payload) {
                    Some(s) => Ok(s),
                    None => {
                        self.position = saved;
                        proof {
                            assert(final(self)@ =~= old(self)@);
                        }
                        Err(BufferError::InvalidText)
                    },
                }
            },
            Err(e) => Err(e),
        }
    }
}

impl Clone for SerializedBuffer {
    /// A deep copy: an independent owner of the same bytes, cursor, limit,
    /// capacity and mode. Mutating either buffer afterwards never touches
    /// the other.
    fn clone(&self) -> (r: Self)
        ensures
            r@ == self@,
    {
        let mut storage: Vec<u8> = Vec::new();
        let mut i: usize = 0;
        let n = self.buffer.len();
        while i < n
            invariant
                i <= n,
                n == self.buffer@.len(),
                storage@ =~= self.buffer@.subrange(0, i as int),
            decreases n - i,
        {
            storage.push(self.buffer[i]);
            i = i + 1;
        }
        proof {
            assert(storage@ =~= self.buffer@);
        }
        let r = SerializedBuffer {
            buffer: storage,
            position: self.position,
            limit: self.limit,
            capacity: self.capacity,
            calculated_size_only: self.calculated_size_only,
        };
        proof {
            assert(r@ =~= self@);
        }
        r
    }
}

/// Relies on `String::from_utf8`: it succeeds exactly on input that is valid
/// UTF-8, and then returns the string those bytes encode (the bytes are kept
/// verbatim as the string's contents).
#[verifier::external_body]
fn bytes_to_string(v: Vec<u8>) -> (r: Option<String>)
    ensures
        r is Some <==> valid_utf8(v@),
        r matches Some(s) ==> s@ == decode_utf8(v@),
{
    match String::from_utf8(v) {
        Ok(s) => Some(s),
        Err(_) => None,
    }
}

} // verus!
