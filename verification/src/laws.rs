//! The format's laws, proved once and for all over the buffer's
//! mathematical state: whatever a write put down, the matching read gives
//! back, and a measuring pass predicts a real pass exactly.

use crate::buffer::{measured, wrote, BufView};
use crate::wire::{
    arr_payload_at, arr_read_ok, arr_total_at, bool_sentinel, decode_bool, encoded_byte_array,
    encoded_len, header_len, lemma_byte_array_round_trip, lemma_bool_round_trip,
    lemma_encoded_byte_array_len, lemma_i32_cast_round_trip, lemma_i64_cast_round_trip,
    lemma_u32_le_round_trip, lemma_u64_le_round_trip, len_header, u32_from_le_bytes, u32_le_bytes,
    u64_from_le_bytes, u64_le_bytes, LONG_HEADER_MARKER, MAX_BYTE_ARRAY_LEN, SHORT_HEADER_MAX_LEN,
};
use vstd::prelude::*;
use vstd::utf8::{decode_utf8, encode_utf8, valid_utf8};

verus! {

/// After a real-mode write, the written patch sits verbatim at the old
/// cursor.
pub proof fn lemma_wrote_patch_at_cursor(pre: BufView, post: BufView, patch: Seq<u8>)
    requires
        pre.position + patch.len() <= pre.bytes.len(),
        wrote(pre, post, patch),
    ensures
        post.bytes.subrange(pre.position as int, pre.position as int + patch.len()) == patch,
        post.bytes.len() == pre.bytes.len(),
{
    assert(post.bytes.subrange(pre.position as int, pre.position as int + patch.len()) =~= patch);
    assert(post.bytes.len() == pre.bytes.len());
}

/// Round trip for 32-bit integers: reading four bytes back where a 32-bit
/// integer was written restores that integer.
pub proof fn lemma_i32_write_read_round_trip(x: i32, pre: BufView, post: BufView)
    requires
        pre.position + 4 <= pre.bytes.len(),
        wrote(pre, post, u32_le_bytes(x as u32)),
    ensures
        u32_from_le_bytes(
            post.bytes.subrange(pre.position as int, pre.position as int + 4),
        ) as i32 == x,
{
    lemma_wrote_patch_at_cursor(pre, post, u32_le_bytes(x as u32));
    lemma_u32_le_round_trip(x as u32);
    lemma_i32_cast_round_trip(x);
}

/// Round trip for 64-bit integers: reading eight bytes back where a 64-bit
/// integer was written restores that integer.
pub proof fn lemma_i64_write_read_round_trip(x: i64, pre: BufView, post: BufView)
    requires
        pre.position + 8 <= pre.bytes.len(),
        wrote(pre, post, u64_le_bytes(x as u64)),
    ensures
        u64_from_le_bytes(
            post.bytes.subrange(pre.position as int, pre.position as int + 8),
        ) as i64 == x,
{
    lemma_wrote_patch_at_cursor(pre, post, u64_le_bytes(x as u64));
    lemma_u64_le_round_trip(x as u64);
    lemma_i64_cast_round_trip(x);
}

/// Round trip for booleans: reading four bytes back where a boolean was
/// written decodes to that boolean, never to the other one and never to a
/// sentinel failure.
pub proof fn lemma_bool_write_read_round_trip(v: bool, pre: BufView, post: BufView)
    requires
        pre.position + 4 <= pre.bytes.len(),
        wrote(pre, post, u32_le_bytes(bool_sentinel(v))),
    ensures
        decode_bool(
            u32_from_le_bytes(post.bytes.subrange(pre.position as int, pre.position as int + 4)),
        ) == Some(v),
{
    lemma_wrote_patch_at_cursor(pre, post, u32_le_bytes(bool_sentinel(v)));
    lemma_bool_round_trip(v);
}

/// Round trip for byte arrays, at every payload length the format can
/// carry: where a byte array was written, parsing with any limit that
/// covers the encoding finds exactly the payload and consumes exactly the
/// encoded length.
pub proof fn lemma_byte_array_write_read_round_trip(
    p: Seq<u8>,
    pre: BufView,
    post: BufView,
    limit: nat,
)
    requires
        p.len() <= MAX_BYTE_ARRAY_LEN,
        pre.position + encoded_len(p.len()) <= pre.bytes.len(),
        wrote(pre, post, encoded_byte_array(p)),
        pre.position + encoded_len(p.len()) <= limit,
        limit <= post.bytes.len(),
    ensures
        arr_read_ok(post.bytes, pre.position, limit),
        arr_payload_at(post.bytes, pre.position as int) == p,
        arr_total_at(post.bytes, pre.position as int) == encoded_len(p.len()),
{
    lemma_encoded_byte_array_len(p);
    lemma_wrote_patch_at_cursor(pre, post, encoded_byte_array(p));
    lemma_byte_array_round_trip(p, post.bytes, pre.position, limit);
}

/// Round trip for strings: where a string's UTF-8 bytes were written as a
/// byte array, parsing finds a valid-UTF-8 payload that decodes to the very
/// same characters.
pub proof fn lemma_string_write_read_round_trip(
    s: Seq<char>,
    pre: BufView,
    post: BufView,
    limit: nat,
)
    requires
        encode_utf8(s).len() <= MAX_BYTE_ARRAY_LEN,
        pre.position + encoded_len(encode_utf8(s).len()) <= pre.bytes.len(),
        wrote(pre, post, encoded_byte_array(encode_utf8(s))),
        pre.position + encoded_len(encode_utf8(s).len()) <= limit,
        limit <= post.bytes.len(),
    ensures
        arr_read_ok(post.bytes, pre.position, limit),
        valid_utf8(arr_payload_at(post.bytes, pre.position as int)),
        decode_utf8(arr_payload_at(post.bytes, pre.position as int)) == s,
        arr_total_at(post.bytes, pre.position as int) == encoded_len(encode_utf8(s).len()),
{
    lemma_byte_array_write_read_round_trip(encode_utf8(s), pre, post, limit);
    vstd::utf8::encode_utf8_valid_utf8(s);
    vstd::utf8::encode_utf8_decode_utf8(s);
}

/// The header threshold: payloads up to 253 bytes take the 1-byte header;
/// longer ones take the 4-byte header, which opens with the long-form
/// marker.
pub proof fn lemma_header_threshold(n: nat)
    requires
        n <= MAX_BYTE_ARRAY_LEN,
    ensures
        n <= SHORT_HEADER_MAX_LEN <==> header_len(n) == 1,
        n > SHORT_HEADER_MAX_LEN <==> header_len(n) == 4,
        len_header(n).len() == header_len(n),
        n > SHORT_HEADER_MAX_LEN ==> len_header(n)[0] == LONG_HEADER_MARKER,
{
}

/// Measuring/real symmetry: a fresh measuring pass that tallied a message's
/// encoding reports exactly the cursor a real write of that encoding ends
/// at, starting from the front of a real buffer. A measuring buffer thus
/// sizes a real one exactly.
pub proof fn lemma_measuring_real_symmetry(
    pre_m: BufView,
    post_m: BufView,
    pre_r: BufView,
    post_r: BufView,
    enc: Seq<u8>,
)
    requires
        pre_m.measuring,
        pre_m.capacity == 0,
        measured(pre_m, post_m, enc.len()),
        !pre_r.measuring,
        pre_r.position == 0,
        wrote(pre_r, post_r, enc),
    ensures
        post_m.capacity == post_r.position,
{
}

} // verus!
