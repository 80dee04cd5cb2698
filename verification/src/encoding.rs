//! The building blocks of the canonical byte encoding that digests and
//! signatures are computed over.
//!
//! Integers are written little-endian at their full width. A byte string is
//! written as its length, a 64-bit integer, followed by its bytes; a text is
//! written as the byte string of its UTF-8 form. The fields of a record
//! follow each other in declaration order with nothing in between, and a
//! list is written as its length followed by its items in order.

use vstd::bytes::spec_u64_to_le_bytes;
use vstd::prelude::*;
use vstd::utf8::encode_utf8;

verus! {

/// Encoding of a length.
pub open spec fn encode_len(len: nat) -> Seq<u8> {
    spec_u64_to_le_bytes(len as u64)
}

/// Encoding of a byte string.
pub open spec fn encode_bytes(bytes: Seq<u8>) -> Seq<u8> {
    encode_len(bytes.len()) + bytes
}

/// Encoding of a text.
pub open spec fn encode_text(text: Seq<char>) -> Seq<u8> {
    encode_bytes(encode_utf8(text))
}

} // verus!
