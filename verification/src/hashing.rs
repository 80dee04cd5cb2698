//! SHA-256 digests and the leading-zero count that the proof of work is
//! measured by.

use sha2::Digest;
use vstd::prelude::*;

verus! {

/// Number of bytes in a digest.
pub const HASH_LENGTH: usize = 32;

/// The SHA-256 digest of `data`, as computed by the `sha2` crate.
pub uninterp spec fn sha256(data: Seq<u8>) -> Seq<u8>;

/// Number of leading zero bits of a byte string read as one big-endian
/// number: every leading zero byte counts eight, and the first non-zero byte
/// adds its own leading zeros and ends the count.
pub open spec fn leading_zero_bits(bytes: Seq<u8>) -> nat
    decreases bytes.len(),
{
    if bytes.len() == 0 {
        0
    } else if bytes[0] == 0 {
        8 + leading_zero_bits(bytes.drop_first())
    } else {
        bytes[0].leading_zeros() as nat
    }
}

/// The count that [`get_leading_zeroes`] reports: the number of leading zero
/// bits, capped at what a `u8` can hold.
pub open spec fn capped_leading_zero_bits(bytes: Seq<u8>) -> nat {
    if leading_zero_bits(bytes) <= u8::MAX {
        leading_zero_bits(bytes)
    } else {
        u8::MAX as nat
    }
}

/// A run of `n` zero bytes at the front contributes `8 * n` bits and leaves
/// the rest of the count to the remaining bytes.
pub proof fn lemma_leading_zero_bits_skip(bytes: Seq<u8>, n: int)
    requires
        0 <= n <= bytes.len(),
        forall|j: int| 0 <= j < n ==> bytes[j] == 0,
    ensures
        leading_zero_bits(bytes) == 8 * n + leading_zero_bits(bytes.skip(n)),
    decreases n,
{
    if n == 0 {
        assert(bytes.skip(0) =~= bytes);
    } else {
        let rest = bytes.drop_first();
        assert forall|j: int| 0 <= j < n - 1 implies rest[j] == 0 by {
            assert(rest[j] == bytes[j + 1]);
        }
        lemma_leading_zero_bits_skip(rest, n - 1);
        assert(rest.skip(n - 1) =~= bytes.skip(n));
    }
}

/// Calls `sha2::Sha256` (`new`, `update`, `finalize`) on `data`. The digest
/// is the function `sha256` of the input bytes and is 32 bytes long; nothing
/// else is claimed of it.
#[verifier::external_body]
pub fn to_hash(data: &[u8]) -> (digest: Vec<u8>)
    ensures
        digest@ == sha256(data@),
        digest@.len() == HASH_LENGTH,
{
    let mut hasher = sha2::Sha256::new();
    sha2::Digest::update(&mut hasher, data);
    hasher.finalize().to_vec()
}

/// Digest of the UTF-8 bytes of a string constant.
pub fn hash_string(data: &'static str) -> (digest: Vec<u8>)
    ensures
        digest@ == sha256(vstd::utf8::encode_utf8(data@)),
        digest@.len() == HASH_LENGTH,
{
    to_hash(data.as_bytes())
}

/// Counts the leading zero bits of `vec`. A count above 255 is reported as
/// 255, so that comparing the result with a difficulty gives the same answer
/// as comparing the full count.
pub fn get_leading_zeroes(vec: Vec<u8>) -> (count: u8)
    ensures
        count == capped_leading_zero_bits(vec@),
{
    leading_zeroes_of(vec.as_slice())
}

/// The count of [`get_leading_zeroes`] for bytes that stay with the caller.
pub fn leading_zeroes_of(bytes: &[u8]) -> (count: u8)
    ensures
        count == capped_leading_zero_bits(bytes@),
{
    let mut i: usize = 0;
    while i < bytes.len()
        invariant
            i <= bytes.len(),
            i <= 31,
            forall|j: int| 0 <= j < i ==> bytes@[j] == 0,
        decreases bytes.len() - i,
    {
        let byte: u8 = bytes[i];
        proof {
            lemma_leading_zero_bits_skip(bytes@, i as int);
            vstd::std_specs::bits::axiom_u8_leading_zeros(byte);
        }
        if byte != 0 {
            let zeros: u32 = byte.leading_zeros();
            let total: u32 = 8 * (i as u32) + zeros;
            return total as u8;
        }
        if i == 31 {
            proof {
                lemma_leading_zero_bits_skip(bytes@, 32);
            }
            return 255;
        }
        i += 1;
    }
    proof {
        lemma_leading_zero_bits_skip(bytes@, i as int);
    }
    (8 * i) as u8
}

} // verus!
