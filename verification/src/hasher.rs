//! The digest of a record, as the object store computes it.

use crate::record::{headed_text, lemma_headed_byte_len};
use crate::text::{all_lower_hex, byte_len, lemma_decimal_len, lemma_decimal_len_at_least};
use crate::writer::prepend_header_to_blob;
use crypto::digest::Digest;
use crypto::sha1::Sha1;
use vstd::prelude::*;
use vstd::string::*;
use vstd::utf8::*;

verus! {

/// What `Digest::result_str` of the crate `crypto` returns from a new
/// `Sha1` that was given `input`: the SHA-1 digest of the UTF-8 encoding of
/// `input`, in hexadecimal.
pub uninterp spec fn sha1_hex(input: Seq<char>) -> Seq<char>;

/// Number of bytes from which on the hash function refuses its input: the
/// number of bits of the input would not fit in 64 bits.
pub const SHA1_INPUT_LIMIT: u64 = 0x2000_0000_0000_0000;

/// Number of bytes of the largest record that is hashed: under its header,
/// which then has 27 bytes, it is the largest input below
/// `SHA1_INPUT_LIMIT`.
pub const MAX_RECORD_BYTES: u64 = 0x1FFF_FFFF_FFFF_FFE4;

/// Number of hexadecimal digits of a digest.
pub const DIGEST_HEX_LEN: usize = 40;

/// The digest of a record: the hash of the record under its header.
pub open spec fn blob_digest(blob: Seq<char>) -> Seq<char> {
    sha1_hex(headed_text(blob))
}

/// The shape of a digest: forty lowercase hexadecimal digits.
pub open spec fn is_digest(digest: Seq<char>) -> bool {
    digest.len() == DIGEST_HEX_LEN && all_lower_hex(digest)
}

/// Calls `Sha1::new`, `Digest::input_str` and `Digest::result_str` of the
/// crate `crypto`: the SHA-1 digest of the bytes of `input`, twenty bytes,
/// written as two lowercase hexadecimal digits each. `input_str` panics
/// where the number of bits of the input overflows 64 bits.
#[verifier::external_body]
fn sha1_hash(input: &str) -> (digest: String)
    requires
        byte_len(input@) < SHA1_INPUT_LIMIT,
    ensures
        digest@ == sha1_hex(input@),
        digest@.len() == DIGEST_HEX_LEN,
        all_lower_hex(digest@),
{
    let mut sha1_hasher = Sha1::new();
    sha1_hasher.input_str(input);
    sha1_hasher.result_str()
}

/// The records of at most `MAX_RECORD_BYTES` bytes are exactly those that
/// the hash function takes under their header.
pub proof fn lemma_hashed_records(blob: Seq<char>)
    ensures
        byte_len(blob) <= MAX_RECORD_BYTES <==> byte_len(headed_text(blob)) < SHA1_INPUT_LIMIT,
{
    let len = byte_len(blob);
    lemma_headed_byte_len(blob);
    assert(vstd::arithmetic::power::pow(10, 19) == 10_000_000_000_000_000_000int) by {
        reveal_with_fuel(vstd::arithmetic::power::pow, 20);
    }
    assert(vstd::arithmetic::power::pow(10, 18) == 1_000_000_000_000_000_000int) by {
        reveal_with_fuel(vstd::arithmetic::power::pow, 19);
    }
    if len <= MAX_RECORD_BYTES {
        lemma_decimal_len(len, 19, 10_000_000_000_000_000_000nat);
    } else {
        lemma_decimal_len_at_least(len, 18, 1_000_000_000_000_000_000nat);
    }
}

/// Records of the same bytes have the same digest.
pub proof fn lemma_same_bytes_same_digest(first: Seq<char>, second: Seq<char>)
    requires
        encode_utf8(first) == encode_utf8(second),
    ensures
        blob_digest(first) == blob_digest(second),
{
    encode_utf8_decode_utf8(first);
    encode_utf8_decode_utf8(second);
}

/// Tells whether a record is of a size that is hashed.
pub fn can_hash(blob: &str) -> (fits: bool)
    ensures
        fits == (byte_len(blob@) <= MAX_RECORD_BYTES),
{
    let len: usize = blob.as_bytes().len();
    len as u64 <= MAX_RECORD_BYTES
}

/// Hashes a record: puts the header of the object store before it, hashes
/// the whole with SHA-1 and returns the digest in hexadecimal.
pub fn hash_blob(blob: &str) -> (hash: String)
    requires
        byte_len(blob@) <= MAX_RECORD_BYTES,
    ensures
        hash@ == blob_digest(blob@),
        is_digest(hash@),
{
    let full_blob = prepend_header_to_blob(blob);
    proof {
        lemma_hashed_records(blob@);
    }
    sha1_hash(full_blob.as_str())
}

} // verus!
