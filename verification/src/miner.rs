//! The search for a nonce that gives a record a digest with a chosen
//! prefix.

use crate::errors::MiningError;
use crate::hasher::{blob_digest, hash_blob, is_digest, DIGEST_HEX_LEN, MAX_RECORD_BYTES};
use crate::record::{candidate_text, lemma_candidate_byte_len, NONCE_SUFFIX_BYTES};
use crate::text::{
    ascii_lower, byte_len, hex_digit_str, hex_digits, is_lower_hex, lemma_digit_tables, lowercase,
};
use crate::writer::append_nonce_to_blob;
use rayon::iter::{IntoParallelIterator, ParallelIterator};
use vstd::prelude::*;
use vstd::string::*;
use vstd::utf8::*;

verus! {

/// `c` is a hexadecimal digit, in either case.
pub open spec fn is_hex_char(c: char) -> bool {
    is_lower_hex(c) || ('A' <= c && c <= 'F')
}

/// The prefixes that a digest can begin with: hexadecimal digits, no more
/// of them than a digest has.
pub open spec fn is_hex_prefix(prefix: Seq<char>) -> bool {
    &&& prefix.len() <= DIGEST_HEX_LEN
    &&& forall|i: int| 0 <= i < prefix.len() ==> is_hex_char(#[trigger] prefix[i])
}

/// `digest` begins with `prefix`, letters compared without regard to case:
/// a digest is written in lowercase, so it begins with the prefix in
/// lowercase.
pub open spec fn prefix_matches(prefix: Seq<char>, digest: Seq<char>) -> bool {
    lowercase(prefix).is_prefix_of(digest)
}

/// The prefix has no uppercase letter of ASCII in it.
pub open spec fn has_no_uppercase(prefix: Seq<char>) -> bool {
    forall|i: int| 0 <= i < prefix.len() ==> !('A' <= #[trigger] prefix[i] <= 'Z')
}

/// The nonce `nonce` gives the record `blob` a digest that begins with
/// `needle` as it is written.
pub open spec fn nonce_matches(blob: Seq<char>, needle: Seq<char>, nonce: u32) -> bool {
    let digest = blob_digest(candidate_text(blob, nonce));
    is_digest(digest) && needle.is_prefix_of(digest)
}

/// The nonce `nonce` solves the search for `prefix` on the record `blob`:
/// the digest of the record with that nonce begins with `prefix`, letters
/// compared without regard to case.
pub open spec fn winning(prefix: Seq<char>, blob: Seq<char>, nonce: u32) -> bool {
    nonce_matches(blob, lowercase(prefix), nonce)
}

/// The records that can be searched: with a nonce they are still of a size
/// that is hashed.
pub open spec fn minable(blob: Seq<char>) -> bool {
    byte_len(blob) + NONCE_SUFFIX_BYTES <= MAX_RECORD_BYTES
}

/// A digest is made of ASCII characters.
pub proof fn lemma_digest_is_ascii(digest: Seq<char>)
    requires
        is_digest(digest),
    ensures
        is_ascii_chars(digest),
{
    assert forall|i: int| 0 <= i < digest.len() implies '\0' <= #[trigger] digest[i]
        <= '\u{7f}' by {
        assert(is_lower_hex(digest[i]));
    }
}

/// Only a prefix of hexadecimal digits, no longer than a digest, begins a
/// digest.
pub proof fn lemma_only_hex_prefix_matches(prefix: Seq<char>, digest: Seq<char>)
    requires
        is_digest(digest),
        prefix_matches(prefix, digest),
    ensures
        is_hex_prefix(prefix),
{
    let lowered = lowercase(prefix);
    assert forall|i: int| 0 <= i < prefix.len() implies is_hex_char(#[trigger] prefix[i]) by {
        assert(digest.subrange(0, lowered.len() as int)[i] == digest[i]);
        assert(is_lower_hex(digest[i]));
        assert(lowered[i] == ascii_lower(prefix[i]));
    }
}

/// A prefix without uppercase letters is compared as it is written: the
/// digest begins with it exactly when it matches.
pub proof fn lemma_exact_prefix(prefix: Seq<char>, digest: Seq<char>)
    requires
        has_no_uppercase(prefix),
    ensures
        prefix_matches(prefix, digest) <==> prefix.is_prefix_of(digest),
{
    assert(lowercase(prefix) =~= prefix);
}

/// The case of the letters of a prefix does not matter to the search.
pub proof fn lemma_case_does_not_matter(
    first: Seq<char>,
    second: Seq<char>,
    blob: Seq<char>,
    nonce: u32,
)
    requires
        lowercase(first) == lowercase(second),
    ensures
        winning(first, blob, nonce) == winning(second, blob, nonce),
{
}

/// The empty prefix begins every digest.
pub proof fn lemma_empty_prefix_matches(digest: Seq<char>)
    ensures
        prefix_matches(Seq::<char>::empty(), digest),
{
    let lowered = lowercase(Seq::<char>::empty());
    assert(digest.subrange(0, lowered.len() as int) =~= lowered);
}

/// The prefix in lowercase, or nothing where the prefix can begin no
/// digest: where it is longer than a digest or holds anything but
/// hexadecimal digits.
fn hex_needle(prefix: &str) -> (needle: Option<String>)
    ensures
        needle is Some <==> is_hex_prefix(prefix@),
        needle matches Some(text) ==> text@ == lowercase(prefix@),
{
    if !prefix.is_ascii() {
        return None;
    }
    let bytes = prefix.as_bytes();
    proof {
        is_ascii_chars_encode_utf8(prefix@);
    }
    let len: usize = bytes.len();
    if len > DIGEST_HEX_LEN {
        return None;
    }
    let mut needle = String::new();
    let mut i: usize = 0;
    while i < len
        invariant
            i <= len,
            len == prefix@.len(),
            len == bytes@.len(),
            len <= DIGEST_HEX_LEN,
            forall|k: int| 0 <= k < len ==> prefix@[k] as u8 == #[trigger] bytes@[k],
            is_ascii_chars(prefix@),
            needle@.len() == i,
            forall|k: int| 0 <= k < i ==> is_hex_char(#[trigger] prefix@[k]),
            forall|k: int| 0 <= k < i ==> #[trigger] needle@[k] == ascii_lower(prefix@[k]),
        decreases len - i,
    {
        let b: u8 = bytes[i];
        let c: Ghost<char> = Ghost(prefix@[i as int]);
        assert(b == c@ as u8 && c@ <= '\u{7f}');
        let value: u32 = if 48 <= b && b <= 57 {
            (b - 48) as u32
        } else if 97 <= b && b <= 102 {
            (b - 87) as u32
        } else if 65 <= b && b <= 70 {
            (b - 55) as u32
        } else {
            assert(!is_hex_char(c@));
            return None;
        };
        proof {
            lemma_digit_tables();
            assert(hex_digits()[value as int] == ascii_lower(c@));
        }
        needle.append(hex_digit_str(value));
        i += 1;
    }
    assert(needle@ =~= lowercase(prefix@));
    Some(needle)
}

/// Tells whether a digest begins with `needle` as it is written.
fn digest_begins_with(digest: &str, needle: &str) -> (begins: bool)
    requires
        is_digest(digest@),
    ensures
        begins == needle@.is_prefix_of(digest@),
{
    proof {
        lemma_digest_is_ascii(digest@);
        is_ascii_chars_encode_utf8(digest@);
    }
    if !needle.is_ascii() {
        proof {
            if needle@.is_prefix_of(digest@) {
                assert forall|i: int| 0 <= i < needle@.len() implies '\0' <= #[trigger] needle@[i]
                    <= '\u{7f}' by {
                    assert(digest@.subrange(0, needle@.len() as int)[i] == digest@[i]);
                }
            }
        }
        return false;
    }
    proof {
        is_ascii_chars_encode_utf8(needle@);
    }
    let wanted = needle.as_bytes();
    let found = digest.as_bytes();
    let len: usize = wanted.len();
    if len > found.len() {
        return false;
    }
    let mut i: usize = 0;
    while i < len
        invariant
            i <= len,
            len == needle@.len(),
            len == wanted@.len(),
            len <= found@.len(),
            found@.len() == digest@.len(),
            is_ascii_chars(needle@),
            is_ascii_chars(digest@),
            forall|k: int| 0 <= k < len ==> needle@[k] as u8 == #[trigger] wanted@[k],
            forall|k: int| 0 <= k < digest@.len() ==> digest@[k] as u8 == #[trigger] found@[k],
            forall|k: int| 0 <= k < i ==> digest@[k] == #[trigger] needle@[k],
        decreases len - i,
    {
        if found[i] != wanted[i] {
            proof {
                if needle@.is_prefix_of(digest@) {
                    assert(digest@.subrange(0, len as int)[i as int] == digest@[i as int]);
                }
            }
            return false;
        }
        assert(digest@[i as int] <= '\u{7f}' && needle@[i as int] <= '\u{7f}');
        i += 1;
    }
    assert(digest@.subrange(0, len as int) =~= needle@);
    true
}

/// Tells whether a record can be searched.
pub fn can_mine(blob: &str) -> (fits: bool)
    ensures
        fits == minable(blob@),
{
    let len: usize = blob.as_bytes().len();
    len as u64 <= MAX_RECORD_BYTES - NONCE_SUFFIX_BYTES
}

/// Tries one nonce: appends it to the record, hashes the result, and tells
/// whether the digest begins with `needle` as it is written.
pub fn probe(blob: &str, needle: &str, nonce: u32) -> (matches: bool)
    requires
        minable(blob@),
    ensures
        matches == nonce_matches(blob@, needle@, nonce),
        is_digest(blob_digest(candidate_text(blob@, nonce))),
{
    let candidate = append_nonce_to_blob(blob, nonce);
    proof {
        lemma_candidate_byte_len(blob@, nonce);
    }
    let hash = hash_blob(candidate.as_str());
    digest_begins_with(hash.as_str(), needle)
}

/// The thread pool of the crate `rayon`.
#[verifier::external_type_specification]
#[verifier::external_body]
pub struct ExThreadPool(rayon::ThreadPool);

/// The error of the crate `rayon` with which no thread pool comes about.
#[verifier::external_type_specification]
#[verifier::external_body]
pub struct ExThreadPoolBuildError(rayon::ThreadPoolBuildError);

/// Calls `rayon::ThreadPoolBuilder::build` on a new builder: a thread pool
/// of its own for one search, with as many threads as the machine runs at
/// once, or the error with which none came about.
#[verifier::external_body]
fn build_worker_pool() -> Result<rayon::ThreadPool, rayon::ThreadPoolBuildError> {
    rayon::ThreadPoolBuilder::new().build()
}

/// Calls `find_any` of the crate `rayon` in the pool `pool`, on the nonces
/// from zero to `max_nonce`, both included, with `probe` as the predicate.
/// `find_any` returns an item for which the predicate held, whichever it
/// meets first, and none only after the predicate has failed for every
/// item.
#[verifier::external_body]
fn find_any_nonce(
    pool: &rayon::ThreadPool,
    blob: &str,
    needle: &str,
    max_nonce: u32,
) -> (found: Option<u32>)
    requires
        minable(blob@),
    ensures
        found matches Some(nonce) ==> nonce <= max_nonce && nonce_matches(blob@, needle@, nonce),
        found is None ==> forall|nonce: u32|
            nonce <= max_nonce ==> !nonce_matches(blob@, needle@, nonce),
{
    pool.install(
        || (0..=max_nonce).into_par_iter().find_any(|nonce| probe(blob, needle, *nonce)),
    )
}

/// Tries the nonces from zero to `max_nonce`, both included, one after
/// another, and returns the first that matches, or nothing where none of
/// them does.
pub fn find_first_nonce(blob: &str, needle: &str, max_nonce: u32) -> (found: Option<u32>)
    requires
        minable(blob@),
    ensures
        found matches Some(nonce) ==> nonce <= max_nonce && nonce_matches(blob@, needle@, nonce),
        found matches Some(nonce) ==> forall|earlier: u32|
            earlier < nonce ==> !nonce_matches(blob@, needle@, earlier),
        found is None ==> forall|nonce: u32|
            nonce <= max_nonce ==> !nonce_matches(blob@, needle@, nonce),
{
    let mut nonce: u32 = 0;
    loop
        invariant
            minable(blob@),
            nonce <= max_nonce,
            forall|n: u32| n < nonce ==> !nonce_matches(blob@, needle@, n),
        decreases max_nonce - nonce,
    {
        if probe(blob, needle, nonce) {
            return Some(nonce);
        }
        if nonce == max_nonce {
            return None;
        }
        nonce += 1;
    }
}

/// Miner carries out the search for a nonce that, appended to the commit
/// record, gives the record a digest with the wanted prefix.
pub struct Miner {
    prefix: String,
    blob: String,
    max_nonce: u32,
}

impl Miner {
    /// A miner searches all nonces of 32 bits, on a record that can be
    /// hashed with each of them.
    #[verifier::type_invariant]
    spec fn well_formed(&self) -> bool {
        self.max_nonce == u32::MAX && minable(self.blob@)
    }

    /// The prefix that the digest is to begin with.
    pub closed spec fn prefix(&self) -> Seq<char> {
        self.prefix@
    }

    /// The record to which the nonces are appended.
    pub closed spec fn blob(&self) -> Seq<char> {
        self.blob@
    }

    /// The largest nonce that is tried.
    pub closed spec fn max_nonce(&self) -> u32 {
        self.max_nonce
    }

    /// Creates a miner for the prefix `prefix` on the record `blob`. It
    /// searches the nonces from zero to the largest of 32 bits.
    pub fn new(prefix: String, blob: String) -> (miner: Miner)
        requires
            minable(blob@),
        ensures
            miner.prefix() == prefix@,
            miner.blob() == blob@,
            miner.max_nonce() == u32::MAX,
    {
        let max_nonce = u32::MAX;
        Miner { prefix, blob, max_nonce }
    }

    /// Searches for a nonce that gives the record a digest with the wanted
    /// prefix, and returns the record with that nonce and its digest. Nonce
    /// zero is tried first; the others are tried in parallel, and whichever
    /// is found first is taken. Fails exactly when no nonce of 32 bits
    /// solves the search. The miner stays as it was.
    ///
    /// The digest that is returned is the digest of the record that is
    /// returned, and it begins with the prefix: without regard to case, and
    /// as the prefix is written where it has no uppercase letter. With the
    /// empty prefix, and wherever nonce zero solves the search, the record
    /// with nonce zero is returned.
    pub fn solve(&mut self) -> (result: Result<(String, String), MiningError>)
        ensures
            *final(self) == *old(self),
            match result {
                Ok((blob, hash)) => exists|nonce: u32|
                    {
                        &&& #[trigger] winning(old(self).prefix(), old(self).blob(), nonce)
                        &&& blob@ == candidate_text(old(self).blob(), nonce)
                        &&& hash@ == blob_digest(blob@)
                    },
                Err(e) => e == MiningError::SolveError && forall|nonce: u32|
                    !#[trigger] winning(old(self).prefix(), old(self).blob(), nonce),
            },
            result is Ok <==> exists|nonce: u32| #[trigger]
                winning(old(self).prefix(), old(self).blob(), nonce),
            result matches Ok((_, hash)) ==> is_digest(hash@) && prefix_matches(
                old(self).prefix(),
                hash@,
            ),
            result matches Ok((_, hash)) ==> (has_no_uppercase(old(self).prefix())
                ==> old(self).prefix().is_prefix_of(hash@)),
            old(self).prefix().len() == 0 || winning(old(self).prefix(), old(self).blob(), 0) ==> (
            result matches Ok((blob, hash)) && blob@ == candidate_text(old(self).blob(), 0) && hash@
                == blob_digest(blob@)),
    {
        proof {
            use_type_invariant(&*self);
        }
        let winning_nonce = match self.find_correct_nonce() {
            Ok(nonce) => nonce,
            Err(e) => {
                return Err(e);
            },
        };
        let blob = append_nonce_to_blob(self.blob.as_str(), winning_nonce);
        proof {
            lemma_candidate_byte_len(self.blob@, winning_nonce);
        }
        let hash = hash_blob(blob.as_str());
        proof {
            if has_no_uppercase(self.prefix@) {
                lemma_exact_prefix(self.prefix@, hash@);
            }
        }
        Ok((blob, hash))
    }

    /// Searches for a nonce that solves the search: nonce zero if it does,
    /// else any that the parallel search meets, or where no thread pool
    /// comes about, the first in order.
    fn find_correct_nonce(&self) -> (result: Result<u32, MiningError>)
        ensures
            match result {
                Ok(nonce) => winning(self.prefix(), self.blob(), nonce) && (winning(
                    self.prefix(),
                    self.blob(),
                    0,
                ) ==> nonce == 0),
                Err(e) => e == MiningError::SolveError && forall|nonce: u32|
                    !#[trigger] winning(self.prefix(), self.blob(), nonce),
            },
            self.prefix().len() == 0 ==> result == Ok::<u32, MiningError>(0),
    {
        proof {
            use_type_invariant(self);
        }
        let needle = match hex_needle(self.prefix.as_str()) {
            Some(needle) => needle,
            None => {
                proof {
                    assert forall|nonce: u32| !#[trigger] winning(
                        self.prefix@,
                        self.blob@,
                        nonce,
                    ) by {
                        if winning(self.prefix@, self.blob@, nonce) {
                            lemma_only_hex_prefix_matches(
                                self.prefix@,
                                blob_digest(candidate_text(self.blob@, nonce)),
                            );
                        }
                    }
                }
                return Err(MiningError::SolveError);
            },
        };
        if probe(self.blob.as_str(), needle.as_str(), 0) {
            return Ok(0);
        }
        let found = match build_worker_pool() {
            Ok(pool) => find_any_nonce(&pool, self.blob.as_str(), needle.as_str(), self.max_nonce),
            Err(_) => find_first_nonce(self.blob.as_str(), needle.as_str(), self.max_nonce),
        };
        match found {
            Some(nonce) => Ok(nonce),
            None => Err(MiningError::SolveError),
        }
    }
}

} // verus!
