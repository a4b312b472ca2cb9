//! Commit records whose digest carries a chosen hexadecimal prefix.
//!
//! A commit record is serialised to the exact text that a git object store
//! hashes, a nonce is appended to it, and the nonce space is searched until
//! the digest of the record begins with the wanted prefix.

pub mod errors;
pub mod hasher;
pub mod lines;
pub mod miner;
pub mod record;
pub mod text;
pub mod writer;
