use gitchain::errors::MiningError;
use gitchain::hasher::hash_blob;
use gitchain::miner::{can_mine, find_first_nonce, probe, Miner};
use gitchain::writer::append_nonce_to_blob;

const RECORD_WITH_PARENT: &str = "tree TreeTest\n\
                                  parent ParentTest\n\
                                  author AuthorTest <test@test.com> 1454691142 -0000\n\
                                  committer AuthorTest <test@test.com> 1454691142 -0000\n\n\
                                  MessageTest";

const RECORD_WITHOUT_PARENT: &str = "tree TreeTest\n\
                                     author AuthorTest <test@test.com> 1454691142 -0000\n\
                                     committer AuthorTest <test@test.com> 1454691142 -0000\n\n\
                                     MessageTest";

fn nonce_of(base: &str, candidate: &str) -> u32 {
    assert!(candidate.starts_with(base));
    let suffix = &candidate[base.len()..];
    assert_eq!(suffix.len(), 9);
    assert!(suffix.starts_with('\n'));
    u32::from_str_radix(&suffix[1..], 16).unwrap()
}

#[test]
fn test_miner_finds_a_correct_nonce() -> Result<(), MiningError> {
    let blob = "tree TreeTest\n\
                parent ParentTest\n\
                author AuthorTest <test@test.com> 1454691142 -0000\n\
                committer AuthorTest <test@test.com> 1454691142 -0000\n\n\
                MessageTest";
    let prefix = "0000".to_string();
    let mut miner = Miner::new(prefix, blob.to_string());
    let (_, hash) = miner.solve()?;
    assert!(hash.starts_with("0000"));
    Ok(())
}

#[test]
fn four_zeros_on_the_record_without_parent() {
    let mut miner = Miner::new("0000".to_string(), RECORD_WITHOUT_PARENT.to_string());
    let (blob, hash) = miner.solve().unwrap();
    assert!(hash.starts_with("0000"));
    assert_eq!(hash_blob(&blob), hash);
    let nonce = nonce_of(RECORD_WITHOUT_PARENT, &blob);
    assert_eq!(append_nonce_to_blob(RECORD_WITHOUT_PARENT, nonce), blob);
}

#[test]
fn empty_prefix_gives_the_candidate_of_nonce_zero() {
    let mut miner = Miner::new(String::new(), RECORD_WITH_PARENT.to_string());
    let (blob, hash) = miner.solve().unwrap();
    assert_eq!(blob, format!("{}\n00000000", RECORD_WITH_PARENT));
    assert_eq!(hash, "1cdf6512cd93fcf60f130d0a0cfbf7db1bf8d250");
}

#[test]
fn empty_prefix_on_the_record_without_parent() {
    let mut miner = Miner::new(String::new(), RECORD_WITHOUT_PARENT.to_string());
    let (blob, hash) = miner.solve().unwrap();
    assert_eq!(blob, format!("{}\n00000000", RECORD_WITHOUT_PARENT));
    assert_eq!(hash, "6563056ac1b0512cf8094f393206cea45cc63e2f");
}

#[test]
fn nonce_zero_is_taken_where_it_wins() {
    let mut miner = Miner::new("1c".to_string(), RECORD_WITH_PARENT.to_string());
    let (blob, hash) = miner.solve().unwrap();
    assert_eq!(nonce_of(RECORD_WITH_PARENT, &blob), 0);
    assert_eq!(hash, "1cdf6512cd93fcf60f130d0a0cfbf7db1bf8d250");
}

#[test]
fn digest_of_the_winner_begins_with_the_prefix() {
    let prefixes = [
        "0", "a", "f", "00", "ab", "7e", "000", "f0f", "0072", "ab2a", "39986", "5d702",
    ];
    for prefix in prefixes {
        let mut miner = Miner::new(prefix.to_string(), RECORD_WITH_PARENT.to_string());
        let (blob, hash) = miner.solve().unwrap();
        assert!(hash.starts_with(prefix));
        assert_eq!(hash_blob(&blob), hash);
        let nonce = nonce_of(RECORD_WITH_PARENT, &blob);
        assert_eq!(append_nonce_to_blob(RECORD_WITH_PARENT, nonce), blob);
    }
}

#[test]
fn whole_digest_as_prefix_is_found() {
    let prefix = "dc002ca1a1f76fb1ed1c3b1fb14b75bbeaa636d8";
    let mut miner = Miner::new(prefix.to_string(), RECORD_WITH_PARENT.to_string());
    let (blob, hash) = miner.solve().unwrap();
    assert_eq!(hash, prefix);
    assert_eq!(blob, format!("{}\n00000001", RECORD_WITH_PARENT));
}

#[test]
fn prefix_is_compared_without_regard_to_case() {
    let mut miner = Miner::new("AB".to_string(), RECORD_WITH_PARENT.to_string());
    let (blob, hash) = miner.solve().unwrap();
    assert!(hash.starts_with("ab"));
    assert_eq!(hash_blob(&blob), hash);
    let mut miner = Miner::new("F0f".to_string(), RECORD_WITH_PARENT.to_string());
    let (_, hash) = miner.solve().unwrap();
    assert!(hash.starts_with("f0f"));
}

#[test]
fn prefix_longer_than_a_digest_is_never_found() {
    let prefix = "0".repeat(41);
    let mut miner = Miner::new(prefix, RECORD_WITH_PARENT.to_string());
    assert_eq!(miner.solve(), Err(MiningError::SolveError));
}

#[test]
fn prefix_that_is_not_hexadecimal_is_never_found() {
    for prefix in ["g", "0x", "00 ", "abz", "é", "-1", "\n"] {
        let mut miner = Miner::new(prefix.to_string(), RECORD_WITH_PARENT.to_string());
        assert_eq!(miner.solve(), Err(MiningError::SolveError));
    }
}

#[test]
fn miner_can_be_asked_again() {
    let mut miner = Miner::new("00".to_string(), RECORD_WITH_PARENT.to_string());
    let (_, first) = miner.solve().unwrap();
    let (_, second) = miner.solve().unwrap();
    assert!(first.starts_with("00"));
    assert!(second.starts_with("00"));
}

#[test]
fn probe_tells_the_nonces_that_match() {
    assert!(probe(RECORD_WITH_PARENT, "0000", 48960));
    assert!(!probe(RECORD_WITH_PARENT, "0000", 0));
    assert!(!probe(RECORD_WITH_PARENT, "0000", 48959));
    assert!(probe(RECORD_WITH_PARENT, "1cdf6512cd93fcf60f130d0a0cfbf7db1bf8d250", 0));
    assert!(!probe(RECORD_WITH_PARENT, "1cdf6512cd93fcf60f130d0a0cfbf7db1bf8d2500", 0));
    assert!(!probe(RECORD_WITH_PARENT, "1cdf6512cd93fcf60f130d0a0cfbf7db1bf8d251", 0));
    assert!(probe(RECORD_WITH_PARENT, "", 12345));
}

#[test]
fn probe_compares_the_needle_as_it_is_written() {
    assert!(!probe(RECORD_WITH_PARENT, "1C", 0));
    assert!(probe(RECORD_WITH_PARENT, "1c", 0));
    assert!(!probe(RECORD_WITH_PARENT, "é", 0));
    assert!(!probe(RECORD_WITH_PARENT, "1cé", 0));
}

#[test]
fn records_of_ordinary_size_can_be_searched() {
    assert!(can_mine(""));
    assert!(can_mine(RECORD_WITH_PARENT));
    assert!(can_mine(&"m".repeat(100_000)));
}

#[test]
fn first_nonce_in_order_is_the_smallest_that_matches() {
    assert_eq!(find_first_nonce(RECORD_WITH_PARENT, "", u32::MAX), Some(0));
    assert_eq!(find_first_nonce(RECORD_WITH_PARENT, "0", u32::MAX), Some(2));
    assert_eq!(find_first_nonce(RECORD_WITH_PARENT, "ab", u32::MAX), Some(22));
    assert_eq!(find_first_nonce(RECORD_WITH_PARENT, "00", u32::MAX), Some(1007));
    assert_eq!(find_first_nonce(RECORD_WITH_PARENT, "000", u32::MAX), Some(1143));
    assert_eq!(find_first_nonce(RECORD_WITH_PARENT, "0000", u32::MAX), Some(48960));
}

#[test]
fn search_in_order_ends_at_the_largest_nonce() {
    assert_eq!(find_first_nonce(RECORD_WITH_PARENT, "0000", 48959), None);
    assert_eq!(find_first_nonce(RECORD_WITH_PARENT, "0000", 48960), Some(48960));
    assert_eq!(find_first_nonce(RECORD_WITH_PARENT, "0", 0), None);
    assert_eq!(find_first_nonce(RECORD_WITH_PARENT, "0", 1), None);
    assert_eq!(find_first_nonce(RECORD_WITH_PARENT, "0", 2), Some(2));
    assert_eq!(find_first_nonce(RECORD_WITH_PARENT, "1c", 0), Some(0));
}

#[test]
fn search_in_order_compares_the_needle_as_it_is_written() {
    assert_eq!(find_first_nonce(RECORD_WITH_PARENT, "AB", 5000), None);
    assert_eq!(find_first_nonce(RECORD_WITH_PARENT, "xyz", 5000), None);
}
