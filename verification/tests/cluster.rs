use amm::cluster::{contains_bytes, explorer_suffix};

#[test]
fn explorer_links_follow_the_cluster() {
    assert_eq!(explorer_suffix("https://api.devnet.solana.com"), "?cluster=devnet");
    assert_eq!(explorer_suffix("https://api.testnet.solana.com"), "?cluster=testnet");
    assert_eq!(explorer_suffix("http://127.0.0.1:8899"), "?cluster=custom");
    assert_eq!(explorer_suffix("http://localhost:8899"), "?cluster=custom");
    assert_eq!(explorer_suffix("https://api.mainnet-beta.solana.com"), "");
    // Devnet is checked first.
    assert_eq!(explorer_suffix("http://localhost/devnet"), "?cluster=devnet");
}

#[test]
fn byte_search_finds_a_needle_anywhere_or_nowhere() {
    assert!(contains_bytes(b"abcdef", b"abc"));
    assert!(contains_bytes(b"abcdef", b"def"));
    assert!(contains_bytes(b"abcdef", b""));
    assert!(contains_bytes(b"", b""));
    assert!(!contains_bytes(b"abcdef", b"abd"));
    assert!(!contains_bytes(b"ab", b"abc"));
    assert!(!contains_bytes(b"", b"a"));
}
