use solana_mint_generator::predicate::ends_with_suffix;

#[test]
fn suffix_match_basic() {
    let addr = b"abcpump".to_vec();
    let suffix = b"pump".to_vec();
    assert!(ends_with_suffix(&addr, &suffix));
}

#[test]
fn suffix_mismatch() {
    let addr = b"abcpumq".to_vec();
    let suffix = b"pump".to_vec();
    assert!(!ends_with_suffix(&addr, &suffix));
}

#[test]
fn suffix_case_sensitive() {
    let addr = b"abcPUMP".to_vec();
    let suffix = b"pump".to_vec();
    assert!(!ends_with_suffix(&addr, &suffix));
}

#[test]
fn suffix_empty_always_matches() {
    let addr = b"anything".to_vec();
    let suffix = Vec::new();
    assert!(ends_with_suffix(&addr, &suffix));
    let empty_addr: Vec<u8> = Vec::new();
    assert!(ends_with_suffix(&empty_addr, &suffix));
}

#[test]
fn suffix_longer_than_address() {
    let addr = b"ump".to_vec();
    let suffix = b"pump".to_vec();
    assert!(!ends_with_suffix(&addr, &suffix));
}

#[test]
fn suffix_equal_to_address() {
    let addr = b"bonk".to_vec();
    let suffix = b"bonk".to_vec();
    assert!(ends_with_suffix(&addr, &suffix));
}
