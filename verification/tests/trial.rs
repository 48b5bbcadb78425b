use solana_mint_generator::record::make_record;
use solana_mint_generator::trial::{generate_trial, TrialKey};

#[test]
fn generated_trial_has_sixty_four_secret_bytes() {
    let t = generate_trial();
    assert_eq!(t.secret.len(), 64);
    assert!(!t.address.is_empty());
}

#[test]
fn generated_address_matches_the_keypair() {
    // The last 32 bytes of the encoding are the public key; the address is
    // its base58 text, so decoding the address must give those bytes back.
    let t = generate_trial();
    let addr = String::from_utf8(t.address.clone()).expect("base58 text is ASCII");
    let decoded = bs58::decode(&addr).into_vec().expect("the address is base58");
    assert_eq!(decoded.as_slice(), &t.secret[32..]);
}

#[test]
fn record_encodes_private_key_as_base58() {
    let key = TrialKey {
        secret: b"hello world".to_vec(),
        address: b"3yZe7d".to_vec(),
    };
    let record = make_record(&key, &b"pump".to_vec());
    // The documented base58 rendering of "hello world".
    assert_eq!(record.private_key, b"StV1DL6CwTryKyV".to_vec());
    assert_eq!(record.pub_key, b"3yZe7d".to_vec());
    assert_eq!(record.suffix_type, b"pump".to_vec());
}

#[test]
fn record_of_a_real_trial_decodes_to_its_secret() {
    let t = generate_trial();
    let record = make_record(&t, &b"bonk".to_vec());
    let encoded = String::from_utf8(record.private_key).expect("base58 text is ASCII");
    let decoded = bs58::decode(&encoded).into_vec().expect("round trip");
    assert_eq!(decoded, t.secret);
}
