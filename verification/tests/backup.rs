use solana_mint_generator::backup::{format_backup_line, parse_backup_line};
use solana_mint_generator::record::AddressRecord;

fn record(pub_key: &[u8], private_key: &[u8], suffix_type: &[u8]) -> AddressRecord {
    AddressRecord {
        pub_key: pub_key.to_vec(),
        private_key: private_key.to_vec(),
        suffix_type: suffix_type.to_vec(),
    }
}

#[test]
fn format_is_comma_separated_line() {
    let r = record(b"PubKey1", b"Priv2", b"pump");
    let line = format_backup_line(&r);
    assert_eq!(line, b"PubKey1,Priv2,pump\n".to_vec());
}

#[test]
fn round_trip_identical_tuple() {
    let r = record(b"4Xnbonk", b"StV1DL6CwTryKyV", b"bonk");
    let line = format_backup_line(&r);
    let back = parse_backup_line(&line).expect("a formatted line parses");
    assert_eq!(back.pub_key, r.pub_key);
    assert_eq!(back.private_key, r.private_key);
    assert_eq!(back.suffix_type, r.suffix_type);
}

#[test]
fn round_trip_empty_suffix_field() {
    let r = record(b"A", b"B", b"");
    let line = format_backup_line(&r);
    let back = parse_backup_line(&line).expect("parses");
    assert_eq!(back.pub_key, b"A".to_vec());
    assert_eq!(back.private_key, b"B".to_vec());
    assert_eq!(back.suffix_type, Vec::<u8>::new());
}

#[test]
fn parse_rejects_without_terminator() {
    assert!(parse_backup_line(&b"a,b,c".to_vec()).is_none());
}

#[test]
fn parse_rejects_empty() {
    assert!(parse_backup_line(&Vec::new()).is_none());
}

#[test]
fn parse_rejects_single_field() {
    assert!(parse_backup_line(&b"abc\n".to_vec()).is_none());
}

#[test]
fn parse_rejects_two_fields() {
    assert!(parse_backup_line(&b"a,b\n".to_vec()).is_none());
}

#[test]
fn parse_keeps_extra_commas_in_suffix_field() {
    let line = b"a,b,c,d\n".to_vec();
    let back = parse_backup_line(&line).expect("parses");
    assert_eq!(back.pub_key, b"a".to_vec());
    assert_eq!(back.private_key, b"b".to_vec());
    assert_eq!(back.suffix_type, b"c,d".to_vec());
    // Re-formatting writes the very same line back.
    assert_eq!(format_backup_line(&back), line);
}
