use relyo::consensus_check::{consensus_hash_of, consensus_rules_intact, normalize_newlines};

#[test]
fn newlines_are_normalized() {
    assert_eq!(normalize_newlines("a\r\nb\r\n"), "a\nb\n");
    assert_eq!(normalize_newlines("\r\r\n\n\r"), "\r\n\n\r");
    assert_eq!(normalize_newlines("no breaks"), "no breaks");
    assert_eq!(normalize_newlines("é\r\nü"), "é\nü");
    assert_eq!(normalize_newlines(""), "");
}

#[test]
fn consensus_hash_is_blake3_of_the_normalized_text() {
    let text = "pub const TOTAL_SUPPLY: u64 = 25_000_000_000;\r\npub const CHAIN_ID: u32 = 1;\r\n";
    let expected = blake3::hash(text.replace("\r\n", "\n").as_bytes()).to_hex().to_string();
    assert_eq!(consensus_hash_of(text), expected);
    assert_eq!(consensus_hash_of(&text.replace("\r\n", "\n")), expected);
}

#[test]
fn tampered_constants_are_detected() {
    let text = "pub const TOTAL_SUPPLY: u64 = 25_000_000_000;\n";
    let expected = blake3::hash(text.as_bytes()).to_hex().to_string();
    assert!(consensus_rules_intact(text, &expected));
    assert!(!consensus_rules_intact("pub const TOTAL_SUPPLY: u64 = 26_000_000_000;\n", &expected));
}
