use relyo::address::{Address, AddressType};
use relyo::crypto::KeyPair;

#[test]
fn test_address_from_pubkey() {
    let kp = KeyPair::generate();
    let addr = Address::from_public_key(&kp.public_key);
    assert!(Address::validate(addr.as_str()).is_ok());
}

#[test]
fn test_address_deterministic() {
    let kp = KeyPair::generate();
    let a1 = Address::from_public_key(&kp.public_key);
    let a2 = Address::from_public_key(&kp.public_key);
    assert_eq!(a1, a2);
}

#[test]
fn test_invalid_address() {
    assert!(Address::validate("invalid").is_err());
}

#[test]
fn test_genesis_address() {
    let g = Address::genesis();
    assert!(Address::validate(g.as_str()).is_ok());
}

#[test]
fn test_address_types() {
    let kp = KeyPair::generate();
    let standard = Address::from_public_key(&kp.public_key);
    let staking = Address::staking(&kp.public_key);
    let treasury = Address::treasury(&kp.public_key);

    assert_eq!(standard.address_type().unwrap(), AddressType::Standard);
    assert_eq!(staking.address_type().unwrap(), AddressType::Staking);
    assert_eq!(treasury.address_type().unwrap(), AddressType::Treasury);

    assert_ne!(standard, staking);
    assert_ne!(standard, treasury);
    assert_ne!(staking, treasury);
}

#[test]
fn test_address_bytes_roundtrip() {
    let kp = KeyPair::generate();
    let addr = Address::from_public_key(&kp.public_key);
    let bytes = addr.to_bytes().unwrap();
    let addr2 = Address::from_bytes(&bytes).unwrap();
    assert_eq!(addr, addr2);
}

#[test]
fn test_address_checksum() {
    let kp = KeyPair::generate();
    let addr = Address::from_public_key(&kp.public_key);
    assert!(addr.is_valid_checksum());
}

#[test]
fn parse_accepts_exactly_valid_texts() {
    let kp = KeyPair::generate();
    let addr = Address::from_public_key(&kp.public_key);
    let parsed = Address::parse(addr.as_str()).unwrap();
    assert_eq!(parsed, addr);
    assert!(Address::parse("invalid").is_err());
    assert!(Address::parse("").is_err());
}

#[test]
fn corrupted_checksum_is_rejected() {
    let kp = KeyPair::generate();
    let addr = Address::from_public_key(&kp.public_key);
    let mut bytes = addr.to_bytes().unwrap();
    let last = bytes.len() - 1;
    bytes[last] ^= 0x01;
    assert!(Address::from_bytes(&bytes).is_err());
    let mut short = addr.to_bytes().unwrap();
    short.pop();
    assert!(Address::from_bytes(&short).is_err());
}
