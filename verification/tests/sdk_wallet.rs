use relyo::address::Address;
use relyo::client::RelyoClient;
use relyo::crypto::{sha3_256, KeyPair, SecretKey};
use relyo::error::RelyoError;
use relyo::keystore::KeyStore;
use relyo::merchant::{MerchantApi, PaymentRequest};
use relyo::token::relyo_config;
use relyo::transaction::{TransactionHash, TransactionType};
use relyo::wallet::Wallet;
use std::path::PathBuf;

#[test]
fn test_client_new_wallet() {
    let client = RelyoClient::with_new_wallet();
    assert!(client.address().is_some());
    assert!(client.public_key_hex().is_some());
}

#[test]
fn test_client_transfer() {
    let client = RelyoClient::with_new_wallet();
    let receiver = RelyoClient::with_new_wallet();
    let tx = client
        .transfer(receiver.address().unwrap().clone(), 1_000_000, 1, TransactionHash::zero(), TransactionHash::zero())
        .unwrap();
    assert!(RelyoClient::verify_transaction(&tx).is_ok());
}

#[test]
fn test_readonly_client() {
    let client = RelyoClient::new();
    assert!(client.address().is_none());
    let addr = RelyoClient::validate_address(Address::from_public_key(&KeyPair::generate().public_key).as_ref());
    assert!(addr.is_ok());
}

#[test]
fn readonly_client_cannot_transfer() {
    let client = RelyoClient::default();
    let to = Address::from_public_key(&KeyPair::generate().public_key);
    match client.transfer(to, 1, 1, TransactionHash::zero(), TransactionHash::zero()) {
        Err(RelyoError::Wallet(m)) => assert_eq!(m, "no keypair loaded"),
        other => panic!("expected a wallet error, got {:?}", other),
    }
    assert!(client.public_key_hex().is_none());
    assert!(RelyoClient::validate_address("nope").is_err());
}

#[test]
fn client_from_secret_derives_the_same_address() {
    let kp = KeyPair::generate();
    let client = RelyoClient::with_secret(&kp.secret());
    assert_eq!(client.address().unwrap(), &Address::from_public_key(&kp.public_key));
    assert_eq!(client.public_key_hex().unwrap(), kp.public_key.to_hex());
    assert_eq!(RelyoClient::address_from_pubkey(&kp.public_key), Address::from_public_key(&kp.public_key));
}

#[test]
fn test_wallet_create_and_open() {
    let path = PathBuf::from("wallet.key");
    let (wallet, store) = Wallet::create(path.clone(), "secret123").unwrap();
    let addr = wallet.address().clone();
    let reopened = Wallet::open(path, &store, "secret123").unwrap();
    assert_eq!(reopened.address(), &addr);
}

#[test]
fn test_create_transaction() {
    let (wallet, _store) = Wallet::create(PathBuf::from("wallet.key"), "pass").unwrap();
    let recv_kp = KeyPair::generate();
    let recv = Address::from_public_key(&recv_kp.public_key);
    let tx = wallet.create_transaction(recv, 1_000_000, 1, TransactionHash::zero(), TransactionHash::zero());
    assert!(tx.verify_signature().is_ok());
    assert!(tx.verify_sender().is_ok());
}

#[test]
fn wallet_transactions_use_the_base_fee() {
    let (wallet, _store) = Wallet::create(PathBuf::from("w.key"), "pass").unwrap();
    let recv = Address::from_public_key(&KeyPair::generate().public_key);
    let tx = wallet.create_transaction_with_pow(recv.clone(), 42, 7, TransactionHash([1u8; 32]), TransactionHash([2u8; 32]));
    assert_eq!(tx.fee, relyo_config().base_fee);
    assert_eq!(tx.amount, 42);
    assert_eq!(tx.nonce, 7);
    assert_eq!(tx.receiver, recv);
    assert_eq!(&tx.sender, wallet.address());
    assert_eq!(tx.tx_type, TransactionType::Transfer);
    assert_eq!(tx.parent_1, TransactionHash([1u8; 32]));
    assert_eq!(wallet.public_key_hex(), wallet.public_key().to_hex());
    let sig = wallet.sign(b"hello");
    assert!(wallet.public_key().verify(b"hello", &sig).is_ok());
}

#[test]
fn test_keystore_roundtrip() {
    let kp = KeyPair::generate();
    let addr = Address::from_public_key(&kp.public_key);
    let store = KeyStore::seal(&kp.secret(), "test-password").unwrap();
    let loaded = store.open("test-password").unwrap();
    let loaded_addr = Address::from_public_key(&loaded.public_key);
    assert_eq!(addr, loaded_addr);
}

#[test]
fn test_wrong_passphrase() {
    let kp = KeyPair::generate();
    let store = KeyStore::seal(&kp.secret(), "correct").unwrap();
    assert!(store.open("wrong").is_err());
}

#[test]
fn test_different_wallets_different_ciphertext() {
    let kp = KeyPair::generate();
    let store1 = KeyStore::seal(&kp.secret(), "same-password").unwrap();
    let store2 = KeyStore::seal(&kp.secret(), "same-password").unwrap();
    assert_ne!(store1.salt, store2.salt);
    assert_ne!(store1.ciphertext, store2.ciphertext);
}

#[test]
fn keystore_with_fixed_salt_is_deterministic_and_checked() {
    let kp = KeyPair::generate();
    let s1 = KeyStore::seal_with(&kp.secret(), "pw", [5u8; 32], [6u8; 12]).unwrap();
    let s2 = KeyStore::seal_with(&kp.secret(), "pw", [5u8; 32], [6u8; 12]).unwrap();
    assert_eq!(s1.ciphertext, s2.ciphertext);
    assert_eq!(s1.version, 2);
    assert_eq!(s1.ciphertext.len(), 32 + 16);
    assert_eq!(s1.pubkey_checksum, sha3_256(kp.public_key.as_bytes()));
    match s1.open("other") {
        Err(RelyoError::Wallet(m)) => assert_eq!(m, "incorrect passphrase or corrupted keystore"),
        other => panic!("expected a wallet error, got {:?}", other.map(|k| k.public_key)),
    }
    let mut bad = KeyStore::seal_with(&kp.secret(), "pw", [5u8; 32], [6u8; 12]).unwrap();
    bad.version = 9;
    match bad.open("pw") {
        Err(RelyoError::Wallet(m)) => assert_eq!(m, "unsupported keystore version: 9"),
        other => panic!("expected a wallet error, got {:?}", other.map(|k| k.public_key)),
    }
}

#[test]
fn legacy_keystore_still_opens() {
    let kp = KeyPair::generate();
    let secret = *kp.secret().as_bytes();
    let salt = [3u8; 32];
    let mut input = b"old-pass".to_vec();
    input.extend_from_slice(&salt);
    let mut key = sha3_256(&input);
    for _ in 0..10_000 {
        key = sha3_256(&key);
    }
    let ciphertext: Vec<u8> = secret.iter().zip(key.iter().cycle()).map(|(s, k)| s ^ k).collect();
    let store = KeyStore { ciphertext, salt, nonce: [0u8; 12], pubkey_checksum: sha3_256(&secret), version: 1 };
    let opened = store.open("old-pass").unwrap();
    assert_eq!(opened.public_key, kp.public_key);
    assert!(store.open("new-pass").is_err());
    let restored = KeyPair::from_secret(&SecretKey::from_bytes(secret));
    assert_eq!(restored.public_key, opened.public_key);
}

#[test]
fn payment_requests_and_verification() {
    let kp = KeyPair::generate();
    let api = MerchantApi::new(kp);
    let req = api.payment_request_at(1_000_000_000, "Order #123", 3600, 1_700_000_000_000);
    assert_eq!(req.amount, 1_000_000_000);
    assert_eq!(req.expires_at, 1_700_000_000_000 + 3_600_000);
    assert_eq!(req.merchant_address, api.address().as_str());
    assert_eq!(req.memo, "Order #123");
    let text = format!("{}{}{}{}", api.address().as_str(), 1_000_000_000u64, 1_700_000_000_000u64, "Order #123");
    let h = sha3_256(text.as_bytes());
    let expected: String = h[..16].iter().map(|b| format!("{:02x}", b)).collect();
    assert_eq!(req.reference_id, expected);
    assert_eq!(req.reference_id.len(), 32);

    let payer = RelyoClient::with_new_wallet();
    let tx = payer
        .transfer(api.address().clone(), 1_000_000_000, 1, TransactionHash::zero(), TransactionHash::zero())
        .unwrap();
    let open_req = PaymentRequest {
        merchant_address: req.merchant_address.clone(),
        amount: req.amount,
        reference_id: req.reference_id.clone(),
        memo: req.memo.clone(),
        expires_at: u64::MAX,
    };
    assert_eq!(api.verify_payment(&tx, &open_req).unwrap(), true);
    let short = payer
        .transfer(api.address().clone(), 999_999_999, 2, TransactionHash::zero(), TransactionHash::zero())
        .unwrap();
    assert_eq!(api.verify_payment(&short, &open_req).unwrap(), false);
    let expired = PaymentRequest { expires_at: 0, ..open_req };
    assert_eq!(api.verify_payment(&tx, &expired).unwrap(), false);
}

#[test]
fn refunds_go_back_to_the_payer() {
    let api = MerchantApi::new(KeyPair::generate());
    let payer = RelyoClient::with_new_wallet();
    let tx = payer
        .transfer(api.address().clone(), 5_000, 1, TransactionHash::zero(), TransactionHash::zero())
        .unwrap();
    let refund = api.create_refund(&tx, 3, TransactionHash::zero(), TransactionHash::zero());
    assert_eq!(&refund.receiver, payer.address().unwrap());
    assert_eq!(refund.amount, 5_000);
    assert_eq!(&refund.sender, api.address());
    assert!(refund.validate().is_ok());
}

#[test]
fn transfer_from_tips_takes_next_nonce_and_parents() {
    let (wallet, _store) = Wallet::create(PathBuf::from("wallet.key"), "pass").unwrap();
    let to = Address::from_public_key(&KeyPair::generate().public_key);
    let t1 = TransactionHash([1u8; 32]);
    let t2 = TransactionHash([2u8; 32]);
    let tx = wallet.transfer_from_tips(to.clone(), 500, 4, &[t1, t2, TransactionHash([3u8; 32])]).unwrap();
    assert_eq!(tx.nonce, 5);
    assert_eq!(tx.parent_1, t1);
    assert_eq!(tx.parent_2, t2);
    assert_eq!(tx.amount, 500);
    assert!(tx.verify_signature().is_ok());
    let one = wallet.transfer_from_tips(to.clone(), 1, 0, &[t1]).unwrap();
    assert_eq!((one.parent_1, one.parent_2), (t1, t1));
    let none = wallet.transfer_from_tips(to.clone(), 1, 0, &[]).unwrap();
    assert_eq!((none.parent_1, none.parent_2), (TransactionHash::zero(), TransactionHash::zero()));
    assert!(wallet.transfer_from_tips(to, 1, u64::MAX, &[t1]).is_none());
}
