use relyo::crypto::{batch_verify, derive_child_key, sha3_256, sha3_256_multi, KeyPair};

#[test]
fn test_sign_verify() {
    let kp = KeyPair::generate();
    let msg = b"hello relyo";
    let sig = kp.sign(msg);
    assert!(kp.public_key.verify(msg, &sig).is_ok());
}

#[test]
fn test_invalid_signature() {
    let kp1 = KeyPair::generate();
    let kp2 = KeyPair::generate();
    let msg = b"hello relyo";
    let sig = kp1.sign(msg);
    assert!(kp2.public_key.verify(msg, &sig).is_err());
}

#[test]
fn test_keypair_restore() {
    let kp = KeyPair::generate();
    let secret = kp.secret();
    let restored = KeyPair::from_secret(&secret);
    assert_eq!(kp.public_key, restored.public_key);
}

#[test]
fn test_sha3_deterministic() {
    let hash = sha3_256(b"relyo");
    assert_eq!(hash.len(), 32);
    assert_eq!(hash, sha3_256(b"relyo"));
}

#[test]
fn test_child_key_derivation() {
    let kp = KeyPair::generate();
    let child0 = kp.derive_child(0);
    let child1 = kp.derive_child(1);
    assert_ne!(child0.public_key, child1.public_key);
    let child0_again = kp.derive_child(0);
    assert_eq!(child0.public_key, child0_again.public_key);
    assert_ne!(kp.public_key, child0.public_key);
}

#[test]
fn test_batch_verify_success() {
    let kp1 = KeyPair::generate();
    let kp2 = KeyPair::generate();
    let msg1 = b"message one";
    let msg2 = b"message two";
    let sig1 = kp1.sign(msg1);
    let sig2 = kp2.sign(msg2);

    let result = batch_verify(
        &[msg1.as_slice(), msg2.as_slice()],
        &[&sig1, &sig2],
        &[&kp1.public_key, &kp2.public_key],
    );
    assert!(result.is_ok());
}

#[test]
fn test_batch_verify_failure() {
    let kp1 = KeyPair::generate();
    let kp2 = KeyPair::generate();
    let msg1 = b"message one";
    let msg2 = b"message two";
    let sig1 = kp1.sign(msg1);
    let sig2 = kp2.sign(msg2);

    let result = batch_verify(
        &[msg1.as_slice(), msg2.as_slice()],
        &[&sig1, &sig2],
        &[&kp1.public_key, &kp1.public_key],
    );
    assert!(result.is_err());
}

#[test]
fn test_secret_key_zeroize() {
    let kp = KeyPair::generate();
    let secret = kp.secret();
    let bytes_copy = *secret.as_bytes();
    let restored = KeyPair::from_secret(&secret);
    assert_eq!(kp.public_key, restored.public_key);
    drop(secret);
    let _ = bytes_copy;
}

#[test]
fn batch_verify_counts_failures_and_length_mismatch() {
    let kp = KeyPair::generate();
    let other = KeyPair::generate();
    let sig = kp.sign(b"a");
    match batch_verify(&[b"a".as_slice(), b"b".as_slice()], &[&sig, &sig], &[&kp.public_key, &other.public_key]) {
        Err(relyo::error::RelyoError::BatchVerifyError { count, total }) => {
            assert_eq!(count, 1);
            assert_eq!(total, 2);
        }
        _ => panic!("expected a batch error"),
    }
    match batch_verify(&[b"a".as_slice()], &[], &[]) {
        Err(relyo::error::RelyoError::BatchVerifyError { count, total }) => {
            assert_eq!(count, 0);
            assert_eq!(total, 1);
        }
        _ => panic!("expected a batch error"),
    }
}

#[test]
fn child_key_matches_derivation_function() {
    let kp = KeyPair::generate();
    let child = kp.derive_child(7);
    let seed = derive_child_key(&kp.secret(), 7);
    assert_eq!(child.secret().as_bytes(), seed.as_bytes());
    assert_ne!(child.secret().as_bytes(), kp.secret().as_bytes());
}

#[test]
fn sha3_multi_hashes_the_concatenation() {
    let joined = sha3_256(b"helloworld");
    let parts = sha3_256_multi(&[b"hello".as_slice(), b"world".as_slice()]);
    assert_eq!(joined, parts);
    assert_ne!(sha3_256(b"hello"), sha3_256(b"world"));
}

#[test]
fn sha3_known_vector() {
    let h = sha3_256(b"");
    let hex: String = h.iter().map(|b| format!("{:02x}", b)).collect();
    assert_eq!(hex, "a7ffc6f8bf1ed76651c14756a061d662f580ff4de43b49fa82d80a4b80f8434a");
}
