use encstore::crypto::KeyManager;
use encstore::types::{Algorithm, StorageError};

fn rsa_keys() -> (String, String) {
    let key = openssl::rsa::Rsa::generate(2048).unwrap();
    let priv_pem = String::from_utf8(key.private_key_to_pem().unwrap()).unwrap();
    let pub_pem = String::from_utf8(key.public_key_to_pem_pkcs1().unwrap()).unwrap();
    (pub_pem, priv_pem)
}

fn manager() -> KeyManager {
    let (pub_pem, priv_pem) = rsa_keys();
    KeyManager::new("test-secret".to_string(), pub_pem, priv_pem)
}

fn payload(len: usize) -> Vec<u8> {
    let mut data = Vec::new();
    for i in 0..len {
        data.push((i % 251) as u8);
    }
    data
}

#[test]
fn aes_round_trip_various_lengths() {
    let km = manager();
    for len in [0usize, 1, 2, 15, 16, 17, 100, 1000] {
        let data = payload(len);
        let cipher = km.encrypt_aes(&data).unwrap();
        assert_eq!(cipher.len(), data.len());
        let plain = km.decrypt_aes(&cipher).unwrap();
        assert_eq!(plain, data);
    }
}

#[test]
fn aes_deterministic() {
    let km = manager();
    let data = payload(64);
    let c1 = km.encrypt_aes(&data).unwrap();
    let c2 = km.encrypt_aes(&data).unwrap();
    assert_eq!(c1, c2);
}

#[test]
fn aes_ciphertext_differs_from_plaintext() {
    let km = manager();
    let cipher = km.encrypt_aes(b"hi").unwrap();
    assert_ne!(cipher.as_slice(), b"hi");
}

#[test]
fn aes_matches_direct_openssl_computation() {
    let km = manager();
    let data = payload(33);
    let salt: [u8; 16] = [102, 0, 21, 56, 172, 34, 123, 32, 45, 250, 6, 42, 80, 66, 190, 200];
    let key = openssl::sha::sha256(b"test-secret");
    let expected = openssl::symm::encrypt(
        openssl::symm::Cipher::aes_256_ctr(),
        &key,
        Some(&salt),
        &data,
    )
    .unwrap();
    assert_eq!(km.encrypt_aes(&data).unwrap(), expected);
}

#[test]
fn aes_different_secrets_give_different_ciphertexts() {
    let (pub_pem, priv_pem) = rsa_keys();
    let km1 = KeyManager::new("secret-one".to_string(), pub_pem.clone(), priv_pem.clone());
    let km2 = KeyManager::new("secret-two".to_string(), pub_pem, priv_pem);
    let data = payload(32);
    assert_ne!(km1.encrypt_aes(&data).unwrap(), km2.encrypt_aes(&data).unwrap());
}

#[test]
fn aes_involution() {
    let km = manager();
    let data = payload(70);
    // decrypting is the same operation as encrypting
    assert_eq!(km.decrypt_aes(&data).unwrap(), km.encrypt_aes(&data).unwrap());
    // so encrypting twice recovers the payload
    let once = km.encrypt_aes(&data).unwrap();
    assert_eq!(km.encrypt_aes(&once).unwrap(), data);
}

#[test]
fn aes_ciphertexts_differ_as_plaintexts_do() {
    let km = manager();
    let p = payload(48);
    let mut q = payload(48);
    for i in 0..q.len() {
        q[i] ^= (i as u8).wrapping_mul(37).wrapping_add(5);
    }
    let c = km.encrypt_aes(&p).unwrap();
    let d = km.encrypt_aes(&q).unwrap();
    for i in 0..p.len() {
        assert_eq!(c[i] ^ d[i], p[i] ^ q[i]);
    }
}

#[test]
fn rsa_round_trip_various_lengths() {
    let km = manager();
    for len in [0usize, 1, 127, 128, 129, 500] {
        let data = payload(len);
        let cipher = km.encrypt_rsa(&data).unwrap();
        assert_eq!(cipher.len(), 256 * ((len + 127) / 128));
        let plain = km.decrypt_rsa(&cipher).unwrap();
        assert_eq!(plain, data);
    }
}

#[test]
fn rsa_ciphertext_block_structure() {
    let km = manager();
    let cipher = km.encrypt_rsa(&payload(129)).unwrap();
    assert_eq!(cipher.len(), 512);
    let cipher = km.encrypt_rsa(b"hi").unwrap();
    assert_eq!(cipher.len(), 256);
    assert_ne!(&cipher[..2], b"hi");
}

#[test]
fn rsa_rejects_partial_block() {
    let km = manager();
    let short = payload(100);
    assert_eq!(km.decrypt_rsa(&short), Err(StorageError::InvalidCiphertextLength));
    let off_by_one = payload(257);
    assert_eq!(km.decrypt_rsa(&off_by_one), Err(StorageError::InvalidCiphertextLength));
}

#[test]
fn rsa_rejects_unparsable_keys() {
    let km = KeyManager::new(
        "test-secret".to_string(),
        "not a pem".to_string(),
        "not a pem either".to_string(),
    );
    assert_eq!(km.encrypt_rsa(b"x"), Err(StorageError::KeyParseFailure));
    let block = vec![0u8; 256];
    assert_eq!(km.decrypt_rsa(&block), Err(StorageError::KeyParseFailure));
    // the length check comes before the key is touched
    let short = vec![0u8; 100];
    assert_eq!(km.decrypt_rsa(&short), Err(StorageError::InvalidCiphertextLength));
}

#[test]
fn rsa_rejects_passphrase_protected_private_key() {
    let key = openssl::rsa::Rsa::generate(2048).unwrap();
    let pub_pem = String::from_utf8(key.public_key_to_pem_pkcs1().unwrap()).unwrap();
    let protected = key
        .private_key_to_pem_passphrase(openssl::symm::Cipher::aes_256_cbc(), b"hunter2")
        .unwrap();
    let priv_pem = String::from_utf8(protected).unwrap();
    let km = KeyManager::new("test-secret".to_string(), pub_pem, priv_pem);
    assert_eq!(km.encrypt_rsa(b"x"), Err(StorageError::KeyParseFailure));
    let block = vec![0u8; 256];
    assert_eq!(km.decrypt_rsa(&block), Err(StorageError::KeyParseFailure));
}

#[test]
fn rsa_rejects_encrypted_public_pem_without_prompting() {
    let key = openssl::rsa::Rsa::generate(2048).unwrap();
    let priv_pem = String::from_utf8(key.private_key_to_pem().unwrap()).unwrap();
    let fake_pub = "-----BEGIN RSA PUBLIC KEY-----\nProc-Type: 4,ENCRYPTED\nDEK-Info: AES-128-CBC,0B0B0B0B0B0B0B0B0B0B0B0B0B0B0B0B\n\nAAAA\n-----END RSA PUBLIC KEY-----\n"
        .to_string();
    let km = KeyManager::new("test-secret".to_string(), fake_pub, priv_pem);
    assert_eq!(km.encrypt_rsa(b"x"), Err(StorageError::KeyParseFailure));
}

#[test]
fn rsa_rejects_mismatched_pair() {
    let (pub_pem, _) = rsa_keys();
    let (_, other_priv) = rsa_keys();
    let km = KeyManager::new("test-secret".to_string(), pub_pem, other_priv);
    assert_eq!(km.encrypt_rsa(b"x"), Err(StorageError::KeyParseFailure));
}

#[test]
fn rsa_rejects_garbage_block() {
    let km = manager();
    let block = vec![7u8; 256];
    assert_eq!(km.decrypt_rsa(&block), Err(StorageError::CipherRejected));
}

#[test]
fn keys_ok_accepts_good_pair_and_rejects_bad_material() {
    let km = manager();
    assert!(km.keys_ok());
    let (pub_pem, _) = rsa_keys();
    let (_, other_priv) = rsa_keys();
    let mismatched = KeyManager::new("s".to_string(), pub_pem, other_priv);
    assert!(!mismatched.keys_ok());
    let garbage = KeyManager::new("s".to_string(), "nope".to_string(), "nope".to_string());
    assert!(!garbage.keys_ok());
}

#[test]
fn algorithm_codes() {
    assert_eq!(Algorithm::from_code(0), Some(Algorithm::Aes));
    assert_eq!(Algorithm::from_code(1), Some(Algorithm::Rsa));
    assert_eq!(Algorithm::from_code(2), None);
    assert_eq!(Algorithm::from_code(255), None);
}
