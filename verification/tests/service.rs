use encstore::crypto::KeyManager;
use encstore::service::{transform_encrypt, StorageService};
use encstore::store::name_is_safe;
use encstore::types::{Algorithm, StorageError};

fn service() -> StorageService {
    let key = openssl::rsa::Rsa::generate(2048).unwrap();
    let priv_pem = String::from_utf8(key.private_key_to_pem().unwrap()).unwrap();
    let pub_pem = String::from_utf8(key.public_key_to_pem_pkcs1().unwrap()).unwrap();
    StorageService::new(KeyManager::new("test-secret".to_string(), pub_pem, priv_pem))
}

#[test]
fn stores_and_retrieves() {
    let mut svc = service();
    let name = "a.txt".to_string();
    let size = svc.upload_file(&name, b"payload".to_vec()).unwrap();
    assert_eq!(size, 7);
    assert_eq!(svc.download_file(&name).unwrap(), b"payload".to_vec());
}

#[test]
fn overwrite_keeps_only_second_content() {
    let mut svc = service();
    let name = "a.txt".to_string();
    svc.upload_file(&name, b"first".to_vec()).unwrap();
    svc.upload_file(&name, b"second".to_vec()).unwrap();
    assert_eq!(svc.download_file(&name).unwrap(), b"second".to_vec());
}

#[test]
fn never_stored_is_not_found() {
    let svc = service();
    let name = "never-stored.txt".to_string();
    assert_eq!(svc.download_file(&name), Err(StorageError::NotFound));
}

#[test]
fn encrypt_route_requires_algorithm() {
    let mut svc = service();
    let name = "hello.txt".to_string();
    assert_eq!(
        svc.encrypt_sync(&name, b"hi", None),
        Err(StorageError::MissingAlgorithm)
    );
    // nothing was silently stored as plaintext
    assert_eq!(svc.download_file(&name), Err(StorageError::NotFound));
    assert_eq!(
        svc.decrypt_sync(&name, b"hi", None),
        Err(StorageError::MissingAlgorithm)
    );
    assert_eq!(
        transform_encrypt(&svc.keys, b"hi", None),
        Err(StorageError::MissingAlgorithm)
    );
}

#[test]
fn plain_then_symmetric_scenario() {
    let mut svc = service();
    let name = "hello.txt".to_string();
    svc.upload_file(&name, b"hi".to_vec()).unwrap();
    assert_eq!(svc.download_file(&name).unwrap(), b"hi".to_vec());

    svc.encrypt_sync(&name, b"hi", Some(Algorithm::Aes)).unwrap();
    let stored = svc.download_file(&name).unwrap();
    assert_ne!(stored, b"hi".to_vec());
    assert_eq!(svc.keys.decrypt_aes(&stored).unwrap(), b"hi".to_vec());
}

#[test]
fn decrypt_route_restores_plaintext() {
    let mut svc = service();
    let enc_name = "cipher.bin".to_string();
    let dec_name = "plain.bin".to_string();
    svc.encrypt_sync(&enc_name, b"round trip", Some(Algorithm::Aes)).unwrap();
    let cipher = svc.download_file(&enc_name).unwrap();
    svc.decrypt_sync(&dec_name, &cipher, Some(Algorithm::Aes)).unwrap();
    assert_eq!(svc.download_file(&dec_name).unwrap(), b"round trip".to_vec());
}

#[test]
fn asymmetric_route_round_trip() {
    let mut svc = service();
    let name = "secret.bin".to_string();
    let size = svc.encrypt_sync(&name, b"sealed", Some(Algorithm::Rsa)).unwrap();
    assert_eq!(size, 256);
    let stored = svc.download_file(&name).unwrap();
    assert_ne!(stored, b"sealed".to_vec());
    assert_eq!(svc.keys.decrypt_rsa(&stored).unwrap(), b"sealed".to_vec());
}

#[test]
fn escaping_names_are_rejected() {
    let mut svc = service();
    for bad in ["", ".", "..", "a/b.txt", "..\\up.txt", "/etc/owned", "C:evil.txt"] {
        let name = bad.to_string();
        assert_eq!(
            svc.upload_file(&name, b"x".to_vec()),
            Err(StorageError::InvalidName)
        );
        assert_eq!(svc.download_file(&name), Err(StorageError::NotFound));
    }
    assert_eq!(
        svc.encrypt_sync(&"../up".to_string(), b"x", Some(Algorithm::Aes)),
        Err(StorageError::InvalidName)
    );
}

#[test]
fn safe_name_decisions() {
    assert!(name_is_safe("hello.txt"));
    assert!(name_is_safe("with spaces and_underscores-1.bin"));
    assert!(name_is_safe("..."));
    assert!(!name_is_safe(""));
    assert!(!name_is_safe("."));
    assert!(!name_is_safe(".."));
    assert!(!name_is_safe("dir/file"));
    assert!(!name_is_safe("dir\\file"));
    assert!(!name_is_safe("nul\0byte"));
    assert!(!name_is_safe("C:file"));
}
